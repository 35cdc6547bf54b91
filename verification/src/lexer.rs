//! The lexer breaks a program's source text into a sequence of tokens. The
//! program is a string of characters which adhere to the language's syntax.
use crate::num::single_of_decimal;
use crate::text::{string_eq_str, string_push};
use vstd::prelude::*;
use vstd::string::*;

verus! {

/// The types of tokens that are valid in the language.
#[derive(Debug, Clone, PartialEq)]
pub enum TokenType {
    // Single-character tokens.
    LeftParen,
    RightParen,
    LeftBrace,
    RightBrace,
    Comma,
    Dot,
    Minus,
    Plus,
    Semicolon,
    Slash,
    Star,
    // One or two character tokens.
    Bang,
    BangEqual,
    Equal,
    EqualEqual,
    Greater,
    GreaterEqual,
    Less,
    LessEqual,
    // Literals. A number carries the 32-bit encoding of an IEEE 754 single.
    Identifier,
    String(String),
    Number(u32),
    // Keywords.
    And,
    Class,
    Else,
    False,
    Fun,
    For,
    If,
    Nil,
    Or,
    Print,
    Return,
    Super,
    This,
    True,
    Var,
    While,
    Eof,
}

/// The mathematical value of a token type: the same tags, with string
/// payloads abstracted to their characters.
pub enum TokenTypeV {
    LeftParen,
    RightParen,
    LeftBrace,
    RightBrace,
    Comma,
    Dot,
    Minus,
    Plus,
    Semicolon,
    Slash,
    Star,
    Bang,
    BangEqual,
    Equal,
    EqualEqual,
    Greater,
    GreaterEqual,
    Less,
    LessEqual,
    Identifier,
    String(Seq<char>),
    Number(u32),
    And,
    Class,
    Else,
    False,
    Fun,
    For,
    If,
    Nil,
    Or,
    Print,
    Return,
    Super,
    This,
    True,
    Var,
    While,
    Eof,
}

impl View for TokenType {
    type V = TokenTypeV;

    open spec fn view(&self) -> TokenTypeV {
        match self {
            TokenType::LeftParen => TokenTypeV::LeftParen,
            TokenType::RightParen => TokenTypeV::RightParen,
            TokenType::LeftBrace => TokenTypeV::LeftBrace,
            TokenType::RightBrace => TokenTypeV::RightBrace,
            TokenType::Comma => TokenTypeV::Comma,
            TokenType::Dot => TokenTypeV::Dot,
            TokenType::Minus => TokenTypeV::Minus,
            TokenType::Plus => TokenTypeV::Plus,
            TokenType::Semicolon => TokenTypeV::Semicolon,
            TokenType::Slash => TokenTypeV::Slash,
            TokenType::Star => TokenTypeV::Star,
            TokenType::Bang => TokenTypeV::Bang,
            TokenType::BangEqual => TokenTypeV::BangEqual,
            TokenType::Equal => TokenTypeV::Equal,
            TokenType::EqualEqual => TokenTypeV::EqualEqual,
            TokenType::Greater => TokenTypeV::Greater,
            TokenType::GreaterEqual => TokenTypeV::GreaterEqual,
            TokenType::Less => TokenTypeV::Less,
            TokenType::LessEqual => TokenTypeV::LessEqual,
            TokenType::Identifier => TokenTypeV::Identifier,
            TokenType::String(s) => TokenTypeV::String(s@),
            TokenType::Number(n) => TokenTypeV::Number(*n),
            TokenType::And => TokenTypeV::And,
            TokenType::Class => TokenTypeV::Class,
            TokenType::Else => TokenTypeV::Else,
            TokenType::False => TokenTypeV::False,
            TokenType::Fun => TokenTypeV::Fun,
            TokenType::For => TokenTypeV::For,
            TokenType::If => TokenTypeV::If,
            TokenType::Nil => TokenTypeV::Nil,
            TokenType::Or => TokenTypeV::Or,
            TokenType::Print => TokenTypeV::Print,
            TokenType::Return => TokenTypeV::Return,
            TokenType::Super => TokenTypeV::Super,
            TokenType::This => TokenTypeV::This,
            TokenType::True => TokenTypeV::True,
            TokenType::Var => TokenTypeV::Var,
            TokenType::While => TokenTypeV::While,
            TokenType::Eof => TokenTypeV::Eof,
        }
    }
}

/// A token is a single lexical unit of an input to the interpreter.
#[derive(Debug, Clone, PartialEq)]
pub struct Token {
    pub token_type: TokenType,
    /// The line of the input that this token was found on.
    pub line: u32,
    /// Used solely for diagnostics: the source text the token came from.
    pub lexeme: Option<String>,
}

/// The mathematical value of a token: its type's value, its line, and the
/// characters of its lexeme.
pub struct TokenV {
    pub token_type: TokenTypeV,
    pub line: u32,
    pub lexeme: Option<Seq<char>>,
}

impl View for Token {
    type V = TokenV;

    open spec fn view(&self) -> TokenV {
        TokenV {
            token_type: self.token_type@,
            line: self.line,
            lexeme: match self.lexeme {
                Option::Some(s) => Option::Some(s@),
                Option::None => Option::None,
            },
        }
    }
}

impl Token {
    /// A token of the given type and line, recording the source text it was
    /// derived from.
    pub fn new(token_type: TokenType, lexeme: String, line: u32) -> (r: Token)
        ensures
            r@ == (TokenV { token_type: token_type@, line, lexeme: Option::Some(lexeme@) }),
    {
        let lexeme = Some(lexeme);
        Token { token_type, lexeme, line }
    }
}

/// A failure of the lexer, carrying the offending text and the 1-based line
/// it stood on. The first such failure aborts the whole lexing call.
#[derive(Debug, Clone, PartialEq)]
pub enum LexicalError {
    /// A character that no token can begin with.
    UnexpectedCharacter { ch: char, line: u32 },
    /// A string literal whose line ended before a terminating quote.
    UnterminatedString { text: String, line: u32 },
    /// A numeric literal whose text does not parse as a number.
    InvalidNumber { text: String, line: u32 },
}

/// The mathematical value of a lexical error.
pub enum LexicalErrorV {
    UnexpectedCharacter { ch: char, line: u32 },
    UnterminatedString { text: Seq<char>, line: u32 },
    InvalidNumber { text: Seq<char>, line: u32 },
}

impl View for LexicalError {
    type V = LexicalErrorV;

    open spec fn view(&self) -> LexicalErrorV {
        match self {
            LexicalError::UnexpectedCharacter { ch, line } => LexicalErrorV::UnexpectedCharacter {
                ch: *ch,
                line: *line,
            },
            LexicalError::UnterminatedString { text, line } => LexicalErrorV::UnterminatedString {
                text: text@,
                line: *line,
            },
            LexicalError::InvalidNumber { text, line } => LexicalErrorV::InvalidNumber {
                text: text@,
                line: *line,
            },
        }
    }
}

/// The diagnostic text of a lexical error, without its line number.
pub open spec fn spec_lexical_error_message(e: LexicalErrorV) -> Seq<char> {
    match e {
        LexicalErrorV::UnexpectedCharacter { ch, line } => "unexpected character! "@.push(ch),
        LexicalErrorV::UnterminatedString { text, line } => "Unterminated string literal "@ + text,
        LexicalErrorV::InvalidNumber { text, line } => "Invalid number literal "@ + text,
    }
}

/// The 1-based line a lexical error stood on.
pub open spec fn spec_lexical_error_line(e: LexicalErrorV) -> u32 {
    match e {
        LexicalErrorV::UnexpectedCharacter { ch, line } => line,
        LexicalErrorV::UnterminatedString { text, line } => line,
        LexicalErrorV::InvalidNumber { text, line } => line,
    }
}

impl LexicalError {
    /// The diagnostic text of this error, without its line number.
    pub fn message(&self) -> (r: String)
        ensures
            r@ == spec_lexical_error_message(self@),
    {
        match self {
            LexicalError::UnexpectedCharacter { ch, line } => {
                let mut r = String::from_str("unexpected character! ");
                string_push(&mut r, *ch);
                r
            },
            LexicalError::UnterminatedString { text, line } => {
                let mut r = String::from_str("Unterminated string literal ");
                r.append(text.as_str());
                r
            },
            LexicalError::InvalidNumber { text, line } => {
                let mut r = String::from_str("Invalid number literal ");
                r.append(text.as_str());
                r
            },
        }
    }

    /// The 1-based line this error stood on.
    pub fn line(&self) -> (r: u32)
        ensures
            r == spec_lexical_error_line(self@),
    {
        match self {
            LexicalError::UnexpectedCharacter { ch, line } => *line,
            LexicalError::UnterminatedString { text, line } => *line,
            LexicalError::InvalidNumber { text, line } => *line,
        }
    }
}

/// A token value with a recorded lexeme.
pub open spec fn spec_tok(token_type: TokenTypeV, lexeme: Seq<char>, line: u32) -> TokenV {
    TokenV { token_type, line, lexeme: Option::Some(lexeme) }
}

/// The token type of a piece of fixed single-character punctuation.
pub open spec fn spec_single_punct(c: char) -> Option<TokenTypeV> {
    if c == '(' {
        Option::Some(TokenTypeV::LeftParen)
    } else if c == ')' {
        Option::Some(TokenTypeV::RightParen)
    } else if c == '{' {
        Option::Some(TokenTypeV::LeftBrace)
    } else if c == '}' {
        Option::Some(TokenTypeV::RightBrace)
    } else if c == ',' {
        Option::Some(TokenTypeV::Comma)
    } else if c == '.' {
        Option::Some(TokenTypeV::Dot)
    } else if c == '-' {
        Option::Some(TokenTypeV::Minus)
    } else if c == '+' {
        Option::Some(TokenTypeV::Plus)
    } else if c == ';' {
        Option::Some(TokenTypeV::Semicolon)
    } else if c == '*' {
        Option::Some(TokenTypeV::Star)
    } else {
        Option::None
    }
}

/// Whether a character begins a numeric literal: ASCII digits directly,
/// anything else in std's Unicode number classes besides.
pub open spec fn spec_is_number_start(c: char) -> bool {
    ('0' <= c && c <= '9') || crate::text::char_is_numeric(c)
}

/// Whether a character continues a numeric literal.
pub open spec fn spec_is_number_part(c: char) -> bool {
    spec_is_number_start(c) || c == '.'
}

/// Whether a character continues an identifier.
pub open spec fn spec_is_ident_part(c: char) -> bool {
    crate::text::char_is_alphabetic(c) || crate::text::char_is_numeric(c) || c == '_'
}

/// The position of the first double quote, which ends a string literal.
pub open spec fn spec_quote_index(s: Seq<char>) -> Option<nat>
    decreases s.len(),
{
    if s.len() == 0 {
        Option::None
    } else if s[0] == '"' {
        Option::Some(0)
    } else {
        match spec_quote_index(s.skip(1)) {
            Option::Some(j) => Option::Some(j + 1),
            Option::None => Option::None,
        }
    }
}

/// How many leading characters continue a numeric literal.
pub open spec fn spec_number_len(s: Seq<char>) -> nat
    decreases s.len(),
{
    if s.len() == 0 || !spec_is_number_part(s[0]) {
        0
    } else {
        1 + spec_number_len(s.skip(1))
    }
}

/// How many leading characters continue an identifier.
pub open spec fn spec_ident_len(s: Seq<char>) -> nat
    decreases s.len(),
{
    if s.len() == 0 || !spec_is_ident_part(s[0]) {
        0
    } else {
        1 + spec_ident_len(s.skip(1))
    }
}

proof fn lemma_quote_index_bound(s: Seq<char>)
    ensures
        spec_quote_index(s) matches Option::Some(j) ==> j < s.len(),
    decreases s.len(),
{
    if s.len() > 0 && s[0] != '"' {
        lemma_quote_index_bound(s.skip(1));
    }
}

proof fn lemma_number_len_bound(s: Seq<char>)
    ensures
        spec_number_len(s) <= s.len(),
    decreases s.len(),
{
    if s.len() > 0 && spec_is_number_part(s[0]) {
        lemma_number_len_bound(s.skip(1));
    }
}

proof fn lemma_ident_len_bound(s: Seq<char>)
    ensures
        spec_ident_len(s) <= s.len(),
    decreases s.len(),
{
    if s.len() > 0 && spec_is_ident_part(s[0]) {
        lemma_ident_len_bound(s.skip(1));
    }
}

/// The keyword token type a piece of identifier text stands for, or a plain
/// identifier where it is no keyword.
pub open spec fn spec_keyword_or_ident(s: Seq<char>) -> TokenTypeV {
    if s == "fun"@ {
        TokenTypeV::Fun
    } else if s == "var"@ {
        TokenTypeV::Var
    } else if s == "if"@ {
        TokenTypeV::If
    } else if s == "else"@ {
        TokenTypeV::Else
    } else if s == "return"@ {
        TokenTypeV::Return
    } else if s == "true"@ {
        TokenTypeV::True
    } else if s == "false"@ {
        TokenTypeV::False
    } else if s == "and"@ {
        TokenTypeV::And
    } else if s == "or"@ {
        TokenTypeV::Or
    } else if s == "nil"@ {
        TokenTypeV::Nil
    } else if s == "for"@ {
        TokenTypeV::For
    } else if s == "super"@ {
        TokenTypeV::Super
    } else if s == "class"@ {
        TokenTypeV::Class
    } else if s == "this"@ {
        TokenTypeV::This
    } else if s == "while"@ {
        TokenTypeV::While
    } else if s == "print"@ {
        TokenTypeV::Print
    } else {
        TokenTypeV::Identifier
    }
}

/// Prepends a token to the tokens of a lexing outcome; an error stays.
pub open spec fn spec_cons(t: TokenV, r: Result<Seq<TokenV>, LexicalErrorV>) -> Result<
    Seq<TokenV>,
    LexicalErrorV,
> {
    match r {
        Result::Ok(ts) => Result::Ok(seq![t] + ts),
        Result::Err(e) => Result::Err(e),
    }
}

/// Appends the tokens of a lexing outcome to tokens already produced; an
/// error stays.
pub open spec fn spec_combine(done: Seq<TokenV>, r: Result<Seq<TokenV>, LexicalErrorV>) -> Result<
    Seq<TokenV>,
    LexicalErrorV,
> {
    match r {
        Result::Ok(ts) => Result::Ok(done + ts),
        Result::Err(e) => Result::Err(e),
    }
}

/// The tokens of one physical line of source text, scanned left to right
/// with single-character lookahead, or the line's first lexical error.
pub open spec fn spec_lex_line(cs: Seq<char>, line: u32) -> Result<Seq<TokenV>, LexicalErrorV>
    decreases cs.len(),
    via spec_lex_line_dec
{
    if cs.len() == 0 {
        Result::Ok(Seq::empty())
    } else {
        let c = cs[0];
        let rest = cs.skip(1);
        match spec_single_punct(c) {
            Option::Some(k) => spec_cons(spec_tok(k, seq![c], line), spec_lex_line(rest, line)),
            Option::None => if c == '/' {
                if rest.len() > 0 && rest[0] == '/' {
                    // A comment: the rest of the line is ignored.
                    Result::Ok(Seq::empty())
                } else {
                    spec_cons(
                        spec_tok(TokenTypeV::Slash, seq![c], line),
                        spec_lex_line(rest, line),
                    )
                }
            } else if c == '!' {
                if rest.len() > 0 && rest[0] == '=' {
                    spec_cons(
                        spec_tok(TokenTypeV::BangEqual, "!="@, line),
                        spec_lex_line(cs.skip(2), line),
                    )
                } else {
                    spec_cons(spec_tok(TokenTypeV::Bang, seq![c], line), spec_lex_line(rest, line))
                }
            } else if c == '=' {
                if rest.len() > 0 && rest[0] == '=' {
                    spec_cons(
                        spec_tok(TokenTypeV::EqualEqual, "=="@, line),
                        spec_lex_line(cs.skip(2), line),
                    )
                } else {
                    spec_cons(spec_tok(TokenTypeV::Equal, seq![c], line), spec_lex_line(rest, line))
                }
            } else if c == '>' {
                if rest.len() > 0 && rest[0] == '=' {
                    spec_cons(
                        spec_tok(TokenTypeV::GreaterEqual, ">="@, line),
                        spec_lex_line(cs.skip(2), line),
                    )
                } else {
                    spec_cons(
                        spec_tok(TokenTypeV::Greater, seq![c], line),
                        spec_lex_line(rest, line),
                    )
                }
            } else if c == '<' {
                if rest.len() > 0 && rest[0] == '=' {
                    spec_cons(
                        spec_tok(TokenTypeV::LessEqual, "<="@, line),
                        spec_lex_line(cs.skip(2), line),
                    )
                } else {
                    spec_cons(spec_tok(TokenTypeV::Less, seq![c], line), spec_lex_line(rest, line))
                }
            } else if c == ' ' || c == '\r' || c == '\t' {
                spec_lex_line(rest, line)
            } else if c == '"' {
                match spec_quote_index(rest) {
                    Option::Some(j) => spec_cons(
                        spec_tok(
                            TokenTypeV::String(rest.take(j as int)),
                            seq![c] + rest.take(j as int) + seq![rest[j as int]],
                            line,
                        ),
                        spec_lex_line(rest.skip(j as int + 1), line),
                    ),
                    Option::None => Result::Err(
                        LexicalErrorV::UnterminatedString { text: rest, line },
                    ),
                }
            } else if spec_is_number_start(c) {
                let j = spec_number_len(rest);
                let text = seq![c] + rest.take(j as int);
                match crate::num::single_of_decimal(text) {
                    Option::Some(b) => spec_cons(
                        spec_tok(TokenTypeV::Number(b), text, line),
                        spec_lex_line(rest.skip(j as int), line),
                    ),
                    Option::None => Result::Err(LexicalErrorV::InvalidNumber { text, line }),
                }
            } else if crate::text::char_is_alphabetic(c) {
                let j = spec_ident_len(rest);
                let text = seq![c] + rest.take(j as int);
                spec_cons(
                    spec_tok(spec_keyword_or_ident(text), text, line),
                    spec_lex_line(rest.skip(j as int), line),
                )
            } else {
                Result::Err(LexicalErrorV::UnexpectedCharacter { ch: c, line })
            },
        }
    }
}

#[via_fn]
proof fn spec_lex_line_dec(cs: Seq<char>, line: u32) {
    if cs.len() > 0 {
        lemma_quote_index_bound(cs.skip(1));
        lemma_number_len_bound(cs.skip(1));
        lemma_ident_len_bound(cs.skip(1));
    }
}

/// Whether a piece of text is made of ASCII decimal digits alone.
pub open spec fn spec_all_digits(s: Seq<char>) -> bool {
    forall|k: int| 0 <= k < s.len() ==> '0' <= #[trigger] s[k] && s[k] <= '9'
}

/// The values of a sequence of tokens.
pub open spec fn spec_token_views(ts: Seq<Token>) -> Seq<TokenV> {
    ts.map_values(|t: Token| t@)
}

proof fn lemma_combine_push(done: Seq<TokenV>, t: TokenV, r: Result<Seq<TokenV>, LexicalErrorV>)
    ensures
        spec_combine(done.push(t), r) == spec_combine(done, spec_cons(t, r)),
{
    match r {
        Result::Ok(ts) => {
            assert(done.push(t) + ts =~= done + (seq![t] + ts));
        },
        Result::Err(_) => {},
    }
}

proof fn lemma_combine_empty(r: Result<Seq<TokenV>, LexicalErrorV>)
    ensures
        spec_combine(Seq::empty(), r) == r,
{
    match r {
        Result::Ok(ts) => {
            assert(Seq::empty() + ts =~= ts);
        },
        Result::Err(_) => {},
    }
}

fn is_number_start_exec(c: char) -> (r: bool)
    ensures
        r == spec_is_number_start(c),
{
    ('0' <= c && c <= '9') || crate::text::is_numeric_char(c)
}

fn is_number_part_exec(c: char) -> (r: bool)
    ensures
        r == spec_is_number_part(c),
{
    is_number_start_exec(c) || c == '.'
}

fn is_ident_part_exec(c: char) -> (r: bool)
    ensures
        r == spec_is_ident_part(c),
{
    crate::text::is_alphanumeric_char(c) || c == '_'
}

fn find_quote(cs: &Vec<char>, from: usize) -> (r: Option<usize>)
    requires
        from <= cs@.len(),
    ensures
        match r {
            Option::Some(j) => from <= j < cs@.len() && spec_quote_index(cs@.skip(from as int))
                == Option::Some((j - from) as nat),
            Option::None => spec_quote_index(cs@.skip(from as int)) is None,
        },
    decreases cs@.len() - from,
{
    if from >= cs.len() {
        None
    } else if cs[from] == '"' {
        Some(from)
    } else {
        let r = find_quote(cs, from + 1);
        proof {
            assert(cs@.skip(from as int).skip(1) =~= cs@.skip(from as int + 1));
        }
        r
    }
}

fn scan_number_end(cs: &Vec<char>, from: usize) -> (r: usize)
    requires
        from <= cs@.len(),
    ensures
        from <= r <= cs@.len(),
        r - from == spec_number_len(cs@.skip(from as int)),
    decreases cs@.len() - from,
{
    if from >= cs.len() || !is_number_part_exec(cs[from]) {
        from
    } else {
        let r = scan_number_end(cs, from + 1);
        proof {
            assert(cs@.skip(from as int).skip(1) =~= cs@.skip(from as int + 1));
        }
        r
    }
}

fn scan_ident_end(cs: &Vec<char>, from: usize) -> (r: usize)
    requires
        from <= cs@.len(),
    ensures
        from <= r <= cs@.len(),
        r - from == spec_ident_len(cs@.skip(from as int)),
    decreases cs@.len() - from,
{
    if from >= cs.len() || !is_ident_part_exec(cs[from]) {
        from
    } else {
        let r = scan_ident_end(cs, from + 1);
        proof {
            assert(cs@.skip(from as int).skip(1) =~= cs@.skip(from as int + 1));
        }
        r
    }
}

fn keyword_token_type(text: &String) -> (r: TokenType)
    ensures
        r@ == spec_keyword_or_ident(text@),
{
    if string_eq_str(text, "fun") {
        TokenType::Fun
    } else if string_eq_str(text, "var") {
        TokenType::Var
    } else if string_eq_str(text, "if") {
        TokenType::If
    } else if string_eq_str(text, "else") {
        TokenType::Else
    } else if string_eq_str(text, "return") {
        TokenType::Return
    } else if string_eq_str(text, "true") {
        TokenType::True
    } else if string_eq_str(text, "false") {
        TokenType::False
    } else if string_eq_str(text, "and") {
        TokenType::And
    } else if string_eq_str(text, "or") {
        TokenType::Or
    } else if string_eq_str(text, "nil") {
        TokenType::Nil
    } else if string_eq_str(text, "for") {
        TokenType::For
    } else if string_eq_str(text, "super") {
        TokenType::Super
    } else if string_eq_str(text, "class") {
        TokenType::Class
    } else if string_eq_str(text, "this") {
        TokenType::This
    } else if string_eq_str(text, "while") {
        TokenType::While
    } else if string_eq_str(text, "print") {
        TokenType::Print
    } else {
        TokenType::Identifier
    }
}

/// The position of the first line break.
pub open spec fn spec_newline_index(s: Seq<char>) -> Option<nat>
    decreases s.len(),
{
    if s.len() == 0 {
        Option::None
    } else if s[0] == '\n' {
        Option::Some(0)
    } else {
        match spec_newline_index(s.skip(1)) {
            Option::Some(j) => Option::Some(j + 1),
            Option::None => Option::None,
        }
    }
}

/// A physical line without a carriage return left behind by a Windows
/// line break.
pub open spec fn spec_strip_cr(l: Seq<char>) -> Seq<char> {
    if l.len() > 0 && l[l.len() - 1] == '\r' {
        l.take(l.len() - 1)
    } else {
        l
    }
}

proof fn lemma_newline_index_bound(s: Seq<char>)
    ensures
        spec_newline_index(s) matches Option::Some(j) ==> j < s.len(),
    decreases s.len(),
{
    if s.len() > 0 && s[0] != '\n' {
        lemma_newline_index_bound(s.skip(1));
    }
}

/// The physical lines of a piece of source text, split at line breaks as
/// std's `str::lines` splits them.
pub open spec fn spec_lines(s: Seq<char>) -> Seq<Seq<char>>
    decreases s.len(),
    via spec_lines_dec
{
    if s.len() == 0 {
        Seq::empty()
    } else {
        match spec_newline_index(s) {
            Option::Some(i) => seq![spec_strip_cr(s.take(i as int))] + spec_lines(
                s.skip(i as int + 1),
            ),
            Option::None => seq![s],
        }
    }
}

#[via_fn]
proof fn spec_lines_dec(s: Seq<char>) {
    lemma_newline_index_bound(s);
}

proof fn lemma_lines_count(s: Seq<char>)
    ensures
        spec_lines(s).len() <= s.len(),
    decreases s.len(),
{
    if s.len() > 0 {
        lemma_newline_index_bound(s);
        match spec_newline_index(s) {
            Option::Some(i) => {
                lemma_lines_count(s.skip(i as int + 1));
            },
            Option::None => {},
        }
    }
}

proof fn lemma_lines_item_len(s: Seq<char>)
    ensures
        forall|i: int| 0 <= i < spec_lines(s).len() ==> (#[trigger] spec_lines(s)[i]).len()
            <= s.len(),
    decreases s.len(),
{
    if s.len() > 0 {
        lemma_newline_index_bound(s);
        match spec_newline_index(s) {
            Option::Some(i) => {
                lemma_lines_item_len(s.skip(i as int + 1));
                assert(forall|j: int|
                    0 <= j < spec_lines(s).len() ==> (#[trigger] spec_lines(s)[j]).len()
                        <= s.len()) by {
                    assert(forall|j: int|
                        1 <= j < spec_lines(s).len() ==> (#[trigger] spec_lines(s)[j])
                            == spec_lines(s.skip(i as int + 1))[j - 1]);
                }
            },
            Option::None => {},
        }
    }
}

/// The tokens of a sequence of physical lines, numbered upward from
/// `idx + 1`, or the first line's first lexical error.
pub open spec fn spec_lex_lines(ls: Seq<Seq<char>>, idx: nat) -> Result<Seq<TokenV>, LexicalErrorV>
    decreases ls.len(),
{
    if ls.len() == 0 {
        Result::Ok(Seq::empty())
    } else {
        match spec_lex_line(ls[0], (idx + 1) as u32) {
            Result::Ok(ts) => spec_combine(ts, spec_lex_lines(ls.skip(1), idx + 1)),
            Result::Err(e) => Result::Err(e),
        }
    }
}

/// The end-of-file marker appended after a lexed input: its line is the
/// last token's line, or 0 where no token was produced.
pub open spec fn spec_eof_token(ts: Seq<TokenV>) -> TokenV {
    spec_tok(
        TokenTypeV::Eof,
        Seq::empty(),
        if ts.len() == 0 {
            0
        } else {
            ts.last().line
        },
    )
}

/// The tokens of a whole input: the tokens of its lines in order, with the
/// end-of-file marker appended; or the first lexical error.
pub open spec fn spec_lex(s: Seq<char>) -> Result<Seq<TokenV>, LexicalErrorV> {
    match spec_lex_lines(spec_lines(s), 0) {
        Result::Ok(ts) => Result::Ok(ts.push(spec_eof_token(ts))),
        Result::Err(e) => Result::Err(e),
    }
}

proof fn lemma_combine_append(done: Seq<TokenV>, ts: Seq<TokenV>, r: Result<Seq<TokenV>, LexicalErrorV>)
    ensures
        spec_combine(done + ts, r) == spec_combine(done, spec_combine(ts, r)),
{
    match r {
        Result::Ok(rest) => {
            assert((done + ts) + rest =~= done + (ts + rest));
        },
        Result::Err(_) => {},
    }
}

/// No token a line yields is an end-of-file marker, and each sits on the
/// line it was scanned from.
proof fn lemma_lex_line_no_eof(cs: Seq<char>, line: u32)
    ensures
        spec_lex_line(cs, line) matches Result::Ok(ts) ==> forall|k: int|
            0 <= k < ts.len() ==> !(#[trigger] ts[k].token_type is Eof) && ts[k].line == line,
    decreases cs.len(),
{
    if cs.len() > 0 {
        lemma_quote_index_bound(cs.skip(1));
        lemma_number_len_bound(cs.skip(1));
        lemma_ident_len_bound(cs.skip(1));
        let c = cs[0];
        let rest = cs.skip(1);
        match spec_single_punct(c) {
            Option::Some(k) => {
                lemma_lex_line_no_eof(rest, line);
            },
            Option::None => {
                if c == '/' {
                    if !(rest.len() > 0 && rest[0] == '/') {
                        lemma_lex_line_no_eof(rest, line);
                    }
                } else if c == '!' || c == '=' || c == '>' || c == '<' {
                    if rest.len() > 0 && rest[0] == '=' {
                        lemma_lex_line_no_eof(cs.skip(2), line);
                    } else {
                        lemma_lex_line_no_eof(rest, line);
                    }
                } else if c == ' ' || c == '\r' || c == '\t' {
                    lemma_lex_line_no_eof(rest, line);
                } else if c == '"' {
                    match spec_quote_index(rest) {
                        Option::Some(j) => {
                            lemma_lex_line_no_eof(rest.skip(j as int + 1), line);
                        },
                        Option::None => {},
                    }
                } else if spec_is_number_start(c) {
                    lemma_lex_line_no_eof(rest.skip(spec_number_len(rest) as int), line);
                } else if crate::text::char_is_alphabetic(c) {
                    lemma_lex_line_no_eof(rest.skip(spec_ident_len(rest) as int), line);
                }
            },
        }
    }
}

proof fn lemma_number_len_all_digits(s: Seq<char>)
    requires
        spec_all_digits(s),
    ensures
        spec_number_len(s) == s.len(),
    decreases s.len(),
{
    if s.len() > 0 {
        assert(spec_all_digits(s.skip(1)));
        lemma_number_len_all_digits(s.skip(1));
    }
}

proof fn lemma_newline_index_no_newline(s: Seq<char>)
    requires
        forall|k: int| 0 <= k < s.len() ==> #[trigger] s[k] != '\n',
    ensures
        spec_newline_index(s) is None,
    decreases s.len(),
{
    if s.len() > 0 {
        assert(forall|k: int| 0 <= k < s.skip(1).len() ==> #[trigger] s.skip(1)[k] != '\n');
        lemma_newline_index_no_newline(s.skip(1));
    }
}

/// An input of decimal digits alone is one line and one numeric literal:
/// it lexes to that number's token and the end-of-file marker, or to an
/// invalid-number error where the digits do not parse.
pub proof fn lemma_lex_digits(s: Seq<char>)
    requires
        s.len() > 0,
        spec_all_digits(s),
    ensures
        spec_lines(s) == seq![s],
        (match crate::num::single_of_decimal(s) {
            Option::Some(b) => spec_lex(s) == Result::<Seq<TokenV>, LexicalErrorV>::Ok(
                seq![
                    spec_tok(TokenTypeV::Number(b), s, 1),
                    spec_tok(TokenTypeV::Eof, Seq::empty(), 1),
                ],
            ),
            Option::None => spec_lex(s) == Result::<Seq<TokenV>, LexicalErrorV>::Err(
                LexicalErrorV::InvalidNumber { text: s, line: 1 },
            ),
        }),
{
    assert(forall|k: int| 0 <= k < s.len() ==> #[trigger] s[k] != '\n');
    lemma_newline_index_no_newline(s);
    assert(spec_lines(s) =~= seq![s]);
    let c = s[0];
    let rest = s.skip(1);
    assert(spec_single_punct(c) is None);
    assert(spec_all_digits(rest));
    lemma_number_len_all_digits(rest);
    let j = spec_number_len(rest);
    assert(j == rest.len());
    assert(seq![c] + rest.take(j as int) =~= s);
    assert(rest.skip(j as int) =~= Seq::<char>::empty());
    assert(spec_lex_line(Seq::<char>::empty(), 1) == Result::<Seq<TokenV>, LexicalErrorV>::Ok(
        Seq::empty(),
    ));
    match crate::num::single_of_decimal(s) {
        Option::Some(b) => {
            let t = spec_tok(TokenTypeV::Number(b), s, 1);
            assert(spec_lex_line(s, 1) == spec_cons(
                t,
                spec_lex_line(rest.skip(j as int), 1),
            ));
            assert(seq![t] + Seq::<TokenV>::empty() =~= seq![t]);
            assert(spec_lex_line(s, 1) == Result::<Seq<TokenV>, LexicalErrorV>::Ok(seq![t]));
            assert(spec_lines(s).skip(1) =~= Seq::<Seq<char>>::empty());
            assert(spec_lex_lines(spec_lines(s).skip(1), 1) == Result::<
                Seq<TokenV>,
                LexicalErrorV,
            >::Ok(Seq::empty()));
            assert(seq![t] + Seq::<TokenV>::empty() =~= seq![t]);
            assert(spec_lex_lines(spec_lines(s), 0) == Result::<Seq<TokenV>, LexicalErrorV>::Ok(
                seq![t],
            ));
            assert(seq![t].push(spec_eof_token(seq![t])) =~= seq![
                t,
                spec_tok(TokenTypeV::Eof, Seq::empty(), 1),
            ]);
        },
        Option::None => {
            assert(spec_lex_line(s, 1) == Result::<Seq<TokenV>, LexicalErrorV>::Err(
                LexicalErrorV::InvalidNumber { text: s, line: 1 },
            ));
        },
    }
}

/// A line that begins with two slashes is a comment: it yields no tokens.
pub proof fn lemma_lex_comment_line(s: Seq<char>, line: u32)
    requires
        s.len() >= 2,
        s[0] == '/',
        s[1] == '/',
    ensures
        spec_lex_line(s, line) == Result::<Seq<TokenV>, LexicalErrorV>::Ok(Seq::empty()),
{
    assert(s.skip(1)[0] == s[1]);
}

/// An input that is one comment line yields the end-of-file marker alone,
/// on line 0.
pub proof fn lemma_lex_comment_only(s: Seq<char>)
    requires
        s.len() >= 2,
        s[0] == '/',
        s[1] == '/',
        forall|k: int| 0 <= k < s.len() ==> #[trigger] s[k] != '\n',
    ensures
        spec_lex(s) == Result::<Seq<TokenV>, LexicalErrorV>::Ok(
            seq![spec_tok(TokenTypeV::Eof, Seq::empty(), 0)],
        ),
{
    lemma_newline_index_no_newline(s);
    assert(spec_lines(s) =~= seq![s]);
    lemma_lex_comment_line(s, 1);
    assert(spec_lines(s).skip(1) =~= Seq::<Seq<char>>::empty());
    assert(spec_lex_lines(spec_lines(s).skip(1), 1) == Result::<Seq<TokenV>, LexicalErrorV>::Ok(
        Seq::empty(),
    ));
    assert(Seq::<TokenV>::empty() + Seq::<TokenV>::empty() =~= Seq::<TokenV>::empty());
    assert(spec_lex_lines(spec_lines(s), 0) == Result::<Seq<TokenV>, LexicalErrorV>::Ok(
        Seq::empty(),
    ));
    assert(Seq::<TokenV>::empty().push(spec_eof_token(Seq::empty())) =~= seq![
        spec_tok(TokenTypeV::Eof, Seq::empty(), 0),
    ]);
}

fn find_newline(cs: &Vec<char>, from: usize) -> (r: Option<usize>)
    requires
        from <= cs@.len(),
    ensures
        match r {
            Option::Some(j) => from <= j < cs@.len() && spec_newline_index(cs@.skip(from as int))
                == Option::Some((j - from) as nat),
            Option::None => spec_newline_index(cs@.skip(from as int)) is None,
        },
    decreases cs@.len() - from,
{
    if from >= cs.len() {
        None
    } else if cs[from] == '\n' {
        Some(from)
    } else {
        let r = find_newline(cs, from + 1);
        proof {
            assert(cs@.skip(from as int).skip(1) =~= cs@.skip(from as int + 1));
        }
        r
    }
}

fn vec_from_range(cs: &Vec<char>, from: usize, to: usize) -> (r: Vec<char>)
    requires
        from <= to <= cs@.len(),
    ensures
        r@ == cs@.subrange(from as int, to as int),
{
    let mut r: Vec<char> = Vec::new();
    let mut i: usize = from;
    while i < to
        invariant
            from <= i <= to <= cs@.len(),
            r@ == cs@.subrange(from as int, i as int),
        decreases to - i,
    {
        r.push(cs[i]);
        assert(r@ =~= cs@.subrange(from as int, i + 1 as int));
        i = i + 1;
    }
    r
}

/// The physical lines of an input, split as std's `str::lines` splits
/// them: at each line break, with a carriage return before it dropped.
fn split_lines(cs: &Vec<char>) -> (r: Vec<Vec<char>>)
    ensures
        r@.map_values(|l: Vec<char>| l@) == spec_lines(cs@),
{
    let mut r: Vec<Vec<char>> = Vec::new();
    let mut start: usize = 0;
    proof {
        assert(cs@.skip(0) =~= cs@);
        assert(r@.map_values(|l: Vec<char>| l@) =~= Seq::<Seq<char>>::empty());
        assert(Seq::<Seq<char>>::empty() + spec_lines(cs@) =~= spec_lines(cs@));
    }
    while start < cs.len()
        invariant
            start <= cs@.len(),
            spec_lines(cs@) == r@.map_values(|l: Vec<char>| l@) + spec_lines(
                cs@.skip(start as int),
            ),
        decreases cs@.len() - start,
    {
        let ghost done = r@.map_values(|l: Vec<char>| l@);
        let ghost pre = cs@.skip(start as int);
        match find_newline(cs, start) {
            Some(p) => {
                let line_end = if p > start && cs[p - 1] == '\r' {
                    p - 1
                } else {
                    p
                };
                let line = vec_from_range(cs, start, line_end);
                proof {
                    let i = (p - start) as int;
                    assert(pre.take(i) =~= cs@.subrange(start as int, p as int));
                    if p > start && cs@[p as int - 1] == '\r' {
                        assert(pre.take(i).take(i - 1) =~= cs@.subrange(
                            start as int,
                            p as int - 1,
                        ));
                        assert(spec_strip_cr(pre.take(i)) == cs@.subrange(
                            start as int,
                            line_end as int,
                        ));
                    } else {
                        assert(spec_strip_cr(pre.take(i)) == cs@.subrange(
                            start as int,
                            line_end as int,
                        ));
                    }
                    assert(pre.skip(i + 1) =~= cs@.skip(p as int + 1));
                    assert(spec_lines(pre) == seq![line@] + spec_lines(cs@.skip(p as int + 1)));
                    assert(r@.push(line).map_values(|l: Vec<char>| l@) =~= done.push(line@));
                    assert(done.push(line@) + spec_lines(cs@.skip(p as int + 1)) =~= done + (seq![
                        line@,
                    ] + spec_lines(cs@.skip(p as int + 1))));
                }
                r.push(line);
                start = p + 1;
            },
            None => {
                let line = vec_from_range(cs, start, cs.len());
                proof {
                    assert(line@ =~= pre);
                    assert(spec_lines(pre) == seq![pre]);
                    assert(r@.push(line).map_values(|l: Vec<char>| l@) =~= done.push(line@));
                    assert(done.push(line@) =~= done + seq![pre]);
                }
                r.push(line);
                return r;
            },
        }
    }
    proof {
        assert(cs@.skip(start as int) =~= Seq::<char>::empty());
        assert(spec_lines(Seq::<char>::empty()) == Seq::<Seq<char>>::empty());
        assert(r@.map_values(|l: Vec<char>| l@) + Seq::<Seq<char>>::empty() =~= r@.map_values(
            |l: Vec<char>| l@,
        ));
    }
    r
}

/// A lexer (or scanner) is responsible for breaking a program into a
/// sequence of tokens.
pub struct Lexer {
    debug: bool,
}

impl Lexer {
    pub fn new() -> Lexer {
        Lexer { debug: false }
    }

    /// Breaks a string slice of characters into a sequence of tokens: the
    /// tokens of each physical line in order, closed by a single
    /// end-of-file marker; or the input's first lexical error. An input of
    /// decimal digits alone always lexes, to its number and the marker.
    /// The length bound keeps 1-based line numbers within `u32` and number
    /// texts within the number parser's machine limit.
    pub fn lex(&mut self, input: &str) -> (r: Result<Vec<Token>, LexicalError>)
        requires
            input@.len() < 0x8000_0000,
        ensures
            *final(self) == *old(self),
            (match r {
                Result::Ok(ts) => spec_lex(input@) == Result::<Seq<TokenV>, LexicalErrorV>::Ok(
                    spec_token_views(ts@),
                ),
                Result::Err(e) => spec_lex(input@) == Result::<Seq<TokenV>, LexicalErrorV>::Err(
                    e@,
                ),
            }),
            r matches Result::Ok(ts) ==> ts@.len() >= 1 && ts@.last()@.token_type is Eof
                && forall|k: int| 0 <= k < ts@.len() - 1 ==> !((#[trigger] ts@[k])@.token_type is Eof),
            input@.len() > 0 && spec_all_digits(input@) ==> (r matches Result::Ok(ts)
                && crate::num::single_of_decimal(input@) matches Option::Some(b) && ts@.len() == 2
                && ts@[0]@ == spec_tok(TokenTypeV::Number(b), input@, 1) && ts@[1]@ == spec_tok(
                TokenTypeV::Eof,
                Seq::empty(),
                1,
            )),
    {
        let chars = crate::text::chars_of(input);
        let lines = split_lines(&chars);
        let ghost ls = spec_lines(input@);
        proof {
            lemma_lines_count(input@);
            assert(ls.skip(0) =~= ls);
            if input@.len() > 0 && spec_all_digits(input@) {
                lemma_lex_digits(input@);
            }
        }
        let mut tokens: Vec<Token> = Vec::new();
        let mut k: usize = 0;
        proof {
            lemma_combine_empty(spec_lex_lines(ls, 0));
            assert(spec_token_views(Seq::empty()) =~= Seq::<TokenV>::empty());
        }
        while k < lines.len()
            invariant
                k <= lines@.len(),
                lines@.map_values(|l: Vec<char>| l@) == ls,
                ls == spec_lines(input@),
                ls.len() <= input@.len() < 0x8000_0000,
                input@.len() > 0 && spec_all_digits(input@) ==> ls == seq![input@],
                spec_combine(
                    spec_token_views(tokens@),
                    spec_lex_lines(ls.skip(k as int), k as nat),
                ) == spec_lex_lines(ls, 0),
                forall|j: int| 0 <= j < tokens@.len() ==> !((#[trigger] tokens@[j])@.token_type
                    is Eof),
            decreases lines@.len() - k,
        {
            let ghost done = spec_token_views(tokens@);
            let line_number: u32 = (k + 1) as u32;
            proof {
                lemma_lines_item_len(input@);
                assert(lines@[k as int]@.len() <= input@.len());
                assert(ls.skip(k as int)[0] == lines@[k as int]@);
                assert(ls.skip(k as int).skip(1) =~= ls.skip(k as int + 1));
                assert(line_number == (k as nat + 1) as u32);
            }
            match self.lex_chars(&lines[k], line_number) {
                Ok(mut ts) => {
                    proof {
                        lemma_lex_line_no_eof(lines@[k as int]@, line_number);
                        lemma_combine_append(
                            done,
                            spec_token_views(ts@),
                            spec_lex_lines(ls.skip(k as int + 1), k as nat + 1),
                        );
                        assert((tokens@ + ts@).map_values(|t: Token| t@) =~= done
                            + spec_token_views(ts@));
                        assert(forall|j: int|
                            0 <= j < ts@.len() ==> !((#[trigger] ts@[j])@.token_type is Eof)) by {
                            assert(forall|j: int|
                                0 <= j < ts@.len() ==> spec_token_views(ts@)[j] == (
                                #[trigger] ts@[j])@);
                        }
                        assert(forall|j: int|
                            0 <= j < (tokens@ + ts@).len() ==> !((#[trigger] (tokens@ + ts@)[j])@.token_type
                                is Eof));
                    }
                    tokens.append(&mut ts);
                    k = k + 1;
                },
                Err(e) => {
                    proof {
                        if input@.len() > 0 && spec_all_digits(input@) {
                            assert(lines@[0]@ == input@);
                            assert(false);
                        }
                    }
                    return Err(e);
                },
            }
        }
        proof {
            assert(ls.skip(k as int) =~= Seq::<Seq<char>>::empty());
            assert(spec_lex_lines(ls.skip(k as int), k as nat) == Result::<
                Seq<TokenV>,
                LexicalErrorV,
            >::Ok(Seq::empty()));
            assert(spec_token_views(tokens@) + Seq::<TokenV>::empty() =~= spec_token_views(
                tokens@,
            ));
        }
        let eof_line: u32 = if tokens.len() == 0 {
            0
        } else {
            tokens[tokens.len() - 1].line
        };
        let eof = Token::new(TokenType::Eof, String::new(), eof_line);
        proof {
            let ghost old_views = spec_token_views(tokens@);
            assert(tokens@.len() > 0 ==> old_views.last() == tokens@.last()@);
            assert(eof@ == spec_eof_token(old_views));
            assert(spec_token_views(tokens@.push(eof)) =~= old_views.push(eof@));
        }
        tokens.push(eof);
        Ok(tokens)
    }

    /// Handles scanning on a character by character basis, over one
    /// physical line: multi-character tokens are assembled with a single
    /// character of lookahead.
    #[verifier::rlimit(60)]
    fn lex_chars(&self, cs: &Vec<char>, line_number: u32) -> (r: Result<Vec<Token>, LexicalError>)
        requires
            cs@.len() < 0x8000_0000,
        ensures
            (match r {
                Result::Ok(ts) => spec_lex_line(cs@, line_number) == Result::<
                    Seq<TokenV>,
                    LexicalErrorV,
                >::Ok(spec_token_views(ts@)),
                Result::Err(e) => spec_lex_line(cs@, line_number) == Result::<
                    Seq<TokenV>,
                    LexicalErrorV,
                >::Err(e@),
            }),
            cs@.len() > 0 && spec_all_digits(cs@) ==> r is Ok,
    {
        let mut tokens: Vec<Token> = Vec::new();
        let mut i: usize = 0;
        proof {
            assert(cs@.skip(0) =~= cs@);
            lemma_combine_empty(spec_lex_line(cs@, line_number));
            assert(spec_token_views(Seq::empty()) =~= Seq::<TokenV>::empty());
        }
        while i < cs.len()
            invariant
                i <= cs@.len(),
                cs@.len() < 0x8000_0000,
                spec_combine(
                    spec_token_views(tokens@),
                    spec_lex_line(cs@.skip(i as int), line_number),
                ) == spec_lex_line(cs@, line_number),
            decreases cs@.len() - i,
        {
            let ghost pre = cs@.skip(i as int);
            let ghost done = spec_token_views(tokens@);
            let c = cs[i];
            proof {
                assert(pre[0] == c);
                assert(pre.skip(1) =~= cs@.skip(i as int + 1));
            }
            let single: Option<TokenType> = match c {
                '(' => Some(TokenType::LeftParen),
                ')' => Some(TokenType::RightParen),
                '{' => Some(TokenType::LeftBrace),
                '}' => Some(TokenType::RightBrace),
                ',' => Some(TokenType::Comma),
                '.' => Some(TokenType::Dot),
                '-' => Some(TokenType::Minus),
                '+' => Some(TokenType::Plus),
                ';' => Some(TokenType::Semicolon),
                '*' => Some(TokenType::Star),
                _ => None,
            };
            match single {
                Some(tt) => {
                    proof {
                        assert(spec_single_punct(c) == Option::Some(tt@));
                    }
                    let tok = Token::new(tt, crate::text::char_to_string(c), line_number);
                    proof {
                        assert(spec_lex_line(pre, line_number) == spec_cons(
                            tok@,
                            spec_lex_line(pre.skip(1), line_number),
                        ));
                        lemma_combine_push(done, tok@, spec_lex_line(cs@.skip(i as int + 1), line_number));
                        assert(spec_token_views(tokens@.push(tok)) =~= done.push(tok@));
                    }
                    tokens.push(tok);
                    i = i + 1;
                },
                None => {
                    if c == '/' {
                        if i + 1 < cs.len() && cs[i + 1] == '/' {
                            proof {
                                assert(pre.skip(1).len() > 0 && pre.skip(1)[0] == '/');
                                assert(spec_lex_line(pre, line_number) == Result::<
                                    Seq<TokenV>,
                                    LexicalErrorV,
                                >::Ok(Seq::empty()));
                                assert(done + Seq::<TokenV>::empty() =~= done);
                            }
                            return Ok(tokens);
                        } else {
                            proof {
                                assert(pre.skip(1).len() > 0 ==> pre.skip(1)[0] != '/');
                            }
                            let tok = Token::new(
                                TokenType::Slash,
                                crate::text::char_to_string(c),
                                line_number,
                            );
                            proof {
                                assert(spec_lex_line(pre, line_number) == spec_cons(
                                    tok@,
                                    spec_lex_line(pre.skip(1), line_number),
                                ));
                                lemma_combine_push(
                                    done,
                                    tok@,
                                    spec_lex_line(cs@.skip(i as int + 1), line_number),
                                );
                                assert(spec_token_views(tokens@.push(tok)) =~= done.push(tok@));
                            }
                            tokens.push(tok);
                            i = i + 1;
                        }
                    } else if c == '!' || c == '=' || c == '>' || c == '<' {
                        let followed_by_equal = i + 1 < cs.len() && cs[i + 1] == '=';
                        let (tt, lexeme): (TokenType, String) = if followed_by_equal {
                            if c == '!' {
                                (TokenType::BangEqual, String::from_str("!="))
                            } else if c == '=' {
                                (TokenType::EqualEqual, String::from_str("=="))
                            } else if c == '>' {
                                (TokenType::GreaterEqual, String::from_str(">="))
                            } else {
                                (TokenType::LessEqual, String::from_str("<="))
                            }
                        } else {
                            if c == '!' {
                                (TokenType::Bang, crate::text::char_to_string(c))
                            } else if c == '=' {
                                (TokenType::Equal, crate::text::char_to_string(c))
                            } else if c == '>' {
                                (TokenType::Greater, crate::text::char_to_string(c))
                            } else {
                                (TokenType::Less, crate::text::char_to_string(c))
                            }
                        };
                        let tok = Token::new(tt, lexeme, line_number);
                        if followed_by_equal {
                            proof {
                                assert(pre.skip(1).len() > 0 && pre.skip(1)[0] == '=');
                                assert(pre.skip(2) =~= cs@.skip(i as int + 2));
                                assert(spec_lex_line(pre, line_number) == spec_cons(
                                    tok@,
                                    spec_lex_line(pre.skip(2), line_number),
                                ));
                                lemma_combine_push(
                                    done,
                                    tok@,
                                    spec_lex_line(cs@.skip(i as int + 2), line_number),
                                );
                                assert(spec_token_views(tokens@.push(tok)) =~= done.push(tok@));
                            }
                            tokens.push(tok);
                            i = i + 2;
                        } else {
                            proof {
                                assert(pre.skip(1).len() > 0 ==> pre.skip(1)[0] != '=');
                                assert(spec_lex_line(pre, line_number) == spec_cons(
                                    tok@,
                                    spec_lex_line(pre.skip(1), line_number),
                                ));
                                lemma_combine_push(
                                    done,
                                    tok@,
                                    spec_lex_line(cs@.skip(i as int + 1), line_number),
                                );
                                assert(spec_token_views(tokens@.push(tok)) =~= done.push(tok@));
                            }
                            tokens.push(tok);
                            i = i + 1;
                        }
                    } else if c == ' ' || c == '\r' || c == '\t' {
                        proof {
                            assert(spec_lex_line(pre, line_number) == spec_lex_line(
                                pre.skip(1),
                                line_number,
                            ));
                        }
                        i = i + 1;
                    } else if c == '"' {
                        match find_quote(cs, i + 1) {
                            Some(j) => {
                                let payload = crate::text::string_from_range(cs, i + 1, j);
                                let mut lexeme = crate::text::char_to_string(c);
                                lexeme.append(payload.as_str());
                                string_push(&mut lexeme, cs[j]);
                                let tok = Token::new(
                                    TokenType::String(payload),
                                    lexeme,
                                    line_number,
                                );
                                proof {
                                    let rest = pre.skip(1);
                                    let jrel = j - (i + 1) as int;
                                    assert(spec_quote_index(rest) == Option::Some(jrel as nat));
                                    assert(rest.take(jrel) =~= cs@.subrange(i as int + 1, j as int));
                                    assert(rest[jrel] == cs@[j as int]);
                                    assert(tok@.lexeme == Option::Some(
                                        seq![c] + rest.take(jrel) + seq![rest[jrel]],
                                    ));
                                    assert(rest.skip(jrel + 1) =~= cs@.skip(j as int + 1));
                                    assert(spec_lex_line(pre, line_number) == spec_cons(
                                        tok@,
                                        spec_lex_line(cs@.skip(j as int + 1), line_number),
                                    ));
                                    lemma_combine_push(
                                        done,
                                        tok@,
                                        spec_lex_line(cs@.skip(j as int + 1), line_number),
                                    );
                                    assert(spec_token_views(tokens@.push(tok)) =~= done.push(tok@));
                                }
                                tokens.push(tok);
                                i = j + 1;
                            },
                            None => {
                                let text = crate::text::string_from_range(cs, i + 1, cs.len());
                                proof {
                                    assert(text@ =~= pre.skip(1));
                                    assert(spec_lex_line(pre, line_number) == Result::<
                                        Seq<TokenV>,
                                        LexicalErrorV,
                                    >::Err(
                                        LexicalErrorV::UnterminatedString {
                                            text: pre.skip(1),
                                            line: line_number,
                                        },
                                    ));
                                }
                                return Err(
                                    LexicalError::UnterminatedString { text, line: line_number },
                                );
                            },
                        }
                    } else if is_number_start_exec(c) {
                        let end = scan_number_end(cs, i + 1);
                        let text = crate::text::string_from_range(cs, i, end);
                        proof {
                            let rest = pre.skip(1);
                            let j = spec_number_len(rest);
                            assert(rest.take(j as int) =~= cs@.subrange(i as int + 1, end as int));
                            assert(text@ =~= seq![c] + rest.take(j as int));
                            assert(rest.skip(j as int) =~= cs@.skip(end as int));
                            assert(text@.len() < 0x8000_0000);
                        }
                        match crate::num::num_from_decimal(text.as_str()) {
                            Some(b) => {
                                let tok = Token::new(TokenType::Number(b), text, line_number);
                                proof {
                                    assert(spec_lex_line(pre, line_number) == spec_cons(
                                        tok@,
                                        spec_lex_line(cs@.skip(end as int), line_number),
                                    ));
                                    lemma_combine_push(
                                        done,
                                        tok@,
                                        spec_lex_line(cs@.skip(end as int), line_number),
                                    );
                                    assert(spec_token_views(tokens@.push(tok)) =~= done.push(tok@));
                                }
                                tokens.push(tok);
                                i = end;
                            },
                            None => {
                                proof {
                                    if cs@.len() > 0 && spec_all_digits(cs@) {
                                        assert(forall|k: int|
                                            0 <= k < text@.len() ==> '0' <= #[trigger] text@[k]
                                                && text@[k] <= '9') by {
                                            assert(forall|k: int|
                                                0 <= k < text@.len() ==> text@[k] == cs@[
                                                i as int + k]);
                                        }
                                        assert(text@.len() > 0);
                                        assert(false);
                                    }
                                }
                                return Err(LexicalError::InvalidNumber { text, line: line_number });
                            },
                        }
                    } else if crate::text::is_alphabetic_char(c) {
                        let end = scan_ident_end(cs, i + 1);
                        let text = crate::text::string_from_range(cs, i, end);
                        let tt = keyword_token_type(&text);
                        let tok = Token::new(tt, text, line_number);
                        proof {
                            let rest = pre.skip(1);
                            let j = spec_ident_len(rest);
                            assert(rest.take(j as int) =~= cs@.subrange(i as int + 1, end as int));
                            assert(tok@.lexeme == Option::Some(seq![c] + rest.take(j as int)));
                            assert(rest.skip(j as int) =~= cs@.skip(end as int));
                            assert(spec_lex_line(pre, line_number) == spec_cons(
                                tok@,
                                spec_lex_line(cs@.skip(end as int), line_number),
                            ));
                            lemma_combine_push(
                                done,
                                tok@,
                                spec_lex_line(cs@.skip(end as int), line_number),
                            );
                            assert(spec_token_views(tokens@.push(tok)) =~= done.push(tok@));
                        }
                        tokens.push(tok);
                        i = end;
                    } else {
                        proof {
                            assert(spec_lex_line(pre, line_number) == Result::<
                                Seq<TokenV>,
                                LexicalErrorV,
                            >::Err(LexicalErrorV::UnexpectedCharacter { ch: c, line: line_number }));
                        }
                        return Err(LexicalError::UnexpectedCharacter { ch: c, line: line_number });
                    }
                },
            }
        }
        proof {
            assert(cs@.skip(i as int) =~= Seq::<char>::empty());
            assert(spec_lex_line(cs@.skip(i as int), line_number) == Result::<
                Seq<TokenV>,
                LexicalErrorV,
            >::Ok(Seq::empty()));
            assert(spec_token_views(tokens@) + Seq::<TokenV>::empty() =~= spec_token_views(
                tokens@,
            ));
        }
        Ok(tokens)
    }
}

} // verus!
