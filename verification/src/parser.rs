//! A parser for the language: it builds an abstract syntax tree from a
//! token sequence by recursive descent with single-token lookahead,
//! treating the sequence as a queue consumed from the front.
use crate::ast::{
    spec_operator_of, spec_token_type_name, token_type_name, ExprNode, ExprNodeV, Literal,
    Operator, StmtNode, StmtNodeV,
};
use crate::lexer::{spec_token_views, Token, TokenType, TokenTypeV, TokenV};
use vstd::prelude::*;
use vstd::string::*;

verus! {

/// The outcome of a parsing step: a parsed value and the unconsumed
/// remainder; a failure message with the remainder standing at the point
/// of failure; or an abort — indexing an empty token queue where the
/// grammar guarantees a token, a parser-internal inconsistency rather
/// than a recoverable path. A queue that ends with the end-of-file marker
/// never aborts.
pub enum SpecParse<T> {
    Done { value: T, rest: Seq<TokenV> },
    Failed { message: Seq<char>, rest: Seq<TokenV> },
    Aborted,
}

/// Whether a token kind is an equality operator.
pub open spec fn spec_is_equality_op(k: TokenTypeV) -> bool {
    k is BangEqual || k is EqualEqual
}

/// Whether a token kind is a comparison operator.
pub open spec fn spec_is_comparison_op(k: TokenTypeV) -> bool {
    k is Less || k is Greater || k is LessEqual || k is GreaterEqual
}

/// Whether a token kind is a term operator.
pub open spec fn spec_is_term_op(k: TokenTypeV) -> bool {
    k is Plus || k is Minus
}

/// Whether a token kind is a factor operator.
pub open spec fn spec_is_factor_op(k: TokenTypeV) -> bool {
    k is Star || k is Slash
}

/// Whether a token kind is a unary operator.
pub open spec fn spec_is_unary_op(k: TokenTypeV) -> bool {
    k is Bang || k is Minus
}

/// The diagnostic for a token that no expression can begin or continue
/// with.
pub open spec fn spec_unsupported_message(t: TokenV) -> Seq<char> {
    "unsupported token "@ + spec_token_type_name(t.token_type) + " in expression"@
}

/// The fuel every level of the grammar starts from on a given remainder:
/// parsing consumes a token before any level recurses at equal or higher
/// rank, so one unit over the remainder's length always suffices.
pub open spec fn spec_fuel_for(ts: Seq<TokenV>) -> nat {
    ts.len() + 1
}

/// The lesser of two amounts of fuel.
pub open spec fn spec_fuel_min(a: nat, b: nat) -> nat {
    if a <= b {
        a
    } else {
        b
    }
}

/// What parsing a primary produces: a literal token becomes a literal
/// node, and a parenthesis opens a grouping that must be closed; a
/// missing closer fails the parse with a diagnostic that asks for it.
pub open spec fn spec_primary(ts: Seq<TokenV>, fuel: nat) -> SpecParse<ExprNodeV>
    decreases fuel, 0int,
{
    if ts.len() == 0 {
        SpecParse::Aborted
    } else {
        match ts[0].token_type {
            TokenTypeV::Number(n) => SpecParse::Done {
                value: ExprNodeV::Literal(crate::ast::LiteralV::Number(n)),
                rest: ts.skip(1),
            },
            TokenTypeV::String(s) => SpecParse::Done {
                value: ExprNodeV::Literal(crate::ast::LiteralV::String(s)),
                rest: ts.skip(1),
            },
            TokenTypeV::False => SpecParse::Done {
                value: ExprNodeV::Literal(crate::ast::LiteralV::Boolean(false)),
                rest: ts.skip(1),
            },
            TokenTypeV::True => SpecParse::Done {
                value: ExprNodeV::Literal(crate::ast::LiteralV::Boolean(true)),
                rest: ts.skip(1),
            },
            TokenTypeV::Nil => SpecParse::Done {
                value: ExprNodeV::Literal(crate::ast::LiteralV::Nil),
                rest: ts.skip(1),
            },
            TokenTypeV::LeftParen => {
                if fuel == 0 {
                    SpecParse::Aborted
                } else {
                    let sub = ts.skip(1);
                    match spec_expression(sub, spec_fuel_min((fuel - 1) as nat, spec_fuel_for(sub))) {
                        SpecParse::Done { value, rest } => {
                            if rest.len() == 0 {
                                SpecParse::Aborted
                            } else if rest[0].token_type is RightParen {
                                SpecParse::Done {
                                    value: ExprNodeV::Grouping(Box::new(value)),
                                    rest: rest.skip(1),
                                }
                            } else {
                                SpecParse::Failed {
                                    message: "Expected ')' after expression"@,
                                    rest,
                                }
                            }
                        },
                        other => other,
                    }
                }
            },
            _ => SpecParse::Failed { message: spec_unsupported_message(ts[0]), rest: ts },
        }
    }
}

/// What parsing a unary produces: a bang or minus applied to another
/// unary, right-associatively, or a primary.
pub open spec fn spec_unary(ts: Seq<TokenV>, fuel: nat) -> SpecParse<ExprNodeV>
    decreases fuel, 1int,
{
    if ts.len() > 0 && spec_is_unary_op(ts[0].token_type) {
        if fuel == 0 {
            SpecParse::Aborted
        } else {
            match spec_operator_of(ts[0]) {
                Option::Some(op) => {
                    let sub = ts.skip(1);
                    match spec_unary(sub, spec_fuel_min((fuel - 1) as nat, spec_fuel_for(sub))) {
                        SpecParse::Done { value, rest } => SpecParse::Done {
                            value: ExprNodeV::UnaryExpr { operator: op, right: Box::new(value) },
                            rest,
                        },
                        other => other,
                    }
                },
                Option::None => SpecParse::Aborted,
            }
        }
    } else {
        spec_primary(ts, fuel)
    }
}

/// What the operator loop of a binary level produces: while the next
/// token is one of the level's operators, it is consumed, the next-lower
/// level parses the right operand, and the expression folds leftward.
pub open spec fn spec_binary_rest(
    left: ExprNodeV,
    ts: Seq<TokenV>,
    fuel: nat,
    level: int,
) -> SpecParse<ExprNodeV>
    decreases fuel, 2 * level + 1,
{
    if 1 <= level <= 4 && ts.len() > 0 && spec_level_op(level, ts[0].token_type) {
        if fuel == 0 {
            SpecParse::Aborted
        } else {
            match spec_operator_of(ts[0]) {
                Option::Some(op) => {
                    let sub = ts.skip(1);
                    match spec_binary_level(
                        level - 1,
                        sub,
                        spec_fuel_min((fuel - 1) as nat, spec_fuel_for(sub)),
                    ) {
                        SpecParse::Done { value, rest } => spec_binary_rest(
                            ExprNodeV::BinaryExpr {
                                left: Box::new(left),
                                operator: op,
                                right: Box::new(value),
                            },
                            rest,
                            spec_fuel_min((fuel - 1) as nat, spec_fuel_for(rest)),
                            level,
                        ),
                        other => other,
                    }
                },
                Option::None => SpecParse::Aborted,
            }
        }
    } else {
        SpecParse::Done { value: left, rest: ts }
    }
}

/// The operator set of a binary level: 1 folds factors, 2 terms, 3
/// comparisons, 4 equalities.
pub open spec fn spec_level_op(level: int, k: TokenTypeV) -> bool {
    if level == 1 {
        spec_is_factor_op(k)
    } else if level == 2 {
        spec_is_term_op(k)
    } else if level == 3 {
        spec_is_comparison_op(k)
    } else if level == 4 {
        spec_is_equality_op(k)
    } else {
        false
    }
}

/// What a binary level of the grammar produces: level 0 is a unary, and
/// each level above parses the next-lower level and folds its operators
/// left-associatively.
pub open spec fn spec_binary_level(level: int, ts: Seq<TokenV>, fuel: nat) -> SpecParse<ExprNodeV>
    decreases fuel, (if level <= 0 { 2int } else { 2 * level + 2 }),
{
    if level <= 0 {
        spec_unary(ts, fuel)
    } else if level > 4 {
        SpecParse::Aborted
    } else {
        match spec_binary_level(level - 1, ts, fuel) {
            SpecParse::Done { value, rest } => spec_binary_rest(
                value,
                rest,
                spec_fuel_min(fuel, spec_fuel_for(rest)),
                level,
            ),
            other => other,
        }
    }
}

/// What parsing an expression produces: the equality level of the
/// grammar, the lowest precedence.
pub open spec fn spec_expression(ts: Seq<TokenV>, fuel: nat) -> SpecParse<ExprNodeV>
    decreases fuel, 11int,
{
    spec_binary_level(4, ts, fuel)
}

/// What parsing one statement produces: a print statement or an
/// expression statement, each requiring a closing semicolon; a parse
/// failure is captured as an error statement, with the queue standing
/// where the failure left it.
pub open spec fn spec_statement(ts: Seq<TokenV>, fuel: nat) -> SpecParse<StmtNodeV>
    decreases fuel, 12int,
{
    if ts.len() == 0 {
        SpecParse::Aborted
    } else if ts[0].token_type is Print {
        if fuel == 0 {
            SpecParse::Aborted
        } else {
            let sub = ts.skip(1);
            match spec_expression(sub, spec_fuel_min((fuel - 1) as nat, spec_fuel_for(sub))) {
                SpecParse::Done { value, rest } => {
                    if rest.len() == 0 {
                        SpecParse::Aborted
                    } else if rest[0].token_type is Semicolon {
                        SpecParse::Done { value: StmtNodeV::PrintStmt(value), rest: rest.skip(1) }
                    } else {
                        SpecParse::Done {
                            value: StmtNodeV::ErrStmt("Expected ';' after a statement"@),
                            rest,
                        }
                    }
                },
                SpecParse::Failed { message, rest } => SpecParse::Done {
                    value: StmtNodeV::ErrStmt(message),
                    rest,
                },
                SpecParse::Aborted => SpecParse::Aborted,
            }
        }
    } else {
        match spec_expression(ts, fuel) {
            SpecParse::Done { value, rest } => {
                if rest.len() == 0 {
                    SpecParse::Aborted
                } else if rest[0].token_type is Semicolon {
                    SpecParse::Done { value: StmtNodeV::ExprStmt(value), rest: rest.skip(1) }
                } else {
                    SpecParse::Done {
                        value: StmtNodeV::ErrStmt("Expected ';' after an expression"@),
                        rest,
                    }
                }
            },
            SpecParse::Failed { message, rest } => SpecParse::Done {
                value: StmtNodeV::ErrStmt(message),
                rest,
            },
            SpecParse::Aborted => SpecParse::Aborted,
        }
    }
}

/// What parsing a whole token sequence produces: statements parsed from
/// the front until the queue is empty or the end-of-file marker is
/// reached. A statement that consumed nothing left its offending token at
/// the front; that token is then dropped, so that the queue always
/// shrinks.
pub open spec fn spec_parse(ts: Seq<TokenV>, fuel: nat) -> SpecParse<Seq<StmtNodeV>>
    decreases fuel, 13int,
{
    if fuel == 0 {
        SpecParse::Aborted
    } else if ts.len() == 0 || ts[0].token_type is Eof {
        SpecParse::Done { value: Seq::empty(), rest: ts }
    } else {
        match spec_statement(ts, fuel) {
            SpecParse::Done { value, rest } => {
                let next = if rest.len() < ts.len() {
                    rest
                } else {
                    ts.skip(1)
                };
                match spec_parse(next, spec_fuel_min((fuel - 1) as nat, spec_fuel_for(next))) {
                    SpecParse::Done { value: stmts, rest: rend } => SpecParse::Done {
                        value: seq![value] + stmts,
                        rest: rend,
                    },
                    other => other,
                }
            },
            SpecParse::Failed { message, rest } => SpecParse::Aborted,
            SpecParse::Aborted => SpecParse::Aborted,
        }
    }
}

/// What parsing an expression from a token sequence produces.
pub open spec fn spec_parse_expression(ts: Seq<TokenV>) -> SpecParse<ExprNodeV> {
    spec_expression(ts, spec_fuel_for(ts))
}

/// What parsing one statement from a token sequence produces.
pub open spec fn spec_parse_statement(ts: Seq<TokenV>) -> SpecParse<StmtNodeV> {
    spec_statement(ts, spec_fuel_for(ts))
}

/// What parsing a whole token sequence produces.
pub open spec fn spec_parse_program(ts: Seq<TokenV>) -> SpecParse<Seq<StmtNodeV>> {
    spec_parse(ts, spec_fuel_for(ts))
}

/// The values of a sequence of statement nodes.
pub open spec fn spec_stmt_views(ss: Seq<StmtNode>) -> Seq<StmtNodeV> {
    ss.map_values(|s: StmtNode| s@)
}

/// A token queue that still holds its end-of-file marker at the back: the
/// shape of every queue the lexer hands out, and the shape parsing keeps,
/// since no rule of the grammar ever consumes the marker.
pub open spec fn spec_eof_guarded(ts: Seq<TokenV>) -> bool {
    ts.len() > 0 && ts.last().token_type is Eof
}

proof fn lemma_guarded_skip(ts: Seq<TokenV>, k: int)
    requires
        spec_eof_guarded(ts),
        0 <= k < ts.len(),
    ensures
        spec_eof_guarded(ts.skip(k)),
        ts.skip(k).len() == ts.len() - k,
{
    assert(ts.skip(k).last() == ts.last());
}

proof fn lemma_primary_guarded(ts: Seq<TokenV>)
    requires
        spec_eof_guarded(ts),
    ensures
        (match spec_primary(ts, spec_fuel_for(ts)) {
            SpecParse::Done { value, rest } => spec_eof_guarded(rest) && rest.len() < ts.len(),
            SpecParse::Failed { message, rest } => spec_eof_guarded(rest) && rest.len()
                <= ts.len(),
            SpecParse::Aborted => false,
        }),
    decreases ts.len(), 0int,
{
    let fuel = spec_fuel_for(ts);
    assert(ts.last() == ts[ts.len() - 1]);
    if !(ts[0].token_type is Eof) {
        assert(ts.len() >= 2) by {
            if ts.len() == 1 {
                assert(ts[0] == ts.last());
            }
        }
    }
    match ts[0].token_type {
        TokenTypeV::LeftParen => {
            lemma_guarded_skip(ts, 1);
            let sub = ts.skip(1);
            assert(spec_fuel_min((fuel - 1) as nat, spec_fuel_for(sub)) == spec_fuel_for(sub));
            lemma_expression_guarded(sub);
            match spec_expression(sub, spec_fuel_for(sub)) {
                SpecParse::Done { value, rest } => {
                    if rest[0].token_type is RightParen {
                        lemma_guarded_skip(rest, 1);
                    }
                },
                _ => {},
            }
        },
        _ => {
            if 0 < ts.len() && !(ts[0].token_type is Eof) {
                if ts.len() >= 2 {
                    lemma_guarded_skip(ts, 1);
                }
            }
        },
    }
}

proof fn lemma_unary_guarded(ts: Seq<TokenV>)
    requires
        spec_eof_guarded(ts),
    ensures
        (match spec_unary(ts, spec_fuel_for(ts)) {
            SpecParse::Done { value, rest } => spec_eof_guarded(rest) && rest.len() < ts.len(),
            SpecParse::Failed { message, rest } => spec_eof_guarded(rest) && rest.len()
                <= ts.len(),
            SpecParse::Aborted => false,
        }),
    decreases ts.len(), 1int,
{
    let fuel = spec_fuel_for(ts);
    assert(ts.last() == ts[ts.len() - 1]);
    if spec_is_unary_op(ts[0].token_type) {
        assert(ts.len() >= 2) by {
            if ts.len() == 1 {
                assert(ts[0] == ts.last());
            }
        }
        lemma_guarded_skip(ts, 1);
        let sub = ts.skip(1);
        assert(spec_fuel_min((fuel - 1) as nat, spec_fuel_for(sub)) == spec_fuel_for(sub));
        lemma_unary_guarded(sub);
    } else {
        lemma_primary_guarded(ts);
    }
}

proof fn lemma_binary_rest_guarded(left: ExprNodeV, ts: Seq<TokenV>, level: int)
    requires
        spec_eof_guarded(ts),
        1 <= level <= 4,
    ensures
        (match spec_binary_rest(left, ts, spec_fuel_for(ts), level) {
            SpecParse::Done { value, rest } => spec_eof_guarded(rest) && rest.len() <= ts.len(),
            SpecParse::Failed { message, rest } => spec_eof_guarded(rest) && rest.len()
                <= ts.len(),
            SpecParse::Aborted => false,
        }),
    decreases ts.len(), 2 * level + 1,
{
    let fuel = spec_fuel_for(ts);
    assert(ts.last() == ts[ts.len() - 1]);
    if spec_level_op(level, ts[0].token_type) {
        assert(ts.len() >= 2) by {
            if ts.len() == 1 {
                assert(ts[0] == ts.last());
            }
        }
        lemma_guarded_skip(ts, 1);
        let sub = ts.skip(1);
        assert(spec_fuel_min((fuel - 1) as nat, spec_fuel_for(sub)) == spec_fuel_for(sub));
        lemma_binary_level_guarded(level - 1, sub);
        match spec_binary_level(level - 1, sub, spec_fuel_for(sub)) {
            SpecParse::Done { value, rest } => {
                assert(spec_fuel_min((fuel - 1) as nat, spec_fuel_for(rest)) == spec_fuel_for(
                    rest,
                ));
                lemma_binary_rest_guarded(
                    ExprNodeV::BinaryExpr {
                        left: Box::new(left),
                        operator: spec_operator_of(ts[0])->Some_0,
                        right: Box::new(value),
                    },
                    rest,
                    level,
                );
            },
            _ => {},
        }
    }
}

proof fn lemma_binary_level_guarded(level: int, ts: Seq<TokenV>)
    requires
        spec_eof_guarded(ts),
        0 <= level <= 4,
    ensures
        (match spec_binary_level(level, ts, spec_fuel_for(ts)) {
            SpecParse::Done { value, rest } => spec_eof_guarded(rest) && rest.len() < ts.len(),
            SpecParse::Failed { message, rest } => spec_eof_guarded(rest) && rest.len()
                <= ts.len(),
            SpecParse::Aborted => false,
        }),
    decreases ts.len(), (if level <= 0 { 2int } else { 2 * level + 2 }),
{
    let fuel = spec_fuel_for(ts);
    if level <= 0 {
        lemma_unary_guarded(ts);
    } else {
        lemma_binary_level_guarded(level - 1, ts);
        match spec_binary_level(level - 1, ts, fuel) {
            SpecParse::Done { value, rest } => {
                assert(spec_fuel_min(fuel, spec_fuel_for(rest)) == spec_fuel_for(rest));
                lemma_binary_rest_guarded(value, rest, level);
            },
            _ => {},
        }
    }
}

proof fn lemma_expression_guarded(ts: Seq<TokenV>)
    requires
        spec_eof_guarded(ts),
    ensures
        (match spec_expression(ts, spec_fuel_for(ts)) {
            SpecParse::Done { value, rest } => spec_eof_guarded(rest) && rest.len() < ts.len(),
            SpecParse::Failed { message, rest } => spec_eof_guarded(rest) && rest.len()
                <= ts.len(),
            SpecParse::Aborted => false,
        }),
    decreases ts.len(), 11int,
{
    lemma_binary_level_guarded(4, ts);
}

proof fn lemma_statement_guarded(ts: Seq<TokenV>)
    requires
        spec_eof_guarded(ts),
    ensures
        (match spec_statement(ts, spec_fuel_for(ts)) {
            SpecParse::Done { value, rest } => spec_eof_guarded(rest) && rest.len() <= ts.len(),
            SpecParse::Failed { message, rest } => false,
            SpecParse::Aborted => false,
        }),
    decreases ts.len(), 12int,
{
    let fuel = spec_fuel_for(ts);
    assert(ts.last() == ts[ts.len() - 1]);
    if ts[0].token_type is Print {
        assert(ts.len() >= 2) by {
            if ts.len() == 1 {
                assert(ts[0] == ts.last());
            }
        }
        lemma_guarded_skip(ts, 1);
        let sub = ts.skip(1);
        assert(spec_fuel_min((fuel - 1) as nat, spec_fuel_for(sub)) == spec_fuel_for(sub));
        lemma_expression_guarded(sub);
        match spec_expression(sub, spec_fuel_for(sub)) {
            SpecParse::Done { value, rest } => {
                if rest[0].token_type is Semicolon {
                    lemma_guarded_skip(rest, 1);
                }
            },
            _ => {},
        }
    } else {
        lemma_expression_guarded(ts);
        match spec_expression(ts, fuel) {
            SpecParse::Done { value, rest } => {
                if rest[0].token_type is Semicolon {
                    lemma_guarded_skip(rest, 1);
                }
            },
            _ => {},
        }
    }
}

proof fn lemma_parse_guarded(ts: Seq<TokenV>)
    requires
        spec_eof_guarded(ts),
    ensures
        spec_parse(ts, spec_fuel_for(ts)) matches SpecParse::Done { value: _, rest: _ },
    decreases ts.len(), 13int,
{
    let fuel = spec_fuel_for(ts);
    assert(ts.last() == ts[ts.len() - 1]);
    if !(ts[0].token_type is Eof) {
        assert(ts.len() >= 2) by {
            if ts.len() == 1 {
                assert(ts[0] == ts.last());
            }
        }
        lemma_statement_guarded(ts);
        match spec_statement(ts, fuel) {
            SpecParse::Done { value, rest } => {
                let next = if rest.len() < ts.len() {
                    rest
                } else {
                    ts.skip(1)
                };
                if rest.len() >= ts.len() {
                    lemma_guarded_skip(ts, 1);
                }
                assert(spec_eof_guarded(next) && next.len() < ts.len());
                assert(spec_fuel_min((fuel - 1) as nat, spec_fuel_for(next)) == spec_fuel_for(
                    next,
                ));
                lemma_parse_guarded(next);
            },
            _ => {},
        }
    }
}

/// Parsing never fails as a whole: on any token queue that ends with the
/// end-of-file marker — every queue the lexer hands out — parsing a whole
/// program, one statement, or one expression never reaches the abortive
/// empty-queue indexing.
pub proof fn lemma_parse_total(ts: Seq<TokenV>)
    requires
        ts.len() > 0,
        ts.last().token_type is Eof,
    ensures
        !(spec_parse_program(ts) is Aborted),
        !(spec_parse_statement(ts) is Aborted),
        !(spec_parse_expression(ts) is Aborted),
{
    lemma_parse_guarded(ts);
    lemma_statement_guarded(ts);
    lemma_expression_guarded(ts);
}

/// The two stages compose: whatever token sequence the lexer accepts an
/// input to, parsing it never aborts — the sequence ends with the
/// end-of-file marker the lexer always appends.
pub proof fn lemma_lex_output_parses(s: Seq<char>)
    ensures
        (match crate::lexer::spec_lex(s) {
            Result::Ok(ts) => !(spec_parse_program(ts) is Aborted),
            Result::Err(_) => true,
        }),
{
    match crate::lexer::spec_lex(s) {
        Result::Ok(ts) => {
            lemma_parse_total(ts);
        },
        Result::Err(_) => {},
    }
}

fn level_op_exec(level: usize, t: &TokenType) -> (r: bool)
    ensures
        r == spec_level_op(level as int, t@),
{
    if level == 1 {
        matches!(t, TokenType::Star | TokenType::Slash)
    } else if level == 2 {
        matches!(t, TokenType::Plus | TokenType::Minus)
    } else if level == 3 {
        matches!(
            t,
            TokenType::Less | TokenType::Greater | TokenType::LessEqual | TokenType::GreaterEqual
        )
    } else if level == 4 {
        matches!(t, TokenType::BangEqual | TokenType::EqualEqual)
    } else {
        false
    }
}

fn unsupported_message(t: &TokenType) -> (r: String)
    ensures
        r@ == "unsupported token "@ + spec_token_type_name(t@) + " in expression"@,
{
    let mut m = String::from_str("unsupported token ");
    let name = token_type_name(t);
    m.append(name.as_str());
    m.append(" in expression");
    m
}

fn parse_primary(v: &Vec<Token>, pos: usize) -> (r: (Result<ExprNode, String>, usize))
    requires
        pos <= v@.len(),
        !(spec_primary(
            spec_token_views(v@).skip(pos as int),
            spec_fuel_for(spec_token_views(v@).skip(pos as int)),
        ) is Aborted),
    ensures
        pos <= r.1 <= v@.len(),
        ({
            let suf = spec_token_views(v@).skip(pos as int);
            match r.0 {
                Result::Ok(e) => pos < r.1 && spec_primary(suf, spec_fuel_for(suf))
                    == (SpecParse::Done { value: e@, rest: spec_token_views(v@).skip(r.1 as int) }),
                Result::Err(m) => spec_primary(suf, spec_fuel_for(suf)) == (SpecParse::<ExprNodeV>::Failed {
                    message: m@,
                    rest: spec_token_views(v@).skip(r.1 as int),
                }),
            }
        }),
    decreases v@.len() - pos, 0int,
{
    let ghost tsv = spec_token_views(v@);
    let ghost suf = tsv.skip(pos as int);
    let ghost fuel = spec_fuel_for(suf);
    proof {
        assert(suf.len() == v@.len() - pos);
        if pos < v@.len() {
            assert(suf[0] == v@[pos as int]@);
            assert(suf.skip(1) =~= tsv.skip(pos as int + 1));
        }
    }
    if pos >= v.len() {
        // An empty queue aborts the model; the precondition excludes it.
        proof {
            assert(false);
        }
        return (Err(String::new()), pos);
    }
    match &v[pos].token_type {
        TokenType::Number(n) => (Ok(ExprNode::Literal(Literal::Number(*n))), pos + 1),
        TokenType::String(s) => (Ok(ExprNode::Literal(Literal::String(s.clone()))), pos + 1),
        TokenType::False => (Ok(ExprNode::Literal(Literal::Boolean(false))), pos + 1),
        TokenType::True => (Ok(ExprNode::Literal(Literal::Boolean(true))), pos + 1),
        TokenType::Nil => (Ok(ExprNode::Literal(Literal::Nil)), pos + 1),
        TokenType::LeftParen => {
            proof {
                assert(fuel - 1 == suf.skip(1).len() + 1);
                assert(spec_fuel_min((fuel - 1) as nat, spec_fuel_for(suf.skip(1)))
                    == spec_fuel_for(tsv.skip(pos as int + 1)));
            }
            match parse_expression_at(v, pos + 1) {
                (Ok(e), p2) => {
                    proof {
                        assert(tsv.skip(p2 as int).len() > 0 ==> tsv.skip(p2 as int)[0] == v@[
                        p2 as int]@);
                        assert(tsv.skip(p2 as int).skip(1) =~= tsv.skip(p2 as int + 1));
                    }
                    if p2 < v.len() && matches!(&v[p2].token_type, TokenType::RightParen) {
                        (Ok(ExprNode::Grouping(Box::new(e))), p2 + 1)
                    } else {
                        proof {
                            assert(p2 < v@.len());
                        }
                        (Err(String::from_str("Expected ')' after expression")), p2)
                    }
                },
                (Err(m), p2) => (Err(m), p2),
            }
        },
        _ => (Err(unsupported_message(&v[pos].token_type)), pos),
    }
}

fn parse_unary(v: &Vec<Token>, pos: usize) -> (r: (Result<ExprNode, String>, usize))
    requires
        pos <= v@.len(),
        !(spec_unary(
            spec_token_views(v@).skip(pos as int),
            spec_fuel_for(spec_token_views(v@).skip(pos as int)),
        ) is Aborted),
    ensures
        pos <= r.1 <= v@.len(),
        ({
            let suf = spec_token_views(v@).skip(pos as int);
            match r.0 {
                Result::Ok(e) => pos < r.1 && spec_unary(suf, spec_fuel_for(suf))
                    == (SpecParse::Done { value: e@, rest: spec_token_views(v@).skip(r.1 as int) }),
                Result::Err(m) => spec_unary(suf, spec_fuel_for(suf)) == (SpecParse::<ExprNodeV>::Failed {
                    message: m@,
                    rest: spec_token_views(v@).skip(r.1 as int),
                }),
            }
        }),
    decreases v@.len() - pos, 1int,
{
    let ghost tsv = spec_token_views(v@);
    let ghost suf = tsv.skip(pos as int);
    let ghost fuel = spec_fuel_for(suf);
    proof {
        assert(suf.len() == v@.len() - pos);
        if pos < v@.len() {
            assert(suf[0] == v@[pos as int]@);
            assert(suf.skip(1) =~= tsv.skip(pos as int + 1));
        }
    }
    if pos < v.len() && matches!(&v[pos].token_type, TokenType::Bang | TokenType::Minus) {
        let op = match Operator::try_from(&v[pos]) {
            Ok(op) => op,
            Err(m) => {
                // The matched token kind always converts to an operator.
                proof {
                    assert(false);
                }
                return (Err(m), pos);
            },
        };
        proof {
            assert(spec_fuel_min((fuel - 1) as nat, spec_fuel_for(suf.skip(1)))
                == spec_fuel_for(tsv.skip(pos as int + 1)));
        }
        match parse_unary(v, pos + 1) {
            (Ok(right), p2) => (
                Ok(ExprNode::UnaryExpr { operator: op, right: Box::new(right) }),
                p2,
            ),
            (Err(m), p2) => (Err(m), p2),
        }
    } else {
        parse_primary(v, pos)
    }
}

fn parse_binary_rest(v: &Vec<Token>, pos: usize, left: ExprNode, level: usize) -> (r: (
    Result<ExprNode, String>,
    usize,
))
    requires
        1 <= level <= 4,
        pos <= v@.len(),
        !(spec_binary_rest(
            left@,
            spec_token_views(v@).skip(pos as int),
            spec_fuel_for(spec_token_views(v@).skip(pos as int)),
            level as int,
        ) is Aborted),
    ensures
        pos <= r.1 <= v@.len(),
        ({
            let suf = spec_token_views(v@).skip(pos as int);
            match r.0 {
                Result::Ok(e) => spec_binary_rest(left@, suf, spec_fuel_for(suf), level as int)
                    == (SpecParse::Done { value: e@, rest: spec_token_views(v@).skip(r.1 as int) }),
                Result::Err(m) => spec_binary_rest(left@, suf, spec_fuel_for(suf), level as int)
                    == (SpecParse::<ExprNodeV>::Failed {
                    message: m@,
                    rest: spec_token_views(v@).skip(r.1 as int),
                }),
            }
        }),
    decreases v@.len() - pos, 2 * level + 1,
{
    let ghost tsv = spec_token_views(v@);
    let ghost suf = tsv.skip(pos as int);
    let ghost fuel = spec_fuel_for(suf);
    proof {
        assert(suf.len() == v@.len() - pos);
        if pos < v@.len() {
            assert(suf[0] == v@[pos as int]@);
            assert(suf.skip(1) =~= tsv.skip(pos as int + 1));
        }
    }
    if pos < v.len() && level_op_exec(level, &v[pos].token_type) {
        let op = match Operator::try_from(&v[pos]) {
            Ok(op) => op,
            Err(m) => {
                // The matched token kind always converts to an operator.
                proof {
                    assert(false);
                }
                return (Err(m), pos);
            },
        };
        proof {
            assert(spec_fuel_min((fuel - 1) as nat, spec_fuel_for(suf.skip(1)))
                == spec_fuel_for(tsv.skip(pos as int + 1)));
        }
        match parse_binary_level(v, pos + 1, level - 1) {
            (Ok(right), p2) => {
                let folded = ExprNode::BinaryExpr {
                    left: Box::new(left),
                    operator: op,
                    right: Box::new(right),
                };
                proof {
                    assert(spec_fuel_min((fuel - 1) as nat, spec_fuel_for(tsv.skip(p2 as int)))
                        == spec_fuel_for(tsv.skip(p2 as int)));
                }
                parse_binary_rest(v, p2, folded, level)
            },
            (Err(m), p2) => (Err(m), p2),
        }
    } else {
        (Ok(left), pos)
    }
}

fn parse_binary_level(v: &Vec<Token>, pos: usize, level: usize) -> (r: (
    Result<ExprNode, String>,
    usize,
))
    requires
        level <= 4,
        pos <= v@.len(),
        !(spec_binary_level(
            level as int,
            spec_token_views(v@).skip(pos as int),
            spec_fuel_for(spec_token_views(v@).skip(pos as int)),
        ) is Aborted),
    ensures
        pos <= r.1 <= v@.len(),
        ({
            let suf = spec_token_views(v@).skip(pos as int);
            match r.0 {
                Result::Ok(e) => pos < r.1 && spec_binary_level(
                    level as int,
                    suf,
                    spec_fuel_for(suf),
                ) == (SpecParse::Done { value: e@, rest: spec_token_views(v@).skip(r.1 as int) }),
                Result::Err(m) => spec_binary_level(level as int, suf, spec_fuel_for(suf))
                    == (SpecParse::<ExprNodeV>::Failed {
                    message: m@,
                    rest: spec_token_views(v@).skip(r.1 as int),
                }),
            }
        }),
    decreases v@.len() - pos, (if level == 0 { 2int } else { 2 * level + 2 }),
{
    let ghost tsv = spec_token_views(v@);
    let ghost suf = tsv.skip(pos as int);
    let ghost fuel = spec_fuel_for(suf);
    if level == 0 {
        parse_unary(v, pos)
    } else {
        match parse_binary_level(v, pos, level - 1) {
            (Ok(first), p1) => {
                proof {
                    assert(spec_fuel_min(fuel, spec_fuel_for(tsv.skip(p1 as int)))
                        == spec_fuel_for(tsv.skip(p1 as int)));
                }
                parse_binary_rest(v, p1, first, level)
            },
            (Err(m), p1) => (Err(m), p1),
        }
    }
}

fn parse_expression_at(v: &Vec<Token>, pos: usize) -> (r: (Result<ExprNode, String>, usize))
    requires
        pos <= v@.len(),
        !(spec_expression(
            spec_token_views(v@).skip(pos as int),
            spec_fuel_for(spec_token_views(v@).skip(pos as int)),
        ) is Aborted),
    ensures
        pos <= r.1 <= v@.len(),
        ({
            let suf = spec_token_views(v@).skip(pos as int);
            match r.0 {
                Result::Ok(e) => pos < r.1 && spec_expression(suf, spec_fuel_for(suf))
                    == (SpecParse::Done { value: e@, rest: spec_token_views(v@).skip(r.1 as int) }),
                Result::Err(m) => spec_expression(suf, spec_fuel_for(suf)) == (SpecParse::<ExprNodeV>::Failed {
                    message: m@,
                    rest: spec_token_views(v@).skip(r.1 as int),
                }),
            }
        }),
    decreases v@.len() - pos, 11int,
{
    parse_binary_level(v, pos, 4)
}

fn parse_statement_at(v: &Vec<Token>, pos: usize) -> (r: (StmtNode, usize))
    requires
        pos <= v@.len(),
        !(spec_statement(
            spec_token_views(v@).skip(pos as int),
            spec_fuel_for(spec_token_views(v@).skip(pos as int)),
        ) is Aborted),
    ensures
        pos <= r.1 <= v@.len(),
        ({
            let suf = spec_token_views(v@).skip(pos as int);
            spec_statement(suf, spec_fuel_for(suf)) == (SpecParse::Done {
                value: r.0@,
                rest: spec_token_views(v@).skip(r.1 as int),
            })
        }),
{
    let ghost tsv = spec_token_views(v@);
    let ghost suf = tsv.skip(pos as int);
    let ghost fuel = spec_fuel_for(suf);
    proof {
        assert(suf.len() == v@.len() - pos);
        if pos < v@.len() {
            assert(suf[0] == v@[pos as int]@);
            assert(suf.skip(1) =~= tsv.skip(pos as int + 1));
        }
    }
    if pos >= v.len() {
        // An empty queue aborts the model; the precondition excludes it.
        proof {
            assert(false);
        }
        return (StmtNode::ErrStmt(String::new()), pos);
    }
    if matches!(&v[pos].token_type, TokenType::Print) {
        proof {
            assert(spec_fuel_min((fuel - 1) as nat, spec_fuel_for(suf.skip(1)))
                == spec_fuel_for(tsv.skip(pos as int + 1)));
        }
        match parse_expression_at(v, pos + 1) {
            (Ok(e), p2) => {
                proof {
                    assert(p2 < v@.len());
                    assert(tsv.skip(p2 as int)[0] == v@[p2 as int]@);
                    assert(tsv.skip(p2 as int).skip(1) =~= tsv.skip(p2 as int + 1));
                }
                if matches!(&v[p2].token_type, TokenType::Semicolon) {
                    (StmtNode::PrintStmt(e), p2 + 1)
                } else {
                    (StmtNode::ErrStmt(String::from_str("Expected ';' after a statement")), p2)
                }
            },
            (Err(m), p2) => (StmtNode::ErrStmt(m), p2),
        }
    } else {
        match parse_expression_at(v, pos) {
            (Ok(e), p2) => {
                proof {
                    assert(p2 < v@.len());
                    assert(tsv.skip(p2 as int)[0] == v@[p2 as int]@);
                    assert(tsv.skip(p2 as int).skip(1) =~= tsv.skip(p2 as int + 1));
                }
                if matches!(&v[p2].token_type, TokenType::Semicolon) {
                    (StmtNode::ExprStmt(e), p2 + 1)
                } else {
                    (StmtNode::ErrStmt(String::from_str("Expected ';' after an expression")), p2)
                }
            },
            (Err(m), p2) => (StmtNode::ErrStmt(m), p2),
        }
    }
}

/// A parser for the language. It creates an abstract syntax tree from a
/// token stream.
pub struct Parser {
    panic_mode: bool,
    errors: Vec<String>,
}

impl Parser {
    pub fn new() -> Parser {
        Parser { panic_mode: false, errors: Vec::new() }
    }

    /// Parses one expression from the front of the token queue, removing
    /// the tokens it consumes; on failure the queue stands at the point of
    /// failure.
    pub fn expression(&mut self, tokens: &mut Vec<Token>) -> (r: Result<ExprNode, String>)
        requires
            !(spec_parse_expression(spec_token_views(old(tokens)@)) is Aborted),
        ensures
            *final(self) == *old(self),
            (match r {
                Result::Ok(e) => spec_parse_expression(spec_token_views(old(tokens)@))
                    == (SpecParse::Done {
                    value: e@,
                    rest: spec_token_views(final(tokens)@),
                }),
                Result::Err(m) => spec_parse_expression(spec_token_views(old(tokens)@))
                    == (SpecParse::<ExprNodeV>::Failed {
                    message: m@,
                    rest: spec_token_views(final(tokens)@),
                }),
            }),
    {
        let ghost tsv = spec_token_views(tokens@);
        proof {
            assert(tsv.skip(0) =~= tsv);
        }
        let (res, newpos) = parse_expression_at(tokens, 0);
        let rest = tokens.split_off(newpos);
        *tokens = rest;
        proof {
            assert(spec_token_views(tokens@) =~= tsv.skip(newpos as int));
        }
        res
    }

    /// Parses one statement from the front of the token queue: a print
    /// statement or an expression statement, each closed by a semicolon; a
    /// parse failure is captured as an error statement.
    pub fn statement(&mut self, tokens: &mut Vec<Token>) -> (r: StmtNode)
        requires
            !(spec_parse_statement(spec_token_views(old(tokens)@)) is Aborted),
        ensures
            *final(self) == *old(self),
            spec_parse_statement(spec_token_views(old(tokens)@)) == (SpecParse::Done {
                value: r@,
                rest: spec_token_views(final(tokens)@),
            }),
    {
        let ghost tsv = spec_token_views(tokens@);
        proof {
            assert(tsv.skip(0) =~= tsv);
        }
        let (stmt, newpos) = parse_statement_at(tokens, 0);
        let rest = tokens.split_off(newpos);
        *tokens = rest;
        proof {
            assert(spec_token_views(tokens@) =~= tsv.skip(newpos as int));
        }
        stmt
    }

    /// Generates a syntax tree from a stream of tokens: statements parsed
    /// from the front until the queue is empty or the end-of-file marker
    /// is reached. A statement that consumed no token leaves its offending
    /// token dropped, so parsing always advances.
    pub fn parse(&mut self, tokens: Vec<Token>) -> (r: Vec<StmtNode>)
        requires
            !(spec_parse_program(spec_token_views(tokens@)) is Aborted),
        ensures
            *final(self) == *old(self),
            (spec_parse_program(spec_token_views(tokens@)) matches SpecParse::Done {
                value,
                rest,
            } && value == spec_stmt_views(r@)),
    {
        let ghost tsv = spec_token_views(tokens@);
        let mut statements: Vec<StmtNode> = Vec::new();
        let mut pos: usize = 0;
        proof {
            assert(tsv.skip(0) =~= tsv);
            assert(spec_stmt_views(Seq::empty()) =~= Seq::<StmtNodeV>::empty());
        }
        while pos < tokens.len() && !matches!(&tokens[pos].token_type, TokenType::Eof)
            invariant
                pos <= tokens@.len(),
                tsv == spec_token_views(tokens@),
                !(spec_parse(tsv.skip(pos as int), spec_fuel_for(tsv.skip(pos as int)))
                    is Aborted),
                (spec_parse(tsv.skip(pos as int), spec_fuel_for(tsv.skip(pos as int)))
                    matches SpecParse::Done { value, rest } ==> spec_parse_program(tsv) == (
                SpecParse::Done { value: spec_stmt_views(statements@) + value, rest })),
            decreases tokens@.len() - pos,
        {
            let ghost suf = tsv.skip(pos as int);
            let ghost fuel = spec_fuel_for(suf);
            let ghost done = spec_stmt_views(statements@);
            proof {
                assert(suf[0] == tokens@[pos as int]@);
                assert(suf.len() > 0 && !(suf[0].token_type is Eof));
                assert(suf.skip(1) =~= tsv.skip(pos as int + 1));
            }
            let (stmt, newpos) = parse_statement_at(&tokens, pos);
            let next: usize = if newpos > pos {
                newpos
            } else {
                pos + 1
            };
            proof {
                let nsuf = tsv.skip(next as int);
                assert(spec_fuel_min((fuel - 1) as nat, spec_fuel_for(nsuf)) == spec_fuel_for(
                    nsuf,
                ));
                assert(spec_stmt_views(statements@.push(stmt)) =~= done.push(stmt@));
                match spec_parse(nsuf, spec_fuel_for(nsuf)) {
                    SpecParse::Done { value, rest } => {
                        assert(done.push(stmt@) + value =~= done + (seq![stmt@] + value));
                    },
                    _ => {},
                }
            }
            statements.push(stmt);
            pos = next;
        }
        proof {
            let suf = tsv.skip(pos as int);
            assert(suf.len() == 0 || suf[0].token_type is Eof) by {
                if pos < tokens@.len() {
                    assert(suf[0] == tokens@[pos as int]@);
                }
            }
            assert(spec_parse(suf, spec_fuel_for(suf)) == (SpecParse::Done {
                value: Seq::<StmtNodeV>::empty(),
                rest: suf,
            }));
            assert(spec_stmt_views(statements@) + Seq::<StmtNodeV>::empty() =~= spec_stmt_views(
                statements@,
            ));
        }
        statements
    }
}

} // verus!
