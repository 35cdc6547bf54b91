//! The abstract syntax tree of the language: operators, literal values,
//! expression nodes and statement nodes, with their mathematical values.
use crate::lexer::{Token, TokenType, TokenTypeV, TokenV};
use crate::num::spec_num_eq;
use crate::text::string_eq;
use vstd::prelude::*;
use vstd::string::*;

verus! {

/// The operators supported by the language. Each variant carries the
/// source line of the operator token, used only for error messages.
#[derive(Debug, Clone, Copy, PartialEq, Eq, Structural)]
pub enum Operator {
    Add { line: u32 },
    Subtract { line: u32 },
    Multiply { line: u32 },
    Divide { line: u32 },
    GreaterThan { line: u32 },
    LessThan { line: u32 },
    Equal { line: u32 },
    EqualEqual { line: u32 },
    NotEqual { line: u32 },
    And { line: u32 },
    Or { line: u32 },
    Bang { line: u32 },
}

/// The operator a token converts to: the two combined comparison tokens
/// fold into the strict ones, and a token that is no operator converts to
/// nothing.
pub open spec fn spec_operator_of(t: TokenV) -> Option<Operator> {
    match t.token_type {
        TokenTypeV::Plus => Option::Some(Operator::Add { line: t.line }),
        TokenTypeV::Minus => Option::Some(Operator::Subtract { line: t.line }),
        TokenTypeV::Star => Option::Some(Operator::Multiply { line: t.line }),
        TokenTypeV::Slash => Option::Some(Operator::Divide { line: t.line }),
        TokenTypeV::Greater => Option::Some(Operator::GreaterThan { line: t.line }),
        TokenTypeV::Less => Option::Some(Operator::LessThan { line: t.line }),
        TokenTypeV::Equal => Option::Some(Operator::Equal { line: t.line }),
        TokenTypeV::BangEqual => Option::Some(Operator::NotEqual { line: t.line }),
        TokenTypeV::And => Option::Some(Operator::And { line: t.line }),
        TokenTypeV::Or => Option::Some(Operator::Or { line: t.line }),
        TokenTypeV::Bang => Option::Some(Operator::Bang { line: t.line }),
        TokenTypeV::EqualEqual => Option::Some(Operator::EqualEqual { line: t.line }),
        TokenTypeV::GreaterEqual => Option::Some(Operator::GreaterThan { line: t.line }),
        TokenTypeV::LessEqual => Option::Some(Operator::LessThan { line: t.line }),
        _ => Option::None,
    }
}

/// The tag of a token type, for diagnostics.
pub open spec fn spec_token_type_name(k: TokenTypeV) -> Seq<char> {
    match k {
        TokenTypeV::LeftParen => "LeftParen"@,
        TokenTypeV::RightParen => "RightParen"@,
        TokenTypeV::LeftBrace => "LeftBrace"@,
        TokenTypeV::RightBrace => "RightBrace"@,
        TokenTypeV::Comma => "Comma"@,
        TokenTypeV::Dot => "Dot"@,
        TokenTypeV::Minus => "Minus"@,
        TokenTypeV::Plus => "Plus"@,
        TokenTypeV::Semicolon => "Semicolon"@,
        TokenTypeV::Slash => "Slash"@,
        TokenTypeV::Star => "Star"@,
        TokenTypeV::Bang => "Bang"@,
        TokenTypeV::BangEqual => "BangEqual"@,
        TokenTypeV::Equal => "Equal"@,
        TokenTypeV::EqualEqual => "EqualEqual"@,
        TokenTypeV::Greater => "Greater"@,
        TokenTypeV::GreaterEqual => "GreaterEqual"@,
        TokenTypeV::Less => "Less"@,
        TokenTypeV::LessEqual => "LessEqual"@,
        TokenTypeV::Identifier => "Identifier"@,
        TokenTypeV::String(_) => "String"@,
        TokenTypeV::Number(_) => "Number"@,
        TokenTypeV::And => "And"@,
        TokenTypeV::Class => "Class"@,
        TokenTypeV::Else => "Else"@,
        TokenTypeV::False => "False"@,
        TokenTypeV::Fun => "Fun"@,
        TokenTypeV::For => "For"@,
        TokenTypeV::If => "If"@,
        TokenTypeV::Nil => "Nil"@,
        TokenTypeV::Or => "Or"@,
        TokenTypeV::Print => "Print"@,
        TokenTypeV::Return => "Return"@,
        TokenTypeV::Super => "Super"@,
        TokenTypeV::This => "This"@,
        TokenTypeV::True => "True"@,
        TokenTypeV::Var => "Var"@,
        TokenTypeV::While => "While"@,
        TokenTypeV::Eof => "Eof"@,
    }
}

/// The tag of a token type, for diagnostics.
pub fn token_type_name(k: &TokenType) -> (r: String)
    ensures
        r@ == spec_token_type_name(k@),
{
    match k {
        TokenType::LeftParen => String::from_str("LeftParen"),
        TokenType::RightParen => String::from_str("RightParen"),
        TokenType::LeftBrace => String::from_str("LeftBrace"),
        TokenType::RightBrace => String::from_str("RightBrace"),
        TokenType::Comma => String::from_str("Comma"),
        TokenType::Dot => String::from_str("Dot"),
        TokenType::Minus => String::from_str("Minus"),
        TokenType::Plus => String::from_str("Plus"),
        TokenType::Semicolon => String::from_str("Semicolon"),
        TokenType::Slash => String::from_str("Slash"),
        TokenType::Star => String::from_str("Star"),
        TokenType::Bang => String::from_str("Bang"),
        TokenType::BangEqual => String::from_str("BangEqual"),
        TokenType::Equal => String::from_str("Equal"),
        TokenType::EqualEqual => String::from_str("EqualEqual"),
        TokenType::Greater => String::from_str("Greater"),
        TokenType::GreaterEqual => String::from_str("GreaterEqual"),
        TokenType::Less => String::from_str("Less"),
        TokenType::LessEqual => String::from_str("LessEqual"),
        TokenType::Identifier => String::from_str("Identifier"),
        TokenType::String(_) => String::from_str("String"),
        TokenType::Number(_) => String::from_str("Number"),
        TokenType::And => String::from_str("And"),
        TokenType::Class => String::from_str("Class"),
        TokenType::Else => String::from_str("Else"),
        TokenType::False => String::from_str("False"),
        TokenType::Fun => String::from_str("Fun"),
        TokenType::For => String::from_str("For"),
        TokenType::If => String::from_str("If"),
        TokenType::Nil => String::from_str("Nil"),
        TokenType::Or => String::from_str("Or"),
        TokenType::Print => String::from_str("Print"),
        TokenType::Return => String::from_str("Return"),
        TokenType::Super => String::from_str("Super"),
        TokenType::This => String::from_str("This"),
        TokenType::True => String::from_str("True"),
        TokenType::Var => String::from_str("Var"),
        TokenType::While => String::from_str("While"),
        TokenType::Eof => String::from_str("Eof"),
    }
}

impl Operator {
    /// Converts a token to the operator it stands for. Fails, naming the
    /// token type, on a token that is no operator; the parser only
    /// converts tokens already known to be operators, so a failure here is
    /// a parser-internal inconsistency, not a user-facing error.
    pub fn try_from(token: &Token) -> (r: Result<Operator, String>)
        ensures
            (match spec_operator_of(token@) {
                Option::Some(op) => r == Result::<Operator, String>::Ok(op),
                Option::None => r matches Result::Err(m) && m@ == spec_token_type_name(
                    token@.token_type,
                ) + " is not an operator"@,
            }),
    {
        let line = token.line;
        match &token.token_type {
            TokenType::Plus => Ok(Operator::Add { line }),
            TokenType::Minus => Ok(Operator::Subtract { line }),
            TokenType::Star => Ok(Operator::Multiply { line }),
            TokenType::Slash => Ok(Operator::Divide { line }),
            TokenType::Greater => Ok(Operator::GreaterThan { line }),
            TokenType::Less => Ok(Operator::LessThan { line }),
            TokenType::Equal => Ok(Operator::Equal { line }),
            TokenType::BangEqual => Ok(Operator::NotEqual { line }),
            TokenType::And => Ok(Operator::And { line }),
            TokenType::Or => Ok(Operator::Or { line }),
            TokenType::Bang => Ok(Operator::Bang { line }),
            TokenType::EqualEqual => Ok(Operator::EqualEqual { line }),
            TokenType::GreaterEqual => Ok(Operator::GreaterThan { line }),
            TokenType::LessEqual => Ok(Operator::LessThan { line }),
            _ => {
                let mut m = token_type_name(&token.token_type);
                m.append(" is not an operator");
                Err(m)
            },
        }
    }
}

/// The source line an operator was converted on.
pub open spec fn spec_operator_line(op: Operator) -> u32 {
    match op {
        Operator::Add { line } => line,
        Operator::Subtract { line } => line,
        Operator::Multiply { line } => line,
        Operator::Divide { line } => line,
        Operator::GreaterThan { line } => line,
        Operator::LessThan { line } => line,
        Operator::Equal { line } => line,
        Operator::EqualEqual { line } => line,
        Operator::NotEqual { line } => line,
        Operator::And { line } => line,
        Operator::Or { line } => line,
        Operator::Bang { line } => line,
    }
}

/// The tag of an operator, for diagnostics.
pub open spec fn spec_operator_name(op: Operator) -> Seq<char> {
    match op {
        Operator::Add { .. } => "Add"@,
        Operator::Subtract { .. } => "Subtract"@,
        Operator::Multiply { .. } => "Multiply"@,
        Operator::Divide { .. } => "Divide"@,
        Operator::GreaterThan { .. } => "GreaterThan"@,
        Operator::LessThan { .. } => "LessThan"@,
        Operator::Equal { .. } => "Equal"@,
        Operator::EqualEqual { .. } => "EqualEqual"@,
        Operator::NotEqual { .. } => "NotEqual"@,
        Operator::And { .. } => "And"@,
        Operator::Or { .. } => "Or"@,
        Operator::Bang { .. } => "Bang"@,
    }
}

impl Operator {
    /// The source line this operator was converted on.
    pub fn line(&self) -> (r: u32)
        ensures
            r == spec_operator_line(*self),
    {
        match self {
            Operator::Add { line } => *line,
            Operator::Subtract { line } => *line,
            Operator::Multiply { line } => *line,
            Operator::Divide { line } => *line,
            Operator::GreaterThan { line } => *line,
            Operator::LessThan { line } => *line,
            Operator::Equal { line } => *line,
            Operator::EqualEqual { line } => *line,
            Operator::NotEqual { line } => *line,
            Operator::And { line } => *line,
            Operator::Or { line } => *line,
            Operator::Bang { line } => *line,
        }
    }

    /// The tag of this operator, for diagnostics.
    pub fn name(&self) -> (r: String)
        ensures
            r@ == spec_operator_name(*self),
    {
        match self {
            Operator::Add { .. } => String::from_str("Add"),
            Operator::Subtract { .. } => String::from_str("Subtract"),
            Operator::Multiply { .. } => String::from_str("Multiply"),
            Operator::Divide { .. } => String::from_str("Divide"),
            Operator::GreaterThan { .. } => String::from_str("GreaterThan"),
            Operator::LessThan { .. } => String::from_str("LessThan"),
            Operator::Equal { .. } => String::from_str("Equal"),
            Operator::EqualEqual { .. } => String::from_str("EqualEqual"),
            Operator::NotEqual { .. } => String::from_str("NotEqual"),
            Operator::And { .. } => String::from_str("And"),
            Operator::Or { .. } => String::from_str("Or"),
            Operator::Bang { .. } => String::from_str("Bang"),
        }
    }
}

/// A literal value of the language. A number carries the 32-bit encoding
/// of an IEEE 754 single.
#[derive(Debug, Clone, PartialEq)]
pub enum Literal {
    Number(u32),
    String(String),
    Boolean(bool),
    Nil,
}

/// The mathematical value of a literal.
pub enum LiteralV {
    Number(u32),
    String(Seq<char>),
    Boolean(bool),
    Nil,
}

impl View for Literal {
    type V = LiteralV;

    open spec fn view(&self) -> LiteralV {
        match self {
            Literal::Number(n) => LiteralV::Number(*n),
            Literal::String(s) => LiteralV::String(s@),
            Literal::Boolean(b) => LiteralV::Boolean(*b),
            Literal::Nil => LiteralV::Nil,
        }
    }
}

/// The truthiness of a literal: every number and every string counts as
/// true, a boolean counts as itself, and nil counts as false.
pub open spec fn spec_is_falsy(l: LiteralV) -> bool {
    match l {
        LiteralV::Number(_) => true,
        LiteralV::String(_) => true,
        LiteralV::Boolean(b) => b,
        LiteralV::Nil => false,
    }
}

/// Structural equality of two literals: numbers compare by the format's
/// equality, strings and booleans by value, nil equals only nil, and
/// values of different kinds are always unequal.
pub open spec fn spec_is_equal(a: LiteralV, b: LiteralV) -> bool {
    match (a, b) {
        (LiteralV::Number(x), LiteralV::Number(y)) => spec_num_eq(x, y),
        (LiteralV::String(x), LiteralV::String(y)) => x == y,
        (LiteralV::Boolean(x), LiteralV::Boolean(y)) => x == y,
        (LiteralV::Nil, LiteralV::Nil) => true,
        _ => false,
    }
}

impl Literal {
    /// The truthiness of this literal, as unary negation sees it.
    pub fn is_falsy(&self) -> (r: bool)
        ensures
            r == spec_is_falsy(self@),
    {
        match self {
            Literal::Number(_) => true,
            Literal::String(_) => true,
            Literal::Boolean(val) => *val,
            Literal::Nil => false,
        }
    }

    /// Whether this literal structurally equals another.
    pub fn is_equal(&self, other: &Literal) -> (r: bool)
        ensures
            r == spec_is_equal(self@, other@),
    {
        match (self, other) {
            (Literal::Number(a), Literal::Number(b)) => crate::num::num_eq(*a, *b),
            (Literal::String(a), Literal::String(b)) => string_eq(a, b),
            (Literal::Boolean(a), Literal::Boolean(b)) => *a == *b,
            (Literal::Nil, Literal::Nil) => true,
            _ => false,
        }
    }
}

/// A node in the expression tree. Child expressions are exclusively owned
/// by their parent node: a strict tree, with no sharing and no cycles.
#[derive(Debug, PartialEq)]
pub enum ExprNode {
    Literal(Literal),
    Grouping(Box<ExprNode>),
    UnaryExpr { operator: Operator, right: Box<ExprNode> },
    BinaryExpr { left: Box<ExprNode>, operator: Operator, right: Box<ExprNode> },
}

/// The mathematical value of an expression node.
pub enum ExprNodeV {
    Literal(LiteralV),
    Grouping(Box<ExprNodeV>),
    UnaryExpr { operator: Operator, right: Box<ExprNodeV> },
    BinaryExpr { left: Box<ExprNodeV>, operator: Operator, right: Box<ExprNodeV> },
}

/// The mathematical value of an expression node.
pub open spec fn spec_expr_view(e: ExprNode) -> ExprNodeV
    decreases e,
{
    match e {
        ExprNode::Literal(l) => ExprNodeV::Literal(l@),
        ExprNode::Grouping(g) => ExprNodeV::Grouping(Box::new(spec_expr_view(*g))),
        ExprNode::UnaryExpr { operator, right } => ExprNodeV::UnaryExpr {
            operator,
            right: Box::new(spec_expr_view(*right)),
        },
        ExprNode::BinaryExpr { left, operator, right } => ExprNodeV::BinaryExpr {
            left: Box::new(spec_expr_view(*left)),
            operator,
            right: Box::new(spec_expr_view(*right)),
        },
    }
}

impl View for ExprNode {
    type V = ExprNodeV;

    open spec fn view(&self) -> ExprNodeV {
        spec_expr_view(*self)
    }
}

/// A statement node. A statement that fails to parse is captured as an
/// error statement carrying the diagnostic text in place of a tree.
#[derive(Debug, PartialEq)]
pub enum StmtNode {
    PrintStmt(ExprNode),
    ExprStmt(ExprNode),
    ErrStmt(String),
    VarStmt(String),
}

/// The mathematical value of a statement node.
pub enum StmtNodeV {
    PrintStmt(ExprNodeV),
    ExprStmt(ExprNodeV),
    ErrStmt(Seq<char>),
    VarStmt(Seq<char>),
}

impl View for StmtNode {
    type V = StmtNodeV;

    open spec fn view(&self) -> StmtNodeV {
        match self {
            StmtNode::PrintStmt(e) => StmtNodeV::PrintStmt(e@),
            StmtNode::ExprStmt(e) => StmtNodeV::ExprStmt(e@),
            StmtNode::ErrStmt(m) => StmtNodeV::ErrStmt(m@),
            StmtNode::VarStmt(n) => StmtNodeV::VarStmt(n@),
        }
    }
}

} // verus!
