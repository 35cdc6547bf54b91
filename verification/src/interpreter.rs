//! The evaluator reduces an expression tree to a literal value by walking
//! it: operands are always fully evaluated before their operator is
//! applied, and a type mismatch fails with the operator's source line.
use crate::ast::{
    spec_is_equal, spec_is_falsy, spec_operator_line, spec_operator_name, ExprNode, ExprNodeV,
    Literal, LiteralV, Operator,
};
use crate::num::{
    add_bits, div_bits, mul_bits, single_display, spec_num_lt, spec_num_neg, sub_bits,
};
use crate::text::{spec_chars_lt, spec_u32_string, string_lt, u32_to_string};
use vstd::prelude::*;
use vstd::string::*;

verus! {

/// A failure of evaluation: the operator's source line, and a message
/// describing the type mismatch or unsupported operator.
#[derive(Debug, Clone, PartialEq)]
pub struct RuntimeError {
    pub line: u32,
    pub message: String,
}

/// The mathematical value of a runtime error.
pub struct RuntimeErrorV {
    pub line: u32,
    pub message: Seq<char>,
}

impl View for RuntimeError {
    type V = RuntimeErrorV;

    open spec fn view(&self) -> RuntimeErrorV {
        RuntimeErrorV { line: self.line, message: self.message@ }
    }
}

/// The interpreter reduces expression trees to literal values; the
/// surrounding driver decides what source to hand it and what to do with
/// what comes back.
pub struct Interpreter;

/// How a driver runs the interpreter: over one script, or line by line at
/// an interactive prompt.
pub enum InterpreterMode {
    Script(String),
    Repl,
}

/// What evaluating the addition of two literals yields: the sum of two
/// numbers, the concatenation of two strings, and an error naming the left
/// operand for any other pairing.
pub open spec fn spec_add_impl(left: LiteralV, right: LiteralV, line: u32) -> Result<
    LiteralV,
    RuntimeErrorV,
> {
    match (left, right) {
        (LiteralV::Number(l), LiteralV::Number(r)) => Result::Ok(LiteralV::Number(add_bits(l, r))),
        (LiteralV::String(l), LiteralV::String(r)) => Result::Ok(LiteralV::String(l + r)),
        (LiteralV::Number(l), _) => Result::Err(
            RuntimeErrorV {
                line,
                message: "the left side number "@ + single_display(l)
                    + " operand is being added to non left number"@,
            },
        ),
        (LiteralV::String(l), _) => Result::Err(
            RuntimeErrorV {
                line,
                message: "the left side string "@ + l
                    + " operand is being added to non left number"@,
            },
        ),
        _ => Result::Err(
            RuntimeErrorV { line, message: "Operands must be two numbers or two strings"@ },
        ),
    }
}

/// What applying a binary operator to two evaluated operands yields.
pub open spec fn spec_eval_binary(op: Operator, left: LiteralV, right: LiteralV) -> Result<
    LiteralV,
    RuntimeErrorV,
> {
    match op {
        Operator::Add { line } => spec_add_impl(left, right, line),
        Operator::Subtract { line } => match (left, right) {
            (LiteralV::Number(l), LiteralV::Number(r)) => Result::Ok(
                LiteralV::Number(sub_bits(l, r)),
            ),
            _ => Result::Err(RuntimeErrorV { line, message: "Operands must be two numbers"@ }),
        },
        Operator::Multiply { line } => match (left, right) {
            (LiteralV::Number(l), LiteralV::Number(r)) => Result::Ok(
                LiteralV::Number(mul_bits(l, r)),
            ),
            _ => Result::Err(RuntimeErrorV { line, message: "Operands must be two numbers"@ }),
        },
        Operator::Divide { line } => match (left, right) {
            (LiteralV::Number(l), LiteralV::Number(r)) => Result::Ok(
                LiteralV::Number(div_bits(l, r)),
            ),
            _ => Result::Err(RuntimeErrorV { line, message: "Operands must be two numbers"@ }),
        },
        Operator::GreaterThan { line } => match (left, right) {
            (LiteralV::Number(l), LiteralV::Number(r)) => Result::Ok(
                LiteralV::Boolean(spec_num_lt(r, l)),
            ),
            (LiteralV::String(l), LiteralV::String(r)) => Result::Ok(
                LiteralV::Boolean(spec_chars_lt(r, l)),
            ),
            _ => Result::Err(
                RuntimeErrorV { line, message: "Operands must be two numbers or two strings"@ },
            ),
        },
        Operator::LessThan { line } => match (left, right) {
            (LiteralV::Number(l), LiteralV::Number(r)) => Result::Ok(
                LiteralV::Boolean(spec_num_lt(l, r)),
            ),
            (LiteralV::String(l), LiteralV::String(r)) => Result::Ok(
                LiteralV::Boolean(spec_chars_lt(l, r)),
            ),
            _ => Result::Err(
                RuntimeErrorV { line, message: "Operands must be two numbers or two strings"@ },
            ),
        },
        Operator::Equal { line } => Result::Err(
            RuntimeErrorV { line, message: "only expressions are supported!"@ },
        ),
        Operator::EqualEqual { line } => Result::Ok(
            LiteralV::Boolean(spec_is_equal(left, right)),
        ),
        Operator::NotEqual { line } => Result::Ok(
            LiteralV::Boolean(!spec_is_equal(left, right)),
        ),
        Operator::And { line } => Result::Err(
            RuntimeErrorV { line, message: "only expressions are supported!"@ },
        ),
        Operator::Or { line } => Result::Err(
            RuntimeErrorV { line, message: "only expressions are supported!"@ },
        ),
        Operator::Bang { line } => Result::Err(
            RuntimeErrorV { line, message: "Unsupported operator"@ },
        ),
    }
}

/// What applying a unary operator to an evaluated operand yields: negated
/// truthiness for bang, numeric negation for minus on a number, and an
/// error otherwise.
pub open spec fn spec_eval_unary(op: Operator, value: LiteralV) -> Result<
    LiteralV,
    RuntimeErrorV,
> {
    match op {
        Operator::Bang { line } => Result::Ok(LiteralV::Boolean(!spec_is_falsy(value))),
        Operator::Subtract { line } => match value {
            LiteralV::Number(a) => Result::Ok(LiteralV::Number(spec_num_neg(a))),
            _ => Result::Err(
                RuntimeErrorV {
                    line,
                    message: "Unary operator '-' can only be applied to numbers on line "@
                        + spec_u32_string(line),
                },
            ),
        },
        _ => Result::Err(
            RuntimeErrorV {
                line: spec_operator_line(op),
                message: "Unexpected operator of type "@ + spec_operator_name(op)
                    + " in an unary expression"@,
            },
        ),
    }
}

/// What evaluating an expression tree yields: a literal node its payload,
/// a grouping its child's value, and operator nodes their operands'
/// values, evaluated left to right, under the operator's semantics.
pub open spec fn spec_eval(e: ExprNodeV) -> Result<LiteralV, RuntimeErrorV>
    decreases e,
{
    match e {
        ExprNodeV::Literal(l) => Result::Ok(l),
        ExprNodeV::Grouping(g) => spec_eval(*g),
        ExprNodeV::UnaryExpr { operator, right } => match spec_eval(*right) {
            Result::Ok(v) => spec_eval_unary(operator, v),
            Result::Err(e) => Result::Err(e),
        },
        ExprNodeV::BinaryExpr { left, operator, right } => match spec_eval(*left) {
            Result::Ok(l) => match spec_eval(*right) {
                Result::Ok(r) => spec_eval_binary(operator, l, r),
                Result::Err(e) => Result::Err(e),
            },
            Result::Err(e) => Result::Err(e),
        },
    }
}

/// The value of an evaluation outcome.
pub open spec fn spec_eval_result_view(r: Result<Literal, RuntimeError>) -> Result<
    LiteralV,
    RuntimeErrorV,
> {
    match r {
        Result::Ok(l) => Result::Ok(l@),
        Result::Err(e) => Result::Err(e@),
    }
}

/// The height of an expression tree, for the measure of the mutually
/// recursive visit methods.
pub open spec fn spec_expr_height(e: ExprNode) -> nat
    decreases e,
{
    match e {
        ExprNode::Literal(_) => 0,
        ExprNode::Grouping(g) => 1 + spec_expr_height(*g),
        ExprNode::UnaryExpr { operator, right } => 1 + spec_expr_height(*right),
        ExprNode::BinaryExpr { left, operator, right } => {
            let hl = spec_expr_height(*left);
            let hr = spec_expr_height(*right);
            1 + if hl >= hr {
                hl
            } else {
                hr
            }
        },
    }
}

fn clone_literal(l: &Literal) -> (r: Literal)
    ensures
        r@ == l@,
{
    match l {
        Literal::Number(n) => Literal::Number(*n),
        Literal::String(s) => Literal::String(s.clone()),
        Literal::Boolean(b) => Literal::Boolean(*b),
        Literal::Nil => Literal::Nil,
    }
}

impl Interpreter {
    pub fn new() -> Interpreter {
        Interpreter
    }

    /// The rendering of a diagnostic, with an empty place of error.
    pub fn error(line: u32, message: String) -> (r: String)
        ensures
            r@ == spec_report(line, Seq::empty(), message@),
    {
        Interpreter::report(line, String::new(), message)
    }

    /// The rendering of a diagnostic: its line, the place it arose, and
    /// its message.
    pub fn report(line: u32, err_where: String, message: String) -> (r: String)
        ensures
            r@ == spec_report(line, err_where@, message@),
    {
        let mut r = String::from_str("[line ");
        let digits = u32_to_string(line);
        r.append(digits.as_str());
        r.append("] Error ");
        r.append(err_where.as_str());
        r.append(": ");
        r.append(message.as_str());
        r
    }

    /// Evaluates the addition of a left and right literal: for two numbers
    /// a sum, for two strings the right concatenated onto the end of the
    /// left.
    pub fn add_impl(left: Literal, right: Literal, line: u32) -> (r: Result<Literal, RuntimeError>)
        ensures
            spec_eval_result_view(r) == spec_add_impl(left@, right@, line),
    {
        match (left, right) {
            (Literal::Number(l), Literal::Number(r)) => Ok(
                Literal::Number(crate::num::num_add(l, r)),
            ),
            (Literal::String(l), Literal::String(r)) => Ok(Literal::String(l.concat(r.as_str()))),
            (Literal::Number(l), _) => {
                let mut m = String::from_str("the left side number ");
                let shown = crate::num::num_display(l);
                m.append(shown.as_str());
                m.append(" operand is being added to non left number");
                Err(RuntimeError { line, message: m })
            },
            (Literal::String(l), _) => {
                let mut m = String::from_str("the left side string ");
                m.append(l.as_str());
                m.append(" operand is being added to non left number");
                Err(RuntimeError { line, message: m })
            },
            _ => Err(
                RuntimeError {
                    line,
                    message: String::from_str("Operands must be two numbers or two strings"),
                },
            ),
        }
    }

    /// Evaluates a literal node: its payload, unchanged.
    pub fn visit_literal(&mut self, literal: &Literal) -> (r: Result<Literal, RuntimeError>)
        ensures
            spec_eval_result_view(r) == Result::<LiteralV, RuntimeErrorV>::Ok(literal@),
    {
        Ok(clone_literal(literal))
    }

    /// Evaluates a grouping node: its child's value, unchanged.
    pub fn visit_grouping(&mut self, grouping: &ExprNode) -> (r: Result<Literal, RuntimeError>)
        ensures
            spec_eval_result_view(r) == spec_eval(grouping@),
        decreases spec_expr_height(*grouping), 1int,
    {
        self.visit_node(grouping)
    }

    /// Evaluates a binary node's operands, left first, then applies the
    /// operator's semantics to the two values.
    pub fn visit_binary_expr(
        &mut self,
        left: &ExprNode,
        operator: &Operator,
        right: &ExprNode,
    ) -> (r: Result<Literal, RuntimeError>)
        ensures
            spec_eval_result_view(r) == (match spec_eval(left@) {
                Result::Ok(l) => match spec_eval(right@) {
                    Result::Ok(rv) => spec_eval_binary(*operator, l, rv),
                    Result::Err(e) => Result::Err(e),
                },
                Result::Err(e) => Result::Err(e),
            }),
        decreases (
        {
            let hl = spec_expr_height(*left);
            let hr = spec_expr_height(*right);
            if hl >= hr {
                hl
            } else {
                hr
            }
        }), 1int,
    {
        let left_literal = match self.visit_node(left) {
            Ok(v) => v,
            Err(e) => {
                return Err(e);
            },
        };
        let right_literal = match self.visit_node(right) {
            Ok(v) => v,
            Err(e) => {
                return Err(e);
            },
        };
        match operator {
            Operator::Add { line } => Interpreter::add_impl(left_literal, right_literal, *line),
            Operator::Subtract { line } => match (left_literal, right_literal) {
                (Literal::Number(l), Literal::Number(r)) => Ok(
                    Literal::Number(crate::num::num_sub(l, r)),
                ),
                _ => Err(
                    RuntimeError {
                        line: *line,
                        message: String::from_str("Operands must be two numbers"),
                    },
                ),
            },
            Operator::Multiply { line } => match (left_literal, right_literal) {
                (Literal::Number(l), Literal::Number(r)) => Ok(
                    Literal::Number(crate::num::num_mul(l, r)),
                ),
                _ => Err(
                    RuntimeError {
                        line: *line,
                        message: String::from_str("Operands must be two numbers"),
                    },
                ),
            },
            Operator::Divide { line } => match (left_literal, right_literal) {
                (Literal::Number(l), Literal::Number(r)) => Ok(
                    Literal::Number(crate::num::num_div(l, r)),
                ),
                _ => Err(
                    RuntimeError {
                        line: *line,
                        message: String::from_str("Operands must be two numbers"),
                    },
                ),
            },
            Operator::GreaterThan { line } => match (left_literal, right_literal) {
                (Literal::Number(l), Literal::Number(r)) => Ok(
                    Literal::Boolean(crate::num::num_lt(r, l)),
                ),
                (Literal::String(l), Literal::String(r)) => Ok(
                    Literal::Boolean(string_lt(&r, &l)),
                ),
                _ => Err(
                    RuntimeError {
                        line: *line,
                        message: String::from_str("Operands must be two numbers or two strings"),
                    },
                ),
            },
            Operator::LessThan { line } => match (left_literal, right_literal) {
                (Literal::Number(l), Literal::Number(r)) => Ok(
                    Literal::Boolean(crate::num::num_lt(l, r)),
                ),
                (Literal::String(l), Literal::String(r)) => Ok(
                    Literal::Boolean(string_lt(&l, &r)),
                ),
                _ => Err(
                    RuntimeError {
                        line: *line,
                        message: String::from_str("Operands must be two numbers or two strings"),
                    },
                ),
            },
            Operator::Equal { line } => Err(
                RuntimeError {
                    line: *line,
                    message: String::from_str("only expressions are supported!"),
                },
            ),
            Operator::EqualEqual { line } => Ok(
                Literal::Boolean(left_literal.is_equal(&right_literal)),
            ),
            Operator::NotEqual { line } => Ok(
                Literal::Boolean(!left_literal.is_equal(&right_literal)),
            ),
            Operator::And { line } => Err(
                RuntimeError {
                    line: *line,
                    message: String::from_str("only expressions are supported!"),
                },
            ),
            Operator::Or { line } => Err(
                RuntimeError {
                    line: *line,
                    message: String::from_str("only expressions are supported!"),
                },
            ),
            Operator::Bang { line } => Err(
                RuntimeError { line: *line, message: String::from_str("Unsupported operator") },
            ),
        }
    }

    /// Evaluates a unary node's operand, then applies the operator.
    pub fn visit_unary_expr(&mut self, operator: &Operator, child: &ExprNode) -> (r: Result<
        Literal,
        RuntimeError,
    >)
        ensures
            spec_eval_result_view(r) == (match spec_eval(child@) {
                Result::Ok(v) => spec_eval_unary(*operator, v),
                Result::Err(e) => Result::Err(e),
            }),
        decreases spec_expr_height(*child), 1int,
    {
        let output = match self.visit_node(child) {
            Ok(v) => v,
            Err(e) => {
                return Err(e);
            },
        };
        match operator {
            Operator::Bang { line } => Ok(Literal::Boolean(!output.is_falsy())),
            Operator::Subtract { line } => {
                if let Literal::Number(value) = output {
                    Ok(Literal::Number(crate::num::num_neg(value)))
                } else {
                    let mut m = String::from_str(
                        "Unary operator '-' can only be applied to numbers on line ",
                    );
                    let digits = u32_to_string(*line);
                    m.append(digits.as_str());
                    Err(RuntimeError { line: *line, message: m })
                }
            },
            _ => {
                let mut m = String::from_str("Unexpected operator of type ");
                let shown = operator.name();
                m.append(shown.as_str());
                m.append(" in an unary expression");
                Err(RuntimeError { line: operator.line(), message: m })
            },
        }
    }

    /// Evaluates an expression tree by dispatching on the node's tag and
    /// recursing into its children.
    pub fn visit_node(&mut self, node: &ExprNode) -> (r: Result<Literal, RuntimeError>)
        ensures
            spec_eval_result_view(r) == spec_eval(node@),
        decreases spec_expr_height(*node), 0int,
    {
        match node {
            ExprNode::Literal(literal) => self.visit_literal(literal),
            ExprNode::Grouping(grouping) => self.visit_grouping(grouping),
            ExprNode::UnaryExpr { operator, right } => self.visit_unary_expr(operator, right),
            ExprNode::BinaryExpr { left, operator, right } => self.visit_binary_expr(
                left,
                operator,
                right,
            ),
        }
    }
}

/// The rendering of a diagnostic: `[line N] Error WHERE: MESSAGE`.
pub open spec fn spec_report(line: u32, err_where: Seq<char>, message: Seq<char>) -> Seq<char> {
    "[line "@ + spec_u32_string(line) + "] Error "@ + err_where + ": "@ + message
}

} // verus!
