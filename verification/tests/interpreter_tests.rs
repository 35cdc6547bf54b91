use lox_lib::ast::{ExprNode, Literal, Operator, StmtNode};
use lox_lib::interpreter::Interpreter;
use lox_lib::lexer::Lexer;
use lox_lib::parser::Parser;

fn get_parsed_expr(expr: &str) -> Literal {
    let mut lexer = Lexer::new();
    let mut tokens = lexer.lex(expr).unwrap();
    let mut parser = Parser::new();
    let node = parser.expression(&mut tokens).unwrap();
    let mut interpreter = Interpreter::new();
    interpreter.visit_node(&node).unwrap()
}

#[test]
// tests that the lexer and the parser and interpreter can all be used together to generate
// the expected output from some lox source code.
fn interpreter_integration_test_expression() {
    let mut lexer = Lexer::new();
    let tokens = lexer.lex("print 1 + 2 * 3;").unwrap();
    let mut parser = Parser::new();
    let statements = parser.parse(tokens);
    assert_eq!(statements.len(), 1);
    let expr = match &statements[0] {
        StmtNode::PrintStmt(e) => e,
        other => panic!("expected a print statement, got {:?}", other),
    };
    let mut interpreter = Interpreter::new();
    let result = interpreter.visit_node(expr).unwrap();
    assert_eq!(result, Literal::Number(7.0f32.to_bits()));
}

#[test]
fn unary_expr_test() {
    let expr = "!5";
    let result = get_parsed_expr(expr);
    assert_eq!(result, Literal::Boolean(false));

    let expr = "-2";
    let result = get_parsed_expr(expr);
    assert_eq!(result, Literal::Number((-2.0f32).to_bits()));
}

#[test]
fn add_sub_expr_test() {
    let expr = "1 + 2";
    let result = get_parsed_expr(expr);
    assert_eq!(result, Literal::Number(3.0f32.to_bits()));

    let expr = "1 - 2";
    let result = get_parsed_expr(expr);
    assert_eq!(result, Literal::Number((-1.0f32).to_bits()));

    let expr = "1 + 2 - 3";
    let result = get_parsed_expr(expr);
    assert_eq!(result, Literal::Number(0.0f32.to_bits()));
}

#[test]
fn mul_sub_test() {
    let expr = "1 * 2";
    let result = get_parsed_expr(expr);
    assert_eq!(result, Literal::Number(2.0f32.to_bits()));

    let expr = "1 / 2";
    let result = get_parsed_expr(expr);
    assert_eq!(result, Literal::Number(0.5f32.to_bits()));

    let expr = "1 * 2 / 3";
    let result = get_parsed_expr(expr);
    assert_eq!(result, Literal::Number((2.0f32 / 3.0f32).to_bits()));
}

#[test]
fn interpreter_grouping_test() {
    let expr = "1 +(2 * 3)";
    let result = get_parsed_expr(expr);
    assert_eq!(result, Literal::Number(7.0f32.to_bits()));

    let expr = "(1 + 2) * 3";
    let result = get_parsed_expr(expr);
    assert_eq!(result, Literal::Number(9.0f32.to_bits()));

    let expr = "(1 + 2) * (3 + 4)";
    let result = get_parsed_expr(expr);
    assert_eq!(result, Literal::Number(21.0f32.to_bits()));

    let expr = "3 * (1 + 2)";
    let result = get_parsed_expr(expr);
    assert_eq!(result, Literal::Number(9.0f32.to_bits()));
}

#[test]
/// tests that the ">", "<", ">=", and "<=" operators work as expected.
fn greater_less_than_tests() {
    let expr = "1 > 2";
    let result = get_parsed_expr(expr);
    assert_eq!(result, Literal::Boolean(false));

    let expr = "1 < 2";
    let result = get_parsed_expr(expr);
    assert_eq!(result, Literal::Boolean(true));

    let expr = "1 >= 2";
    let result = get_parsed_expr(expr);
    assert_eq!(result, Literal::Boolean(false));

    let expr = "1 <= 2";
    let result = get_parsed_expr(expr);
    assert_eq!(result, Literal::Boolean(true));
}

#[test]
/// tests that the "==" and "!=" operators work as expected.
fn equals_equals_test() {
    let expr = "1 == 1";
    let result = get_parsed_expr(expr);
    assert_eq!(result, Literal::Boolean(true));

    let expr = "1 == 2";
    let result = get_parsed_expr(expr);
    assert_eq!(result, Literal::Boolean(false));

    let expr = "1 != 2";
    let result = get_parsed_expr(expr);
    assert_eq!(result, Literal::Boolean(true));

    let expr = "1 != 1";
    let result = get_parsed_expr(expr);
    assert_eq!(result, Literal::Boolean(false));
}

#[test]
fn string_and_nil_equality() {
    assert_eq!(get_parsed_expr("nil == nil"), Literal::Boolean(true));
    assert_eq!(get_parsed_expr("\"a\" == \"a\""), Literal::Boolean(true));
    assert_eq!(get_parsed_expr("\"a\" == \"b\""), Literal::Boolean(false));
    assert_eq!(get_parsed_expr("1 == \"a\""), Literal::Boolean(false));
    assert_eq!(get_parsed_expr("nil == 0"), Literal::Boolean(false));
}

#[test]
fn string_concatenation_and_comparison() {
    assert_eq!(
        get_parsed_expr("\"a\" + \"b\""),
        Literal::String("ab".to_string())
    );
    assert_eq!(get_parsed_expr("\"a\" < \"b\""), Literal::Boolean(true));
    assert_eq!(get_parsed_expr("\"b\" > \"a\""), Literal::Boolean(true));
    assert_eq!(get_parsed_expr("\"a\" > \"b\""), Literal::Boolean(false));
    assert_eq!(get_parsed_expr("\"ab\" > \"a\""), Literal::Boolean(true));
}

#[test]
fn adding_a_number_to_a_string_fails() {
    let mut lexer = Lexer::new();
    let mut tokens = lexer.lex("1 + \"a\"").unwrap();
    let mut parser = Parser::new();
    let node = parser.expression(&mut tokens).unwrap();
    let mut interpreter = Interpreter::new();
    let err = interpreter.visit_node(&node).unwrap_err();
    assert_eq!(err.line, 1);
    assert!(err.message.starts_with("the left side number "));
    assert!(err
        .message
        .ends_with(" operand is being added to non left number"));

    let mut tokens = lexer.lex("\"a\" + 1").unwrap();
    let node = parser.expression(&mut tokens).unwrap();
    let err = interpreter.visit_node(&node).unwrap_err();
    assert_eq!(
        err.message,
        "the left side string a operand is being added to non left number".to_string()
    );

    let mut tokens = lexer.lex("nil + true").unwrap();
    let node = parser.expression(&mut tokens).unwrap();
    let err = interpreter.visit_node(&node).unwrap_err();
    assert_eq!(
        err.message,
        "Operands must be two numbers or two strings".to_string()
    );
}

#[test]
fn arithmetic_on_non_numbers_fails() {
    let mut lexer = Lexer::new();
    let mut parser = Parser::new();
    let mut interpreter = Interpreter::new();

    let mut tokens = lexer.lex("\"a\" - 1").unwrap();
    let node = parser.expression(&mut tokens).unwrap();
    let err = interpreter.visit_node(&node).unwrap_err();
    assert_eq!(err.message, "Operands must be two numbers".to_string());

    let mut tokens = lexer.lex("nil < 1").unwrap();
    let node = parser.expression(&mut tokens).unwrap();
    let err = interpreter.visit_node(&node).unwrap_err();
    assert_eq!(
        err.message,
        "Operands must be two numbers or two strings".to_string()
    );

    let mut tokens = lexer.lex("-\"a\"").unwrap();
    let node = parser.expression(&mut tokens).unwrap();
    let err = interpreter.visit_node(&node).unwrap_err();
    assert_eq!(
        err.message,
        "Unary operator '-' can only be applied to numbers on line 1".to_string()
    );
    assert_eq!(err.line, 1);
}

#[test]
fn logical_operators_are_not_supported_in_expressions() {
    let mut interpreter = Interpreter::new();
    let one = ExprNode::Literal(Literal::Number(1.0f32.to_bits()));
    let two = ExprNode::Literal(Literal::Number(2.0f32.to_bits()));
    let err = interpreter
        .visit_binary_expr(&one, &Operator::And { line: 4 }, &two)
        .unwrap_err();
    assert_eq!(err.message, "only expressions are supported!".to_string());
    assert_eq!(err.line, 4);
    let err = interpreter
        .visit_binary_expr(&one, &Operator::Or { line: 4 }, &two)
        .unwrap_err();
    assert_eq!(err.message, "only expressions are supported!".to_string());
    let err = interpreter
        .visit_binary_expr(&one, &Operator::Equal { line: 4 }, &two)
        .unwrap_err();
    assert_eq!(err.message, "only expressions are supported!".to_string());
}

#[test]
fn truthiness_follows_the_language_rules() {
    // Every number is truthy, zero included, so !0 is false.
    assert_eq!(get_parsed_expr("!0"), Literal::Boolean(false));
    assert_eq!(get_parsed_expr("!\"\""), Literal::Boolean(false));
    assert_eq!(get_parsed_expr("!nil"), Literal::Boolean(true));
    assert_eq!(get_parsed_expr("!true"), Literal::Boolean(false));
    assert_eq!(get_parsed_expr("!false"), Literal::Boolean(true));
    assert_eq!(get_parsed_expr("!!-1"), Literal::Boolean(true));

    assert!(Literal::Number(0.0f32.to_bits()).is_falsy());
    assert!(Literal::String(String::new()).is_falsy());
    assert!(!Literal::Nil.is_falsy());
    assert!(!Literal::Boolean(false).is_falsy());
}

#[test]
fn division_by_zero_is_not_an_error() {
    assert_eq!(
        get_parsed_expr("1 / 0"),
        Literal::Number((1.0f32 / 0.0f32).to_bits())
    );
}

#[test]
fn error_reporting_renders_line_and_message() {
    assert_eq!(
        Interpreter::error(2, "something broke".to_string()),
        "[line 2] Error : something broke".to_string()
    );
    assert_eq!(
        Interpreter::report(10, "lexer".to_string(), "bad input".to_string()),
        "[line 10] Error lexer: bad input".to_string()
    );
    assert_eq!(
        Interpreter::error(4294967295, "m".to_string()),
        "[line 4294967295] Error : m".to_string()
    );
}
