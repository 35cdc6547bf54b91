use lox_lib::ast::{ExprNode, Literal, Operator, StmtNode};
use lox_lib::lexer::{Token, TokenType};
use lox_lib::parser::Parser;

#[test]
fn parser_grouping_test() {
    // "( 1 )"
    let mut parser = Parser::new();
    let mut tokens = vec![
        Token::new(TokenType::LeftParen, "(".to_string(), 1),
        Token::new(TokenType::Number(1.0f32.to_bits()), "1".to_string(), 1),
        Token::new(TokenType::RightParen, ")".to_string(), 1),
    ];
    let node = parser.expression(&mut tokens).unwrap();
    let expected_node = ExprNode::Grouping(Box::new(ExprNode::Literal(Literal::Number(
        1.0f32.to_bits(),
    ))));
    assert_eq!(node, expected_node);
    assert_eq!(tokens.len(), 0);
}

#[test]
fn grouping_test() {
    // A grouping missing its closing parenthesis fails the parse with a
    // diagnostic asking for it.
    let mut parser = Parser::new();
    let mut tokens = vec![
        Token::new(TokenType::LeftParen, "(".to_string(), 1),
        Token::new(TokenType::Number(1.0f32.to_bits()), "1".to_string(), 1),
        Token::new(TokenType::Semicolon, ";".to_string(), 1),
        Token::new(TokenType::Eof, "".to_string(), 1),
    ];
    let result = parser.expression(&mut tokens);
    match result {
        Err(message) => {
            assert_eq!(message, "Expected ')' after expression".to_string());
        }
        Ok(node) => panic!("expected a parse failure, got {:?}", node),
    }
}

#[test]
/// testing that a statement without a semicolon returns errors as expected
fn statement_semi_colon_test() {
    let mut parser = Parser::new();
    let mut tokens = vec![
        Token::new(TokenType::Number(1.0f32.to_bits()), "1".to_string(), 1),
        Token::new(TokenType::Plus, "+".to_string(), 1),
        Token::new(TokenType::Number(2.0f32.to_bits()), "2".to_string(), 1),
        Token::new(TokenType::Eof, "".to_string(), 1),
    ];
    let node = parser.statement(&mut tokens);
    assert_eq!(
        node,
        StmtNode::ErrStmt("Expected ';' after an expression".to_string())
    );

    let mut tokens = vec![
        Token::new(TokenType::Print, "print".to_string(), 1),
        Token::new(TokenType::Number(1.0f32.to_bits()), "1".to_string(), 1),
        Token::new(TokenType::Eof, "".to_string(), 1),
    ];
    let node = parser.statement(&mut tokens);
    assert_eq!(
        node,
        StmtNode::ErrStmt("Expected ';' after a statement".to_string())
    );
}

#[test]
/// tests that using a print statement and an expression statement returns the expected syntax tree
fn statement_test() {
    // "print(\"hello world\")";
    let mut tokens = vec![
        Token::new(TokenType::Print, "print".to_string(), 1),
        Token::new(TokenType::LeftParen, "(".to_string(), 1),
        Token::new(
            TokenType::String("\"hello world\"".to_string()),
            "\"hello world\"".to_string(),
            1,
        ),
        Token::new(TokenType::RightParen, ")".to_string(), 1),
        Token::new(TokenType::Semicolon, ";".to_string(), 1),
        Token::new(TokenType::Eof, "".to_string(), 1),
    ];

    let mut parser = Parser::new();
    let node = parser.statement(&mut tokens);
    let expected_node = StmtNode::PrintStmt(ExprNode::Grouping(Box::new(ExprNode::Literal(
        Literal::String("\"hello world\"".to_string()),
    ))));
    assert_eq!(node, expected_node);
}

#[test]
fn unary_binary_expression_test() {
    // testing the node created from the following expression
    // 1 + 2 * -3

    // (1) + (2 * (-3) )
    let mut parser = Parser::new();
    let mut tokens = vec![
        Token::new(TokenType::Number(1.0f32.to_bits()), 1.to_string(), 1),
        Token::new(TokenType::Plus, 1.to_string(), 1),
        Token::new(TokenType::Number(2.0f32.to_bits()), 1.to_string(), 1),
        Token::new(TokenType::Star, 1.to_string(), 1),
        Token::new(TokenType::Minus, 1.to_string(), 1),
        Token::new(TokenType::Number(3.0f32.to_bits()), 1.to_string(), 1),
    ];
    let node = parser.expression(&mut tokens).unwrap();
    let expected_node = ExprNode::BinaryExpr {
        operator: Operator::Add { line: 1 },
        left: Box::new(ExprNode::Literal(Literal::Number(1.0f32.to_bits()))),
        right: Box::new(ExprNode::BinaryExpr {
            operator: Operator::Multiply { line: 1 },
            left: Box::new(ExprNode::Literal(Literal::Number(2.0f32.to_bits()))),
            right: Box::new(ExprNode::UnaryExpr {
                operator: Operator::Subtract { line: 1 },
                right: Box::new(ExprNode::Literal(Literal::Number(3.0f32.to_bits()))),
            }),
        }),
    };

    assert_eq!(node, expected_node);
}

#[test]
fn crafting_interpreters_example_test() {
    // testing the node created from the following expression
    // 6 / 3 - 1
    let mut parser = Parser::new();
    let mut tokens = vec![
        Token::new(TokenType::Number(6.0f32.to_bits()), 1.to_string(), 1),
        Token::new(TokenType::Slash, 1.to_string(), 1),
        Token::new(TokenType::Number(3.0f32.to_bits()), 1.to_string(), 1),
        Token::new(TokenType::Minus, 1.to_string(), 1),
        Token::new(TokenType::Number(1.0f32.to_bits()), 1.to_string(), 1),
    ];
    let node = parser.expression(&mut tokens).unwrap();

    let expected_node = ExprNode::BinaryExpr {
        left: Box::new(ExprNode::BinaryExpr {
            left: Box::new(ExprNode::Literal(Literal::Number(6.0f32.to_bits()))),
            operator: Operator::Divide { line: 1 },
            right: Box::new(ExprNode::Literal(Literal::Number(3.0f32.to_bits()))),
        }),

        operator: Operator::Subtract { line: 1 },
        right: Box::new(ExprNode::Literal(Literal::Number(1.0f32.to_bits()))),
    };

    assert_eq!(expected_node, node);
}

#[test]
fn equality_test() {
    // testing the equality of the following expression
    // 'a' == 'b'
    let mut tokens = [
        Token::new(TokenType::String("a".to_string()), "a".to_string(), 1),
        Token::new(TokenType::EqualEqual, "==".to_string(), 1),
        Token::new(TokenType::String("b".to_string()), "b".to_string(), 1),
    ]
    .to_vec();
    let expected_node = ExprNode::BinaryExpr {
        operator: Operator::EqualEqual { line: 1 },
        left: Box::new(ExprNode::Literal(Literal::String("a".to_string()))),
        right: Box::new(ExprNode::Literal(Literal::String("b".to_string()))),
    };
    let mut parser = Parser::new();
    let node = parser.expression(&mut tokens).unwrap();
    assert_eq!(node, expected_node);
}

#[test]
fn parse_produces_statements_until_eof() {
    let mut parser = Parser::new();
    let tokens = vec![
        Token::new(TokenType::Print, "print".to_string(), 1),
        Token::new(TokenType::Number(1.0f32.to_bits()), "1".to_string(), 1),
        Token::new(TokenType::Semicolon, ";".to_string(), 1),
        Token::new(TokenType::Number(2.0f32.to_bits()), "2".to_string(), 1),
        Token::new(TokenType::Semicolon, ";".to_string(), 1),
        Token::new(TokenType::Eof, "".to_string(), 1),
    ];
    let statements = parser.parse(tokens);
    let expected = vec![
        StmtNode::PrintStmt(ExprNode::Literal(Literal::Number(1.0f32.to_bits()))),
        StmtNode::ExprStmt(ExprNode::Literal(Literal::Number(2.0f32.to_bits()))),
    ];
    assert_eq!(statements, expected);
}

#[test]
fn parse_captures_missing_semicolon_as_error_statement() {
    let mut parser = Parser::new();
    let tokens = vec![
        Token::new(TokenType::Number(1.0f32.to_bits()), "1".to_string(), 1),
        Token::new(TokenType::Plus, "+".to_string(), 1),
        Token::new(TokenType::Number(2.0f32.to_bits()), "2".to_string(), 1),
        Token::new(TokenType::Eof, "".to_string(), 1),
    ];
    let statements = parser.parse(tokens);
    assert_eq!(
        statements,
        vec![StmtNode::ErrStmt("Expected ';' after an expression".to_string())]
    );
}

#[test]
fn operator_conversion_folds_combined_comparisons() {
    let ge = Token::new(TokenType::GreaterEqual, ">=".to_string(), 7);
    assert_eq!(Operator::try_from(&ge), Ok(Operator::GreaterThan { line: 7 }));
    let le = Token::new(TokenType::LessEqual, "<=".to_string(), 7);
    assert_eq!(Operator::try_from(&le), Ok(Operator::LessThan { line: 7 }));
    let plus = Token::new(TokenType::Plus, "+".to_string(), 2);
    assert_eq!(Operator::try_from(&plus), Ok(Operator::Add { line: 2 }));
    let eof = Token::new(TokenType::Eof, "".to_string(), 1);
    assert_eq!(
        Operator::try_from(&eof),
        Err("Eof is not an operator".to_string())
    );
}
