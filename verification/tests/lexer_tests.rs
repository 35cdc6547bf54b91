use lox_lib::lexer::{Lexer, LexicalError, Token, TokenType};

#[test]
fn lexer_error_test() {
    let mut lexer = Lexer::new();
    let result = lexer.lex("@");
    match result {
        Err(LexicalError::UnexpectedCharacter { ch, line }) => {
            assert_eq!(ch, '@');
            assert_eq!(line, 1);
        }
        other => panic!("expected an unexpected-character error, got {:?}", other),
    }
}

#[test]
fn lexer_lexer_error_test() {
    let mut lexer = Lexer::new();
    let result = lexer.lex("\"unterminated");
    match result {
        Err(LexicalError::UnterminatedString { text, line }) => {
            assert_eq!(text, "unterminated".to_string());
            assert_eq!(line, 1);
        }
        other => panic!("expected an unterminated-string error, got {:?}", other),
    }
}

#[test]
fn lexer_lex_line_error_test() {
    let mut lexer = Lexer::new();
    let result = lexer.lex("a $ b");
    match result {
        Err(LexicalError::UnexpectedCharacter { ch, line }) => {
            assert_eq!(ch, '$');
            assert_eq!(line, 1);
        }
        other => panic!("expected an unexpected-character error, got {:?}", other),
    }
}

#[test]
fn lexer_lexer_lex_line_error_test() {
    let mut lexer = Lexer::new();
    let result = lexer.lex("1 + 2\n@");
    match result {
        Err(LexicalError::UnexpectedCharacter { ch, line }) => {
            assert_eq!(ch, '@');
            assert_eq!(line, 2);
        }
        other => panic!("expected an unexpected-character error, got {:?}", other),
    }
}

#[test]
fn lexer_lex_line_proper_test() {
    let source_code = "({ )}\n+ - !";
    let mut lexer = Lexer::new();
    let tokens = lexer.lex(source_code).unwrap();
    let expected = vec![
        Token::new(TokenType::LeftParen, "(".to_string(), 1),
        Token::new(TokenType::LeftBrace, "{".to_string(), 1),
        Token::new(TokenType::RightParen, ")".to_string(), 1),
        Token::new(TokenType::RightBrace, "}".to_string(), 1),
        Token::new(TokenType::Plus, "+".to_string(), 2),
        Token::new(TokenType::Minus, "-".to_string(), 2),
        Token::new(TokenType::Bang, "!".to_string(), 2),
    ];

    tokens.iter().zip(expected.iter()).for_each(|(t, e)| {
        assert_eq!(t, e);
    });
}

#[test]
fn lexer_lexer_lex_line_proper_test() {
    let source_code = "({ )}\n+ - !";
    let mut lexer = Lexer::new();
    let tokens = lexer.lex(source_code).unwrap();
    // The end-of-file marker carries the line of the last token produced.
    let expected = vec![
        Token::new(TokenType::LeftParen, "(".to_string(), 1),
        Token::new(TokenType::LeftBrace, "{".to_string(), 1),
        Token::new(TokenType::RightParen, ")".to_string(), 1),
        Token::new(TokenType::RightBrace, "}".to_string(), 1),
        Token::new(TokenType::Plus, "+".to_string(), 2),
        Token::new(TokenType::Minus, "-".to_string(), 2),
        Token::new(TokenType::Bang, "!".to_string(), 2),
        Token::new(TokenType::Eof, "".to_string(), 2),
    ];
    assert_eq!(tokens.len(), expected.len());
    tokens.iter().zip(expected.iter()).for_each(|(t, e)| {
        assert_eq!(t, e);
    });
}

#[test]
fn lext_identifiers() {
    let source_code = "foobar      ";
    let mut lexer = Lexer::new();
    let tokens = lexer.lex(source_code).unwrap();

    let expected = vec![
        Token::new(TokenType::Identifier, "foobar".to_string(), 1),
        Token::new(TokenType::Eof, "".to_string(), 1),
    ];

    tokens.iter().zip(expected.iter()).for_each(|(t, e)| {
        assert_eq!(t, e);
    });
}

#[test]
fn lex_no_whitespace_test() {
    let source_code = "a+b";
    let mut lexer = Lexer::new();
    let tokens = lexer.lex(source_code).unwrap();

    let expected = vec![
        Token::new(TokenType::Identifier, "a".to_string(), 1),
        Token::new(TokenType::Plus, "+".to_string(), 1),
        Token::new(TokenType::Identifier, "b".to_string(), 1),
        Token::new(TokenType::Eof, "".to_string(), 1),
    ];

    tokens
        .iter()
        .zip(expected.iter())
        .for_each(|(token, expected_token)| {
            assert_eq!(token, expected_token);
        });

    let source_code = "a==b";
    let tokens = lexer.lex(source_code).unwrap();

    let expected = vec![
        Token::new(TokenType::Identifier, "a".to_string(), 1),
        Token::new(TokenType::EqualEqual, "==".to_string(), 1),
        Token::new(TokenType::Identifier, "b".to_string(), 1),
        Token::new(TokenType::Eof, "".to_string(), 1),
    ];

    tokens
        .iter()
        .zip(expected.iter())
        .for_each(|(token, expected_token)| {
            assert_eq!(token, expected_token);
        });

    let source_code = "a!=b";
    let tokens = lexer.lex(source_code).unwrap();

    let expected = vec![
        Token::new(TokenType::Identifier, "a".to_string(), 1),
        Token::new(TokenType::BangEqual, "!=".to_string(), 1),
        Token::new(TokenType::Identifier, "b".to_string(), 1),
        Token::new(TokenType::Eof, "".to_string(), 1),
    ];

    tokens
        .iter()
        .zip(expected.iter())
        .for_each(|(token, expected_token)| {
            assert_eq!(token, expected_token);
        });

    let source_code = "123/45.45";
    let tokens = lexer.lex(source_code).unwrap();

    let expected = vec![
        Token::new(TokenType::Number(123.0f32.to_bits()), "123".to_string(), 1),
        Token::new(TokenType::Slash, "/".to_string(), 1),
        Token::new(TokenType::Number(45.45f32.to_bits()), "45.45".to_string(), 1),
        Token::new(TokenType::Eof, "".to_string(), 1),
    ];

    tokens
        .iter()
        .zip(expected.iter())
        .for_each(|(token, expected_token)| {
            assert_eq!(token, expected_token);
        });
}

#[test]
fn lexer_lex_no_whitespace_test() {
    let source_code = "a+b";
    let mut lexer = Lexer::new();
    let tokens = lexer.lex(source_code).unwrap();

    let expected = vec![
        Token::new(TokenType::Identifier, "a".to_string(), 1),
        Token::new(TokenType::Plus, "+".to_string(), 1),
        Token::new(TokenType::Identifier, "b".to_string(), 1),
    ];

    tokens
        .iter()
        .zip(expected.iter())
        .for_each(|(token, expected_token)| {
            assert_eq!(token, expected_token);
        });

    let source_code = "a==b";
    let tokens = lexer.lex(source_code).unwrap();

    let expected = vec![
        Token::new(TokenType::Identifier, "a".to_string(), 1),
        Token::new(TokenType::EqualEqual, "==".to_string(), 1),
        Token::new(TokenType::Identifier, "b".to_string(), 1),
    ];

    tokens
        .iter()
        .zip(expected.iter())
        .for_each(|(token, expected_token)| {
            assert_eq!(token, expected_token);
        });

    let source_code = "a!=b";
    let tokens = lexer.lex(source_code).unwrap();

    let expected = vec![
        Token::new(TokenType::Identifier, "a".to_string(), 1),
        Token::new(TokenType::BangEqual, "!=".to_string(), 1),
        Token::new(TokenType::Identifier, "b".to_string(), 1),
    ];

    tokens
        .iter()
        .zip(expected.iter())
        .for_each(|(token, expected_token)| {
            assert_eq!(token, expected_token);
        });
}

#[test]
fn lexer_number_literal_test() {
    let number_literals = "123.456\n123";
    let mut lexer = Lexer::new();
    let tokens = lexer.lex(number_literals).unwrap();
    let expected = vec![
        Token::new(TokenType::Number(123.456f32.to_bits()), "123.456".to_string(), 1),
        Token::new(TokenType::Number(123.0f32.to_bits()), "123".to_string(), 2),
        Token::new(TokenType::Eof, "".to_string(), 2),
    ];

    tokens
        .iter()
        .zip(expected.iter())
        .for_each(|(token, expected_token)| {
            assert_eq!(token, expected_token);
        });
}

#[test]
fn lexer_lexer_number_literal_test() {
    let number_literals = "123.456\n123";
    let mut lexer = Lexer::new();
    let tokens = lexer.lex(number_literals).unwrap();
    let expected = vec![
        Token::new(TokenType::Number(123.456f32.to_bits()), "123.456".to_string(), 1),
        Token::new(TokenType::Number(123.0f32.to_bits()), "123".to_string(), 2),
    ];

    tokens
        .iter()
        .zip(expected.iter())
        .for_each(|(token, expected_token)| {
            assert_eq!(token, expected_token);
        });
}

#[test]
fn lexer_string_literal_test() {
    let source_code = "var a = \"hello world\"";
    let mut lexer = Lexer::new();
    let tokens = lexer.lex(source_code).unwrap();

    let expected = vec![
        Token::new(TokenType::Var, "var".to_string(), 1),
        Token::new(TokenType::Identifier, "a".to_string(), 1),
        Token::new(TokenType::Equal, "=".to_string(), 1),
        Token::new(
            TokenType::String("hello world".to_string()),
            "\"hello world\"".to_string(),
            1,
        ),
        Token::new(TokenType::Eof, "".to_string(), 1),
    ];

    tokens
        .iter()
        .zip(expected.iter())
        .for_each(|(token, expected_token)| {
            assert_eq!(token, expected_token);
        });
}

#[test]
fn lexer_lexer_string_literal_test() {
    // Only a double quote delimits a string: a single quote inside one is
    // ordinary interior text, and a bare single quote is no token at all.
    let mut lexer = Lexer::new();
    let tokens = lexer.lex("\"a'b\"").unwrap();
    let expected = vec![
        Token::new(TokenType::String("a'b".to_string()), "\"a'b\"".to_string(), 1),
        Token::new(TokenType::Eof, "".to_string(), 1),
    ];
    assert_eq!(tokens, expected);

    let result = lexer.lex("'hello'");
    match result {
        Err(LexicalError::UnexpectedCharacter { ch, line }) => {
            assert_eq!(ch, '\'');
            assert_eq!(line, 1);
        }
        other => panic!("expected an unexpected-character error, got {:?}", other),
    }
}

#[test]
fn comment_test() {
    let comment = "// this is a comment";
    let mut lexer = Lexer::new();
    let tokens = lexer.lex(comment).unwrap();
    // the end-of-file token is always in the returned token
    assert_eq!(
        tokens.get(0).unwrap(),
        &Token::new(TokenType::Eof, "".to_string(), 0)
    );

    let source_code = "// this is a comment\n a + b = 0";
    let tokens = lexer.lex(source_code).unwrap();

    let expected = vec![
        Token::new(TokenType::Identifier, "a".to_string(), 2),
        Token::new(TokenType::Plus, "+".to_string(), 2),
        Token::new(TokenType::Identifier, "b".to_string(), 2),
        Token::new(TokenType::Equal, "=".to_string(), 2),
        Token::new(TokenType::Number(0.0f32.to_bits()), "0".to_string(), 2),
        Token::new(TokenType::Eof, "".to_string(), 2),
    ];

    tokens
        .iter()
        .zip(expected.iter())
        .for_each(|(token, expected_token)| {
            assert_eq!(token, expected_token);
        });
}

#[test]
fn lexer_comment_test() {
    let comment = "// this is a comment";
    let mut lexer = Lexer::new();
    let tokens = lexer.lex(comment).unwrap();
    // A comment-only input yields the end-of-file marker alone.
    assert_eq!(tokens.len(), 1);
    assert_eq!(tokens[0], Token::new(TokenType::Eof, "".to_string(), 0));

    let source_code = "// this is a comment\n a + b = 0";
    let tokens = lexer.lex(source_code).unwrap();

    let expected = vec![
        Token::new(TokenType::Identifier, "a".to_string(), 2),
        Token::new(TokenType::Plus, "+".to_string(), 2),
        Token::new(TokenType::Identifier, "b".to_string(), 2),
        Token::new(TokenType::Equal, "=".to_string(), 2),
        Token::new(TokenType::Number(0.0f32.to_bits()), "0".to_string(), 2),
    ];

    tokens
        .iter()
        .zip(expected.iter())
        .for_each(|(token, expected_token)| {
            assert_eq!(token, expected_token);
        });
}

#[test]
fn digits_only_input_lexes_to_one_number() {
    let mut lexer = Lexer::new();
    let tokens = lexer.lex("1234567").unwrap();
    let expected = vec![
        Token::new(TokenType::Number(1234567.0f32.to_bits()), "1234567".to_string(), 1),
        Token::new(TokenType::Eof, "".to_string(), 1),
    ];
    assert_eq!(tokens, expected);
}

#[test]
fn empty_input_yields_eof_on_line_zero() {
    let mut lexer = Lexer::new();
    let tokens = lexer.lex("").unwrap();
    assert_eq!(tokens, vec![Token::new(TokenType::Eof, "".to_string(), 0)]);
}

#[test]
fn invalid_number_literal_is_an_error() {
    let mut lexer = Lexer::new();
    let result = lexer.lex("1.2.3");
    match result {
        Err(LexicalError::InvalidNumber { text, line }) => {
            assert_eq!(text, "1.2.3".to_string());
            assert_eq!(line, 1);
        }
        other => panic!("expected an invalid-number error, got {:?}", other),
    }
}

#[test]
fn lexical_error_messages() {
    let err = LexicalError::UnexpectedCharacter { ch: '@', line: 3 };
    assert_eq!(err.message(), "unexpected character! @".to_string());
    assert_eq!(err.line(), 3);
    let err = LexicalError::InvalidNumber {
        text: "1.2.3".to_string(),
        line: 2,
    };
    assert_eq!(err.message(), "Invalid number literal 1.2.3".to_string());
}

#[test]
fn two_character_operators_bind_over_single() {
    let mut lexer = Lexer::new();
    let tokens = lexer.lex("<= >= == != < > = !").unwrap();
    let kinds: Vec<TokenType> = tokens.into_iter().map(|t| t.token_type).collect();
    assert_eq!(
        kinds,
        vec![
            TokenType::LessEqual,
            TokenType::GreaterEqual,
            TokenType::EqualEqual,
            TokenType::BangEqual,
            TokenType::Less,
            TokenType::Greater,
            TokenType::Equal,
            TokenType::Bang,
            TokenType::Eof,
        ]
    );
}

#[test]
fn identifiers_may_hold_any_letters() {
    let mut lexer = Lexer::new();
    let tokens = lexer.lex("caf\u{e9}_1").unwrap();
    let expected = vec![
        Token::new(TokenType::Identifier, "caf\u{e9}_1".to_string(), 1),
        Token::new(TokenType::Eof, "".to_string(), 1),
    ];
    assert_eq!(tokens, expected);
}

#[test]
fn a_digit_outside_ascii_starts_an_invalid_number() {
    // An Arabic-Indic digit is numeric, so it begins a numeric literal,
    // but the accumulated text does not parse as a decimal number.
    let mut lexer = Lexer::new();
    let result = lexer.lex("\u{663}");
    match result {
        Err(LexicalError::InvalidNumber { text, line }) => {
            assert_eq!(text, "\u{663}".to_string());
            assert_eq!(line, 1);
        }
        other => panic!("expected an invalid-number error, got {:?}", other),
    }
}

#[test]
fn keywords_are_recognized() {
    let mut lexer = Lexer::new();
    let tokens = lexer
        .lex("and class else false fun for if nil or print return super this true var while foo")
        .unwrap();
    let kinds: Vec<TokenType> = tokens.into_iter().map(|t| t.token_type).collect();
    assert_eq!(
        kinds,
        vec![
            TokenType::And,
            TokenType::Class,
            TokenType::Else,
            TokenType::False,
            TokenType::Fun,
            TokenType::For,
            TokenType::If,
            TokenType::Nil,
            TokenType::Or,
            TokenType::Print,
            TokenType::Return,
            TokenType::Super,
            TokenType::This,
            TokenType::True,
            TokenType::Var,
            TokenType::While,
            TokenType::Identifier,
            TokenType::Eof,
        ]
    );
}
