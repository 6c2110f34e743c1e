use baton::basic::parser::{
    AstNode, BinaryExpData, BinaryOperator, FunctionDeclData, IfElseData, Parameter, Parser, ParserError, Type,
};
use baton::basic::scanner::Token;

#[test]
fn parser_test_parse_simple_function() {
    let tokens = vec![
        Token::IntKeyword,
        Token::Identifier("main".to_string()),
        Token::LeftParen,
        Token::RightParen,
        Token::LeftBrace,
        Token::Return,
        Token::IntNumber("42".to_string()),
        Token::Semicolon,
        Token::RightBrace,
    ];

    let mut parser = Parser::new(&tokens);
    let ast = parser.parse().unwrap();

    let expected = AstNode::Programm(vec![AstNode::FunctionDecl(FunctionDeclData {
        name: "main".to_string(),
        return_type: Type::Int,
        parameter: Vec::new(),
        body: Box::new(AstNode::BlockStatement(vec![AstNode::ReturnStatement(
            Box::new(AstNode::IntLiteralExpr(42)),
        )])),
    })]);

    assert_eq!(ast, expected);
}

#[test]
fn parser_test_parse_simple_function_with_paramter() {
    let tokens = vec![
        Token::IntKeyword,
        Token::Identifier("main".to_string()),
        Token::LeftParen,
        Token::IntKeyword,
        Token::Identifier("a".to_string()),
        Token::Comma,
        Token::IntKeyword,
        Token::Identifier("b".to_string()),
        Token::RightParen,
        Token::LeftBrace,
        Token::Return,
        Token::IntNumber("42".to_string()),
        Token::Semicolon,
        Token::RightBrace,
    ];

    let mut parser = Parser::new(&tokens);
    let ast = parser.parse().unwrap();

    let expected = AstNode::Programm(vec![AstNode::FunctionDecl(FunctionDeclData {
        name: "main".to_string(),
        return_type: Type::Int,
        parameter: vec![
            Parameter {
                name: "a".to_string(),
                param_typ: Type::Int,
            },
            Parameter {
                name: "b".to_string(),
                param_typ: Type::Int,
            },
        ],
        body: Box::new(AstNode::BlockStatement(vec![AstNode::ReturnStatement(
            Box::new(AstNode::IntLiteralExpr(42)),
        )])),
    })]);

    assert_eq!(ast, expected);
}

#[test]
fn parser_test_parser_unexpected_eof() {
    let tokens = vec![Token::IntKeyword, Token::Identifier("main".to_string())];

    let result = Parser::new(&tokens).parse();
    assert_eq!(
        result,
        Err(ParserError::NotImplemented(
            "Global variable parsing not implemented".to_string()
        ))
    );
}

#[test]
fn parser_test_parser_invalid_int_literal() {
    let tokens = vec![
        Token::IntKeyword,
        Token::Identifier("main".to_string()),
        Token::LeftParen,
        Token::RightParen,
        Token::LeftBrace,
        Token::Return,
        Token::IntNumber("999999".to_string()),
        Token::Semicolon,
        Token::RightBrace,
    ];

    let result = Parser::new(&tokens).parse();
    assert_eq!(
        result,
        Err(ParserError::InvalidIntLiteral("999999".to_string()))
    );
}

#[test]
fn parser_test_parser_unexpected_global_token() {
    let tokens = vec![Token::Semicolon];

    let result = Parser::new(&tokens).parse();
    assert_eq!(
        result,
        Err(ParserError::UnexpectedToken {
            expected: "type keyword (int, bool, float, string)".to_string(),
            found: "Semicolon".to_string(),
        })
    );
}

#[test]
fn parser_test_parser_missing_left_brace() {
    let tokens = vec![
        Token::IntKeyword,
        Token::Identifier("main".to_string()),
        Token::LeftParen,
        Token::RightParen,
        Token::Return,
        Token::IntNumber("0".to_string()),
        Token::Semicolon,
        Token::RightBrace,
    ];

    let result = Parser::new(&tokens).parse();
    assert_eq!(
        result,
        Err(ParserError::UnexpectedToken {
            expected: "'{'".to_string(),
            found: "Return".to_string(),
        })
    );
}

#[test]
fn parser_test_parser_not_implemented_global_var() {
    let tokens = vec![
        Token::IntKeyword,
        Token::Identifier("global_var".to_string()),
        Token::Semicolon,
    ];

    let result = Parser::new(&tokens).parse();
    assert_eq!(
        result,
        Err(ParserError::NotImplemented(
            "Global variable parsing not implemented".to_string()
        ))
    );
}

#[test]
fn parser_test_parse_function_with_parameter() {
    let tokens = vec![
        Token::IntKeyword,
        Token::Identifier("add".to_string()),
        Token::LeftParen,
        Token::IntKeyword,
        Token::Identifier("x".to_string()),
        Token::RightParen,
        Token::LeftBrace,
        Token::Return,
        Token::IntNumber("10".to_string()),
        Token::Semicolon,
        Token::RightBrace,
    ];

    let mut parser = Parser::new(&tokens);
    let ast = parser.parse().unwrap();

    let expected = AstNode::Programm(vec![AstNode::FunctionDecl(FunctionDeclData {
        name: "add".to_string(),
        return_type: Type::Int,
        parameter: vec![Parameter {
            name: "x".to_string(),
            param_typ: Type::Int,
        }],
        body: Box::new(AstNode::BlockStatement(vec![AstNode::ReturnStatement(
            Box::new(AstNode::IntLiteralExpr(10)),
        )])),
    })]);

    assert_eq!(ast, expected);
}

#[test]
fn parser_test_parse_empty_return_statement() {
    let tokens = vec![
        Token::IntKeyword,
        Token::Identifier("main".to_string()),
        Token::LeftParen,
        Token::RightParen,
        Token::LeftBrace,
        Token::Return,
        Token::Semicolon,
        Token::RightBrace,
    ];

    let mut parser = Parser::new(&tokens);
    let ast = parser.parse().unwrap();

    let expected = AstNode::Programm(vec![AstNode::FunctionDecl(FunctionDeclData {
        name: "main".to_string(),
        return_type: Type::Int,
        parameter: Vec::new(),
        body: Box::new(AstNode::BlockStatement(vec![AstNode::ReturnStatement(
            Box::new(AstNode::IntLiteralExpr(0)),
        )])),
    })]);

    assert_eq!(ast, expected);
}

#[test]
fn parser_test_parser_eof_inside_parameters() {
    let tokens = vec![
        Token::IntKeyword,
        Token::Identifier("main".to_string()),
        Token::LeftParen,
        Token::IntKeyword,
    ];

    let result = Parser::new(&tokens).parse();
    assert_eq!(result, Err(ParserError::UnexpectedEoF));
}

#[test]
fn parser_test_parser_eof_inside_block() {
    let tokens = vec![
        Token::IntKeyword,
        Token::Identifier("main".to_string()),
        Token::LeftParen,
        Token::RightParen,
        Token::LeftBrace,
        Token::Return,
        Token::IntNumber("0".to_string()),
        Token::Semicolon,
    ];

    let result = Parser::new(&tokens).parse();
    assert_eq!(result, Err(ParserError::UnexpectedEoF));
}

#[test]
fn parser_test_parser_invalid_return_expression() {
    let tokens = vec![
        Token::IntKeyword,
        Token::Identifier("main".to_string()),
        Token::LeftParen,
        Token::RightParen,
        Token::LeftBrace,
        Token::Return,
        Token::LeftParen,
        Token::Semicolon,
        Token::RightBrace,
    ];

    let result = Parser::new(&tokens).parse();
    assert_eq!(
        result,
        Err(ParserError::UnexpectedToken {
            expected: "Int Number".to_string(),
            found: "LeftParen".to_string(),
        })
    );
}

#[test]
fn parser_test_parse_complex_function_expression() {
    let tokens = vec![
        Token::IntKeyword,
        Token::Identifier("compute".to_string()),
        Token::LeftParen,
        Token::RightParen,
        Token::LeftBrace,
        Token::Return,
        Token::IntNumber("10".to_string()),
        Token::Plus,
        Token::IntNumber("20".to_string()),
        Token::Star,
        Token::IntNumber("2".to_string()),
        Token::Semicolon,
        Token::RightBrace,
    ];

    let mut parser = Parser::new(&tokens);
    let ast = parser.parse().unwrap();

    let expected = AstNode::Programm(vec![AstNode::FunctionDecl(FunctionDeclData {
        name: "compute".to_string(),
        return_type: Type::Int,
        parameter: Vec::new(),
        body: Box::new(AstNode::BlockStatement(vec![AstNode::ReturnStatement(
            Box::new(AstNode::BinaryExpr(BinaryExpData {
                left: Box::new(AstNode::IntLiteralExpr(10)),
                right: Box::new(AstNode::BinaryExpr(BinaryExpData {
                    left: Box::new(AstNode::IntLiteralExpr(20)),
                    right: Box::new(AstNode::IntLiteralExpr(2)),
                    operator: BinaryOperator::Mul,
                })),
                operator: BinaryOperator::Add,
            })),
        )])),
    })]);

    assert_eq!(ast, expected);
}

#[test]
fn parser_test_parse_if_else_statement() {
    let tokens = vec![
        Token::IntKeyword,
        Token::Identifier("main".to_string()),
        Token::LeftParen,
        Token::RightParen,
        Token::LeftBrace,
        Token::If,
        Token::LeftParen,
        Token::IntNumber("5".to_string()),
        Token::LessThan,
        Token::IntNumber("10".to_string()),
        Token::RightParen,
        Token::LeftBrace,
        Token::Return,
        Token::IntNumber("1".to_string()),
        Token::Semicolon,
        Token::RightBrace,
        Token::Else,
        Token::LeftBrace,
        Token::Return,
        Token::IntNumber("0".to_string()),
        Token::Semicolon,
        Token::RightBrace,
        Token::RightBrace,
    ];

    let mut parser = Parser::new(&tokens);
    let ast = parser.parse().unwrap();

    let expected = AstNode::Programm(vec![AstNode::FunctionDecl(FunctionDeclData {
        name: "main".to_string(),
        return_type: Type::Int,
        parameter: Vec::new(),
        body: Box::new(AstNode::BlockStatement(vec![AstNode::IfElseStatement(
            IfElseData {
                condition_expr: Box::new(AstNode::BinaryExpr(BinaryExpData {
                    left: Box::new(AstNode::IntLiteralExpr(5)),
                    right: Box::new(AstNode::IntLiteralExpr(10)),
                    operator: BinaryOperator::LessThan,
                })),
                if_branch: Box::new(AstNode::BlockStatement(vec![AstNode::ReturnStatement(
                    Box::new(AstNode::IntLiteralExpr(1)),
                )])),
                else_branch: Some(Box::new(AstNode::BlockStatement(vec![
                    AstNode::ReturnStatement(Box::new(AstNode::IntLiteralExpr(0))),
                ]))),
            },
        )])),
    })]);

    assert_eq!(ast, expected);
}

#[test]
fn parser_test_parse_if_without_else() {
    let tokens = vec![
        Token::IntKeyword,
        Token::Identifier("main".to_string()),
        Token::LeftParen,
        Token::RightParen,
        Token::LeftBrace,
        Token::If,
        Token::LeftParen,
        Token::Identifier("x".to_string()),
        Token::DoubleEqual,
        Token::IntNumber("0".to_string()),
        Token::RightParen,
        Token::LeftBrace,
        Token::Return,
        Token::IntNumber("42".to_string()),
        Token::Semicolon,
        Token::RightBrace,
        Token::RightBrace,
    ];

    let mut parser = Parser::new(&tokens);
    let ast = parser.parse().unwrap();

    if let AstNode::Programm(nodes) = ast {
        if let AstNode::FunctionDecl(func) = &nodes[0] {
            if let AstNode::BlockStatement(stmts) = &*func.body {
                if let AstNode::IfElseStatement(if_data) = &stmts[0] {
                    assert!(if_data.else_branch.is_none());
                    return;
                }
            }
        }
    }
    panic!("AST structure did not match expected IfElseStatement layout");
}
