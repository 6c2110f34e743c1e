use baton::basic::parser::{
    AssignmentData, AstNode, BinaryExpData, BinaryOperator, CallData, FunctionDeclData, IfElseData, Parameter, Type,
    VarDeclData,
};
use baton::basic::semantic_analyzer::{Analyzer, SemanticError};

#[test]
fn semantic_analyzer_test_semantic_valid_function() {
    let ast = AstNode::Programm(vec![AstNode::FunctionDecl(FunctionDeclData {
        name: "main".to_string(),
        return_type: Type::Int,
        parameter: Vec::new(),
        body: Box::new(AstNode::BlockStatement(vec![AstNode::ReturnStatement(
            Box::new(AstNode::IntLiteralExpr(42)),
        )])),
    })]);
    let mut analyzer = Analyzer::new();
    let result = analyzer.analyze(ast);

    assert!(result.is_ok());
}

#[test]
fn semantic_analyzer_test_multiple_valid_functions() {
    let ast = AstNode::Programm(vec![
        AstNode::FunctionDecl(FunctionDeclData {
            name: "foo".to_string(),
            return_type: Type::Int,
            parameter: Vec::new(),
            body: Box::new(AstNode::BlockStatement(vec![AstNode::ReturnStatement(
                Box::new(AstNode::IntLiteralExpr(10)),
            )])),
        }),
        AstNode::FunctionDecl(FunctionDeclData {
            name: "main".to_string(),
            return_type: Type::Int,
            parameter: Vec::new(),
            body: Box::new(AstNode::BlockStatement(vec![AstNode::ReturnStatement(
                Box::new(AstNode::IntLiteralExpr(42)),
            )])),
        }),
    ]);
    let mut analyzer = Analyzer::new();
    let result = analyzer.analyze(ast);

    assert!(result.is_ok());
}

#[test]
fn semantic_analyzer_test_nested_blocks() {
    let ast = AstNode::Programm(vec![AstNode::FunctionDecl(FunctionDeclData {
        name: "main".to_string(),
        return_type: Type::Int,
        parameter: Vec::new(),
        body: Box::new(AstNode::BlockStatement(vec![AstNode::BlockStatement(
            vec![AstNode::BlockStatement(vec![AstNode::ReturnStatement(
                Box::new(AstNode::IntLiteralExpr(42)),
            )])],
        )])),
    })]);
    let mut analyzer = Analyzer::new();
    let result = analyzer.analyze(ast);

    assert!(result.is_ok());
}
#[test]
fn semantic_analyzer_test_semantic_error_redefinition() {
    let ast = AstNode::Programm(vec![
        AstNode::FunctionDecl(FunctionDeclData {
            name: "main".to_string(),
            return_type: Type::Int,
            parameter: Vec::new(),
            body: Box::new(AstNode::BlockStatement(vec![AstNode::ReturnStatement(
                Box::new(AstNode::IntLiteralExpr(42)),
            )])),
        }),
        AstNode::FunctionDecl(FunctionDeclData {
            name: "main".to_string(),
            return_type: Type::Int,
            parameter: Vec::new(),
            body: Box::new(AstNode::BlockStatement(vec![AstNode::ReturnStatement(
                Box::new(AstNode::IntLiteralExpr(0)),
            )])),
        }),
    ]);
    let mut analyzer = Analyzer::new();
    let result = analyzer.analyze(ast);

    assert!(result.is_err());
    match result {
        Err(SemanticError::Redefinition(_)) => {}
        _ => panic!("Expected Redefinition error, got something else"),
    }
}
#[test]
fn semantic_analyzer_test_semantic_error_invalid_return_expression() {
    let ast = AstNode::Programm(vec![AstNode::FunctionDecl(FunctionDeclData {
        name: "main".to_string(),
        return_type: Type::Int,
        parameter: Vec::new(),
        body: Box::new(AstNode::BlockStatement(vec![AstNode::ReturnStatement(
            Box::new(AstNode::BlockStatement(vec![])),
        )])),
    })]);
    let mut analyzer = Analyzer::new();
    let result = analyzer.analyze(ast);

    assert!(result.is_err());
    match result {
        Err(SemanticError::InvalidReturnType(_)) => {}
        _ => panic!("Expected InvalidReturnType error"),
    }
}

#[test]
fn test_semantic_valid_return_type() {
    let ast = AstNode::Programm(vec![AstNode::FunctionDecl(FunctionDeclData {
        name: "main".to_string(),
        return_type: Type::Int,
        parameter: Vec::new(),
        body: Box::new(AstNode::BlockStatement(vec![AstNode::ReturnStatement(
            Box::new(AstNode::IntLiteralExpr(42)),
        )])),
    })]);

    let mut analyzer = Analyzer::new();
    let result = analyzer.analyze(ast);

    assert!(result.is_ok());
}

#[test]
fn semantic_analyzer_test_semantic_valid_if_else() {
    let ast = AstNode::Programm(vec![AstNode::FunctionDecl(FunctionDeclData {
        name: "main".to_string(),
        return_type: Type::Int,
        parameter: Vec::new(),
        body: Box::new(AstNode::BlockStatement(vec![
            AstNode::VarDeclStatement(VarDeclData {
                name: "x".to_string(),
                var_typ: Type::Int,
                initializer: Some(Box::new(AstNode::IntLiteralExpr(10))),
            }),
            AstNode::IfElseStatement(IfElseData {
                condition_expr: Box::new(AstNode::BinaryExpr(BinaryExpData {
                    left: Box::new(AstNode::VariableExpr("x".to_string())),
                    right: Box::new(AstNode::IntLiteralExpr(5)),
                    operator: BinaryOperator::GreaterThan,
                })),
                if_branch: Box::new(AstNode::BlockStatement(vec![AstNode::ReturnStatement(
                    Box::new(AstNode::IntLiteralExpr(1)),
                )])),
                else_branch: Some(Box::new(AstNode::BlockStatement(vec![
                    AstNode::ReturnStatement(Box::new(AstNode::IntLiteralExpr(0))),
                ]))),
            }),
        ])),
    })]);

    let mut analyzer = Analyzer::new();
    let result = analyzer.analyze(ast);
    assert!(result.is_ok());
}

#[test]
fn semantic_analyzer_test_semantic_error_undefined_variable_in_if_condition() {
    let ast = AstNode::Programm(vec![AstNode::FunctionDecl(FunctionDeclData {
        name: "main".to_string(),
        return_type: Type::Int,
        parameter: Vec::new(),
        body: Box::new(AstNode::BlockStatement(vec![AstNode::IfElseStatement(
            IfElseData {
                condition_expr: Box::new(AstNode::VariableExpr("undefined_var".to_string())),
                if_branch: Box::new(AstNode::BlockStatement(vec![AstNode::ReturnStatement(
                    Box::new(AstNode::IntLiteralExpr(0)),
                )])),
                else_branch: None,
            },
        )])),
    })]);

    let mut analyzer = Analyzer::new();
    let result = analyzer.analyze(ast);
    assert!(matches!(result, Err(SemanticError::UndefinedVariable(_))));
}

#[test]
fn semantic_analyzer_test_funtion_call() {

    let ast = AstNode::Programm(vec![
        AstNode::FunctionDecl(FunctionDeclData {
            name: "add".to_string(),
            return_type: Type::Int,
            parameter: vec![
                Parameter {
                    name: "a".to_string(),
                    param_typ: Type::Int,
                },
                Parameter {
                    name: "b".to_string(),
                    param_typ: Type::Int,
                },
            ],
            body: Box::new(AstNode::BlockStatement(vec![AstNode::ReturnStatement(
                Box::new(AstNode::BinaryExpr(BinaryExpData {
                    left: Box::new(AstNode::VariableExpr("a".to_string())),
                    right: Box::new(AstNode::VariableExpr("b".to_string())),
                    operator: BinaryOperator::Add,
                })),
            )])),
        }),
        AstNode::FunctionDecl(FunctionDeclData {
            name: "main".to_string(),
            return_type: Type::Int,
            parameter: vec![],
            body: Box::new(AstNode::BlockStatement(vec![AstNode::ReturnStatement(
                Box::new(AstNode::CallExpr(CallData {
                    name: "add".to_string(),
                    arguments: vec![AstNode::IntLiteralExpr(1), AstNode::IntLiteralExpr(3)],
                })),
            )])),
        }),
    ]);

    let mut analyzer = Analyzer::new();
    let result = analyzer.analyze(ast);
    assert!(
        result.is_ok(),
        "Der Semantic Analyzer sollte den Funktionsaufruf als gültig erkennen."
    );
}

#[test]
fn semantic_analyzer_test_semantic_valid_bool_and_float() {
    let ast = AstNode::Programm(vec![AstNode::FunctionDecl(FunctionDeclData {
        name: "main".to_string(),
        return_type: Type::Bool,
        parameter: Vec::new(),
        body: Box::new(AstNode::BlockStatement(vec![
            AstNode::VarDeclStatement(VarDeclData {
                name: "isActive".to_string(),
                var_typ: Type::Bool,
                initializer: Some(Box::new(AstNode::BoolLiteralExpr(true))),
            }),
            AstNode::VarDeclStatement(VarDeclData {
                name: "pi".to_string(),
                var_typ: Type::Float,
                initializer: Some(Box::new(AstNode::FloatLiteralExpr("3.14".to_string()))),
            }),
            AstNode::ReturnStatement(Box::new(AstNode::VariableExpr("isActive".to_string()))),
        ])),
    })]);

    let mut analyzer = Analyzer::new();
    let result = analyzer.analyze(ast);
    assert!(
        result.is_ok(),
        "Der Analyzer sollte gültige Bool- und Float-Deklarationen akzeptieren."
    );
}

#[test]
fn semantic_analyzer_test_semantic_error_assignment_type_mismatch() {
    let ast = AstNode::Programm(vec![AstNode::FunctionDecl(FunctionDeclData {
        name: "main".to_string(),
        return_type: Type::Int,
        parameter: Vec::new(),
        body: Box::new(AstNode::BlockStatement(vec![
            AstNode::VarDeclStatement(VarDeclData {
                name: "x".to_string(),
                var_typ: Type::Int,
                initializer: Some(Box::new(AstNode::IntLiteralExpr(10))),
            }),
            AstNode::AssignmentStatement(AssignmentData {
                name: "x".to_string(),
                value: Box::new(AstNode::BoolLiteralExpr(false)),
            }),
            AstNode::ReturnStatement(Box::new(AstNode::VariableExpr("x".to_string()))),
        ])),
    })]);

    let mut analyzer = Analyzer::new();
    let result = analyzer.analyze(ast);
    assert!(
        matches!(result, Err(SemanticError::NotMatchingReturnType(_))),
        "Sollte einen Typ-Fehler bei Zuweisung werfen."
    );
}

#[test]
fn semantic_analyzer_test_semantic_error_binary_operand_mismatch() {

    let ast = AstNode::Programm(vec![AstNode::FunctionDecl(FunctionDeclData {
        name: "main".to_string(),
        return_type: Type::Float,
        parameter: Vec::new(),
        body: Box::new(AstNode::BlockStatement(vec![AstNode::ReturnStatement(
            Box::new(AstNode::BinaryExpr(BinaryExpData {
                left: Box::new(AstNode::IntLiteralExpr(1)),
                right: Box::new(AstNode::FloatLiteralExpr("2.0".to_string())),
                operator: BinaryOperator::Add,
            })),
        )])),
    })]);

    let mut analyzer = Analyzer::new();
    let result = analyzer.analyze(ast);
    assert!(
        matches!(result, Err(SemanticError::NotMatchingReturnType(_))),
        "Sollte Operandentyp-Inkompatibilität (Int vs. Float) erkennen."
    );
}

#[test]
fn semantic_analyzer_test_semantic_valid_string_variable() {
    let ast = AstNode::Programm(vec![AstNode::FunctionDecl(FunctionDeclData {
        name: "main".to_string(),
        return_type: Type::String,
        parameter: Vec::new(),
        body: Box::new(AstNode::BlockStatement(vec![
            AstNode::VarDeclStatement(VarDeclData {
                name: "greeting".to_string(),
                var_typ: Type::String,
                initializer: Some(Box::new(AstNode::StringLiteralExpr("Hello".to_string()))),
            }),
            AstNode::ReturnStatement(Box::new(AstNode::VariableExpr("greeting".to_string()))),
        ])),
    })]);

    let mut analyzer = Analyzer::new();
    let result = analyzer.analyze(ast);
    assert!(
        result.is_ok(),
        "String-Variablen und deren Rückgabe sollten valide sein."
    );
}
