use baton::basic::code_generator::Generator;
use baton::basic::parser::{
    AssignmentData, AstNode, BinaryExpData, BinaryOperator, FunctionDeclData, IfElseData, Type, VarDeclData,
};

const HEADER: &str = ".global _main\n.text\n\n_main:\n\tstp x29, x30, [sp, #-16]!\n\tmov x29, sp\n\tsub sp, sp, #128\n";
const EPILOGUE: &str = "\tmov sp, x29\n\tldp x29, x30, [sp], #16\n\tret\n";

fn main_with(body: Vec<AstNode>) -> AstNode {
    AstNode::Programm(vec![AstNode::FunctionDecl(FunctionDeclData {
        name: "main".to_string(),
        return_type: Type::Int,
        parameter: Vec::new(),
        body: Box::new(AstNode::BlockStatement(body)),
    })])
}

fn ret(n: i16) -> AstNode {
    AstNode::ReturnStatement(Box::new(AstNode::IntLiteralExpr(n)))
}

#[test]
fn code_generator_test_generate_simple_main() {
    let ast = AstNode::Programm(vec![AstNode::FunctionDecl(FunctionDeclData {
        name: "main".to_string(),
        return_type: Type::Int,
        parameter: Vec::new(),
        body: Box::new(AstNode::BlockStatement(vec![AstNode::ReturnStatement(
            Box::new(AstNode::IntLiteralExpr(42)),
        )])),
    })]);

    let mut generator = Generator::new();
    generator.generate(ast).unwrap();

    let expected_assembly = ".global _main\n.text\n\n_main:\n\tstp x29, x30, [sp, #-16]!\n\tmov x29, sp\n\tsub sp, sp, #128\n\tmov x0, #42\n\tmov sp, x29\n\tldp x29, x30, [sp], #16\n\tret\n";

    assert_eq!(generator.assembly(), expected_assembly);
}

#[test]
fn code_generator_test_generate_zero_return() {
    let ast = AstNode::Programm(vec![AstNode::FunctionDecl(FunctionDeclData {
        name: "main".to_string(),
        return_type: Type::Int,
        parameter: Vec::new(),
        body: Box::new(AstNode::BlockStatement(vec![AstNode::ReturnStatement(
            Box::new(AstNode::IntLiteralExpr(0)),
        )])),
    })]);

    let mut generator = Generator::new();
    generator.generate(ast).unwrap();
    let expected_assembly = ".global _main\n.text\n\n_main:\n\tstp x29, x30, [sp, #-16]!\n\tmov x29, sp\n\tsub sp, sp, #128\n\tmov x0, #0\n\tmov sp, x29\n\tldp x29, x30, [sp], #16\n\tret\n";

    assert_eq!(generator.assembly(), expected_assembly);
}

#[test]
fn code_generator_test_generate_multiple_functions() {
    let ast = AstNode::Programm(vec![
        AstNode::FunctionDecl(FunctionDeclData {
            name: "main".to_string(),
            return_type: Type::Int,
            parameter: Vec::new(),
            body: Box::new(AstNode::BlockStatement(vec![AstNode::ReturnStatement(
                Box::new(AstNode::IntLiteralExpr(0)),
            )])),
        }),
        AstNode::FunctionDecl(FunctionDeclData {
            name: "helper_func".to_string(),
            return_type: Type::Int,
            parameter: Vec::new(),
            body: Box::new(AstNode::BlockStatement(vec![AstNode::ReturnStatement(
                Box::new(AstNode::IntLiteralExpr(100)),
            )])),
        }),
    ]);

    let mut generator = Generator::new();
    generator.generate(ast).unwrap();

    let expected_assembly = ".global _main\n.text\n\n_main:\n\tstp x29, x30, [sp, #-16]!\n\tmov x29, sp\n\tsub sp, sp, #128\n\tmov x0, #0\n\tmov sp, x29\n\tldp x29, x30, [sp], #16\n\tret\n_helper_func:\n\tstp x29, x30, [sp, #-16]!\n\tmov x29, sp\n\tsub sp, sp, #128\n\tmov x0, #100\n\tmov sp, x29\n\tldp x29, x30, [sp], #16\n\tret\n";

    assert_eq!(generator.assembly(), expected_assembly);
}

#[test]
fn code_generator_test_generate_block_with_multiple_statements() {
    let ast = AstNode::Programm(vec![AstNode::FunctionDecl(FunctionDeclData {
        name: "main".to_string(),
        return_type: Type::Int,
        parameter: Vec::new(),
        body: Box::new(AstNode::BlockStatement(vec![
            AstNode::IntLiteralExpr(5),
            AstNode::ReturnStatement(Box::new(AstNode::IntLiteralExpr(10))),
        ])),
    })]);

    let mut generator = Generator::new();
    generator.generate(ast).unwrap();

    let expected_assembly = ".global _main\n.text\n\n_main:\n\tstp x29, x30, [sp, #-16]!\n\tmov x29, sp\n\tsub sp, sp, #128\n\tmov x0, #5\n\tmov x0, #10\n\tmov sp, x29\n\tldp x29, x30, [sp], #16\n\tret\n";

    assert_eq!(generator.assembly(), expected_assembly);
}

#[test]
fn code_generator_test_codegen_binary_expression() {
    let ast = AstNode::Programm(vec![AstNode::FunctionDecl(FunctionDeclData {
        name: "main".to_string(),
        return_type: Type::Int,
        parameter: Vec::new(),
        body: Box::new(AstNode::BlockStatement(vec![AstNode::ReturnStatement(
            Box::new(AstNode::BinaryExpr(BinaryExpData {
                left: Box::new(AstNode::IntLiteralExpr(200)),
                right: Box::new(AstNode::IntLiteralExpr(20)),
                operator: BinaryOperator::Add,
            })),
        )])),
    })]);

    let mut codegen = Generator::new();
    let _assembly = codegen.generate(ast).unwrap();

    assert!(codegen.assembly().contains(".global _main") || codegen.assembly().contains(".global main"));
    assert!(codegen.assembly().contains("add"));
    assert!(codegen.assembly().contains("str"));
    assert!(codegen.assembly().contains("ldr"));
    assert!(codegen.assembly().contains("ret"));
}

#[test]
fn basic_codegen_new_generator_is_empty() {
    let generator = Generator::new();
    assert_eq!(generator.assembly(), "");
}

#[test]
fn basic_codegen_variables_get_stack_slots() {
    let ast = main_with(vec![
        AstNode::VarDeclStatement(VarDeclData {
            name: "x".to_string(),
            var_typ: Type::Int,
            initializer: Some(Box::new(AstNode::IntLiteralExpr(5))),
        }),
        AstNode::VarDeclStatement(VarDeclData { name: "y".to_string(), var_typ: Type::Int, initializer: None }),
        AstNode::AssignmentStatement(AssignmentData {
            name: "x".to_string(),
            value: Box::new(AstNode::IntLiteralExpr(7)),
        }),
        AstNode::ReturnStatement(Box::new(AstNode::VariableExpr("y".to_string()))),
    ]);
    let mut generator = Generator::new();
    assert!(generator.generate(ast).is_ok());
    let expected = format!(
        "{}\tmov x0, #5\n\tstr x0, [x29, #-8]\n\tmov x0, #0\n\tstr x0, [x29, #-16]\n\tmov x0, #7\n\tstr x0, [x29, #-8]\n\tldr x0, [x29, #-16]\n{}",
        HEADER, EPILOGUE
    );
    assert_eq!(generator.assembly(), expected);
}

#[test]
fn basic_codegen_if_else_uses_numbered_labels() {
    let cond = AstNode::BinaryExpr(BinaryExpData {
        left: Box::new(AstNode::IntLiteralExpr(1)),
        right: Box::new(AstNode::IntLiteralExpr(2)),
        operator: BinaryOperator::LessThan,
    });
    let first = AstNode::IfElseStatement(IfElseData {
        condition_expr: Box::new(cond),
        if_branch: Box::new(ret(1)),
        else_branch: Some(Box::new(ret(2))),
    });
    let second = AstNode::IfElseStatement(IfElseData {
        condition_expr: Box::new(AstNode::IntLiteralExpr(0)),
        if_branch: Box::new(ret(3)),
        else_branch: None,
    });
    let ast = main_with(vec![first, second]);
    let mut generator = Generator::new();
    assert!(generator.generate(ast).is_ok());
    let expected = format!(
        "{h}\tmov x0, #1\n\tstr x0, [sp, #-16]!\n\tmov x0, #2\n\tldr x1, [sp], #16\n\tcmp x1, x0\n\tcset x0, lt\n\tcbz x0, .L_else_0\n\tmov x0, #1\n{e}\tb .L_end_0\n.L_else_0:\n\tmov x0, #2\n{e}.L_end_0:\n\tmov x0, #0\n\tcbz x0, .L_end_1\n\tmov x0, #3\n{e}.L_end_1:\n",
        h = HEADER,
        e = EPILOGUE
    );
    assert_eq!(generator.assembly(), expected);
}

#[test]
fn basic_codegen_each_operator() {
    let cases = [
        (BinaryOperator::Sub, "\tsub x0, x1, x0\n"),
        (BinaryOperator::Mul, "\tmul x0, x1, x0\n"),
        (BinaryOperator::Div, "\tsdiv x0, x1, x0\n"),
        (BinaryOperator::DoubleEqual, "\tcmp x1, x0\n\tcset x0, eq\n"),
        (BinaryOperator::GreaterThan, "\tcmp x1, x0\n\tcset x0, gt\n"),
        (BinaryOperator::LessOrEqual, "\tcmp x1, x0\n\tcset x0, le\n"),
        (BinaryOperator::GreaterOrEqual, "\tcmp x1, x0\n\tcset x0, ge\n"),
    ];
    for (op, text) in cases {
        let expr = AstNode::BinaryExpr(BinaryExpData {
            left: Box::new(AstNode::IntLiteralExpr(-3)),
            right: Box::new(AstNode::IntLiteralExpr(4)),
            operator: op,
        });
        let mut generator = Generator::new();
        assert!(generator.generate(expr).is_ok());
        let expected = format!("\tmov x0, #-3\n\tstr x0, [sp, #-16]!\n\tmov x0, #4\n\tldr x1, [sp], #16\n{}", text);
        assert_eq!(generator.assembly(), expected);
    }
}
