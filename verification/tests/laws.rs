use baton::basic::parser::{
    token_debug, AstNode as BasicNode, FunctionDeclData as BasicFunction, Parser as BasicParser, Type as BasicType,
    VarDeclData as BasicVarDecl,
};
use baton::basic::scanner::{Scanner as BasicScanner, Token as BasicToken};
use baton::basic::semantic_analyzer::{Analyzer as BasicAnalyzer, SemanticError as BasicError};
use baton::parser::kind_debug;
use baton::code_generator::Generator;
use baton::literal::{float_text_ok, parse_i16};
use baton::parser::{
    AstNode, BlockStatementData, FunctionDeclData, IfElseData, Parser, ParserError, ReturnData, Type, VarDeclData,
};
use baton::scanner::{Scanner, Token, TokenKind};
use baton::semantic_analyzer::{Analyzer, SemanticError};

fn scan(source: &str) -> Vec<Token<'_>> {
    Scanner::new(source).scan_source().expect("scanning should succeed")
}

fn ret_int(v: i16) -> AstNode<'static> {
    AstNode::ReturnStatement(ReturnData { value: Some(Box::new(AstNode::IntLiteralExpr(v))), line: 1, column: 1 })
}

fn block(statements: Vec<AstNode<'static>>) -> AstNode<'static> {
    AstNode::BlockStatement(BlockStatementData { statements, line: 1, column: 1 })
}

fn function(name: &'static str, body: Vec<AstNode<'static>>) -> AstNode<'static> {
    AstNode::FunctionDecl(FunctionDeclData {
        name,
        return_type: Type::Int,
        parameter: Vec::new(),
        body: Box::new(block(body)),
        line: 1,
        column: 1,
    })
}

fn int_var(name: &'static str, v: i16) -> AstNode<'static> {
    AstNode::VarDeclStatement(VarDeclData {
        name,
        var_typ: Type::Int,
        initializer: Some(Box::new(AstNode::IntLiteralExpr(v))),
        line: 1,
        column: 1,
    })
}

#[test]
fn law_scan_ends_with_single_eof_and_ordered_positions() {
    let source = "int main() {\n  int x = 1; // note\n  print(\"a\nb\");\n  return x;\n}\n";
    let tokens = scan(source);
    let last = tokens.last().expect("at least one token");
    assert_eq!(last.kind, TokenKind::EoF);
    assert_eq!(tokens.iter().filter(|t| t.kind == TokenKind::EoF).count(), 1);
    for t in &tokens {
        assert!(t.line >= 1 && t.column >= 1);
    }
    for pair in tokens.windows(2) {
        assert!(pair[0].line <= pair[1].line);
    }
    assert_eq!(last.line, 7);
}

#[test]
fn law_scan_empty_source_is_eof_only() {
    assert_eq!(scan(""), vec![Token::new(1, 1, TokenKind::EoF)]);
}

#[test]
fn law_scan_error_position_is_positive() {
    let err = Scanner::new("\n\n@").scan_source().unwrap_err();
    assert_eq!(err.line, 3);
    assert!(err.column >= 1);
    let err = Scanner::new("\"open").scan_source().unwrap_err();
    assert_eq!(err.message, "Unterminated string literal");
    assert!(err.line >= 1 && err.column >= 1);
}

#[test]
fn law_basic_scan_error_position_is_positive() {
    let err = baton::basic::scanner::Scanner::new("int a;\n?").scan_source().unwrap_err();
    assert_eq!(err.line, 2);
    assert!(err.column >= 1);
}

#[test]
fn law_parse_reads_every_token() {
    let tokens = scan("int main() { return 1; } )");
    let result = Parser::new(&tokens).parse();
    assert!(matches!(result, Err(ParserError::UnexpectedToken { .. })));

    let tokens = scan("int main() { return 1; }");
    let ast = Parser::new(&tokens).parse().expect("parsing should succeed");
    assert!(matches!(ast, AstNode::Programm(ref decls) if decls.len() == 1));
}

#[test]
fn law_parse_stops_at_eof_token() {
    let mut tokens = scan("int main() { return 1; }");
    tokens.push(Token::new(2, 1, TokenKind::RightParen));
    let result = Parser::new(&tokens).parse();
    assert!(result.is_ok());
}

#[test]
fn law_basic_parse_reads_every_token() {
    let tokens = BasicScanner::new("int main() { return 1; } int").scan_source().unwrap();
    let mut parser = BasicParser::new(&tokens);
    assert!(parser.parse().is_err());
}

#[test]
fn law_block_declarations_do_not_outlive_the_block() {
    let inner = block(vec![int_var("x", 1)]);
    let use_after = AstNode::ReturnStatement(ReturnData {
        value: Some(Box::new(AstNode::VariableExpr("x"))),
        line: 4,
        column: 3,
    });
    let ast = AstNode::Programm(vec![function("main", vec![inner, use_after])]);
    let mut analyzer = Analyzer::new();
    match analyzer.analyze(&ast) {
        Err(SemanticError::UndefinedVariable { name, .. }) => assert_eq!(name, "x"),
        other => panic!("expected an undefined variable, got {:?}", other),
    }
}

#[test]
fn law_names_may_be_reused_after_a_block() {
    let first = block(vec![int_var("x", 1)]);
    let second = block(vec![int_var("x", 2)]);
    let ast = AstNode::Programm(vec![function("main", vec![first, second, ret_int(0)])]);
    let mut analyzer = Analyzer::new();
    assert!(analyzer.analyze(&ast).is_ok());
}

#[test]
fn law_basic_block_declarations_do_not_outlive_the_block() {
    let decl = BasicNode::VarDeclStatement(BasicVarDecl { name: "y".to_string(), var_typ: BasicType::Int, initializer: None });
    let ast = BasicNode::Programm(vec![BasicNode::FunctionDecl(BasicFunction {
        name: "main".to_string(),
        return_type: BasicType::Int,
        parameter: Vec::new(),
        body: Box::new(BasicNode::BlockStatement(vec![
            BasicNode::BlockStatement(vec![decl]),
            BasicNode::ReturnStatement(Box::new(BasicNode::VariableExpr("y".to_string()))),
        ])),
    })]);
    let mut analyzer = BasicAnalyzer::new();
    assert!(matches!(analyzer.analyze(ast), Err(BasicError::UndefinedVariable(_))));
}

#[test]
fn law_generation_only_appends() {
    let cond = |v: i16| AstNode::IfElseStatement(IfElseData {
        condition_expr: Box::new(AstNode::BoolLiteralExpr(true)),
        if_branch: Box::new(ret_int(v)),
        else_branch: Some(Box::new(ret_int(0))),
        line: 1,
        column: 1,
    });
    let mut generator = Generator::new();
    generator.generate(function("f", vec![cond(1)])).unwrap();
    let first = generator.assembly().to_string();
    generator.generate(function("g", vec![cond(2)])).unwrap();
    let second = generator.assembly().to_string();
    assert!(second.starts_with(&first));
    assert!(first.contains(".L_else_0:"));
    assert!(!first.contains(".L_else_1:"));
    assert!(second[first.len()..].contains(".L_else_1:"));
    assert!(!second[first.len()..].contains(".L_else_0:"));
}

#[test]
fn law_int_text_round_trip() {
    for v in [i16::MIN, -1000, -1, 0, 7, 42, 32767] {
        assert_eq!(parse_i16(&v.to_string()), Some(v));
    }
}

#[test]
fn int_literal_edges() {
    assert_eq!(parse_i16("+5"), Some(5));
    assert_eq!(parse_i16("007"), Some(7));
    assert_eq!(parse_i16("32768"), None);
    assert_eq!(parse_i16("-32769"), None);
    assert_eq!(parse_i16(""), None);
    assert_eq!(parse_i16("-"), None);
    assert_eq!(parse_i16("1a"), None);
    assert_eq!(parse_i16("99999999999999999999"), None);
}

#[test]
fn float_literal_syntax() {
    for ok in ["3.14", "1.", ".5", "10", "1e5", "2.5E-3", "-0.0", "+7", "inf", "-Infinity", "NaN"] {
        assert!(float_text_ok(ok), "{} should be accepted", ok);
        assert!(ok.parse::<f64>().is_ok());
    }
    for bad in ["", ".", "1.2.3", "1e", "e5", "1e+", "abc", "--1", "1_0"] {
        assert!(!float_text_ok(bad), "{} should be rejected", bad);
        assert!(bad.parse::<f64>().is_err());
    }
}

#[test]
fn parser_rejects_out_of_range_int_literal() {
    let tokens = scan("int main() { return 40000; }");
    match Parser::new(&tokens).parse() {
        Err(ParserError::InvalidIntLiteral { raw, line, column }) => {
            assert_eq!(raw, "40000");
            assert_eq!((line, column), (1, 21));
        },
        other => panic!("expected an invalid literal, got {:?}", other),
    }
}

#[test]
fn parser_reports_unexpected_eof() {
    let tokens = vec![Token::new(1, 1, TokenKind::IntKeyword), Token::new(1, 5, TokenKind::Identifier("main"))];
    assert!(Parser::new(&tokens).parse().is_err());
}

#[test]
fn token_debug_text_matches_debug_format() {
    for k in [TokenKind::Identifier("main"), TokenKind::Identifier("a\"b"), TokenKind::IntNumber("42"), TokenKind::Semicolon, TokenKind::Bool(true), TokenKind::EoF] {
        assert_eq!(kind_debug(&k), format!("{:?}", k));
    }
}

#[test]
fn basic_token_debug_text_matches_debug_format() {
    for k in [
        BasicToken::Identifier("x\ny".to_string()),
        BasicToken::String("hi".to_string()),
        BasicToken::Comma,
        BasicToken::FloatNumber("1.5".to_string()),
    ] {
        assert_eq!(token_debug(&k), format!("{:?}", k));
    }
}

#[test]
fn basic_scanner_accepts_unicode_letters_and_digits() {
    let tokens = BasicScanner::new("int café = 1;").scan_source().unwrap();
    assert_eq!(tokens, vec![
            BasicToken::IntKeyword,
            BasicToken::Identifier("café".to_string()),
            BasicToken::Equal,
            BasicToken::IntNumber("1".to_string()),
            BasicToken::Semicolon,
        ]);
}

#[test]
fn scanner_decodes_multibyte_string_literals() {
    let tokens = scan("print(\"grüße\");");
    assert_eq!(tokens[2], Token::new(1, 7, TokenKind::String("grüße")));
    assert_eq!(tokens.last().unwrap().column, 1 + "print(\"grüße\");".len());
}

#[test]
fn default_generator_is_a_new_generator() {
    let generator: Generator = Default::default();
    assert_eq!(generator.assembly(), "");
    let mut a: Generator = Default::default();
    let mut b = Generator::new();
    a.generate(function("main", vec![ret_int(3)])).unwrap();
    b.generate(function("main", vec![ret_int(3)])).unwrap();
    assert_eq!(a.assembly(), b.assembly());
}

#[test]
fn law_parse_failure_is_reported_at_a_token() {
    let sources = [
        "int main() {\n  return 1\n}",
        "int main() {\n  int x = 99999;\n}",
        "struct P {\n  int x\n};",
        "int f(int a b) { return a; }",
        "int main() { x = (1 + ; }",
    ];
    for source in sources {
        let tokens = scan(source);
        let err = Parser::new(&tokens).parse().unwrap_err();
        let (line, column) = match err {
            ParserError::UnexpectedToken { line, column, .. } => (line, column),
            ParserError::InvalidIntLiteral { line, column, .. } => (line, column),
            ParserError::InvalidFloatLiteral { line, column, .. } => (line, column),
            other => panic!("expected a failure with a position, got {:?}", other),
        };
        assert!(tokens.iter().any(|t| t.line == line && t.column == column), "{}", source);
    }
    let tokens = scan("int main() {\n  return 1\n}");
    match Parser::new(&tokens).parse() {
        Err(ParserError::UnexpectedToken { line, column, .. }) => assert_eq!((line, column), (3, 1)),
        other => panic!("unexpected {:?}", other),
    }
}

#[test]
fn parser_accepts_trailing_comma_in_parameters() {
    let tokens = scan("int f(int a, ) { return a; }");
    assert!(Parser::new(&tokens).parse().is_ok());
}

#[test]
fn basic_scanner_uses_unicode_classes() {
    let tokens = BasicScanner::new("x\u{00A0}=\u{2003}\u{0663}\u{0664};").scan_source().unwrap();
    assert_eq!(
        tokens,
        vec![
            BasicToken::Identifier("x".to_string()),
            BasicToken::Equal,
            BasicToken::IntNumber("\u{0663}\u{0664}".to_string()),
            BasicToken::Semicolon,
        ]
    );
}

fn analyze_source(source: &str) -> Result<(), SemanticError> {
    let tokens = scan(source);
    let ast = Parser::new(&tokens).parse().expect("parsing should succeed");
    let mut analyzer = Analyzer::new();
    let r = analyzer.analyze(&ast);
    r
}

#[test]
fn analyzer_failure_variants() {
    match analyze_source("int main() { return f(); }") {
        Err(SemanticError::UndefinedFunction { name, .. }) => assert_eq!(name, "f"),
        other => panic!("unexpected {:?}", other),
    }
    match analyze_source("int main() { Point p; return p.x; }") {
        Err(SemanticError::UndefinedStruct { name, .. }) => assert_eq!(name, "Point"),
        other => panic!("unexpected {:?}", other),
    }
    match analyze_source("int main() { int x = 1; return x(); }") {
        Err(SemanticError::NotAncillaryElement { name, expected, .. }) => {
            assert_eq!(name, "x");
            assert_eq!(expected, "function");
        },
        other => panic!("unexpected {:?}", other),
    }
    match analyze_source("int f(int a) { return a; } int main() { return f(); }") {
        Err(SemanticError::InvalidReturnType { message, .. }) => {
            assert_eq!(message, "Function 'f' expects 1 arguments, but 0 were provided")
        },
        other => panic!("unexpected {:?}", other),
    }
    match analyze_source("int f() { return 1; } int main() { f(); return 0; }") {
        Err(SemanticError::NotImplemented { .. }) => {},
        other => panic!("unexpected {:?}", other),
    }
    match analyze_source("int main() { bool b = 1; return 0; }") {
        Err(SemanticError::TypeMismatch { expected, found, .. }) => {
            assert_eq!(expected, "Bool");
            assert_eq!(found, "Int");
        },
        other => panic!("unexpected {:?}", other),
    }
}

#[test]
fn parser_failure_variants() {
    let tokens = vec![
        Token::new(1, 1, TokenKind::IntKeyword),
        Token::new(1, 5, TokenKind::Identifier("main")),
        Token::new(1, 9, TokenKind::LeftParen),
        Token::new(1, 10, TokenKind::RightParen),
        Token::new(1, 12, TokenKind::LeftBrace),
        Token::new(1, 14, TokenKind::Return),
        Token::new(1, 21, TokenKind::FloatNumber("1.2.3")),
        Token::new(1, 26, TokenKind::Semicolon),
        Token::new(1, 28, TokenKind::RightBrace),
        Token::new(1, 29, TokenKind::EoF),
    ];
    assert_eq!(
        Parser::new(&tokens).parse(),
        Err(ParserError::InvalidFloatLiteral { raw: "1.2.3".to_string(), line: 1, column: 21 })
    );
    let tokens = vec![Token::new(1, 1, TokenKind::StructKeyword)];
    assert_eq!(Parser::new(&tokens).parse(), Err(ParserError::UnexpectedEoF));
}

#[test]
fn generator_reports_programs_outside_its_contract() {
    let mut generator = Generator::new();
    let r = generator.generate(AstNode::VariableExpr("nowhere"));
    assert!(matches!(r, Err(baton::code_generator::GeneratorError::GeneralError(_))));
}

fn program_parts(source: &'static str) -> Vec<AstNode<'static>> {
    let tokens: &'static Vec<Token<'static>> = Box::leak(Box::new(scan(source)));
    match Parser::new(tokens).parse().expect("parsing should succeed") {
        AstNode::Programm(decls) => decls,
        _ => unreachable!(),
    }
}

#[test]
fn law_analysis_in_parts_agrees_with_whole() {
    let pairs: [(&'static str, &'static str); 4] = [
        ("int f() { return 1; }", "int main() { return f(); }"),
        ("int main() { return g(); }", "int g() { return 1; }"),
        ("int f() { return 1; }", "int f() { return 2; }"),
        ("struct P { int x; };", "int main() { P p; return p.x; }"),
    ];
    for (a, b) in pairs {
        let mut whole = program_parts(a);
        whole.extend(program_parts(b));
        let mut a1 = Analyzer::new();
        let whole_ok = a1.analyze(&AstNode::Programm(whole)).is_ok();
        let mut a2 = Analyzer::new();
        let first = a2.analyze(&AstNode::Programm(program_parts(a))).is_ok();
        let parts_ok = first && a2.analyze(&AstNode::Programm(program_parts(b))).is_ok();
        assert_eq!(whole_ok, parts_ok, "{} / {}", a, b);
    }
}

#[test]
fn law_trailing_comment_adds_no_tokens() {
    let sources = ["", "int x = 1;", "int x = 1", "a / b", "x ==", "3.", "f(\"s\")", "// already a comment", "int y;\n"];
    for s in sources {
        for c in ["", " note", "/ more // and \"quotes\"", "\u{00e9}t\u{00e9}"] {
            let kinds = |src: &str| -> Vec<TokenKind<'static>> {
                let owned: &'static str = Box::leak(src.to_string().into_boxed_str());
                scan(owned).into_iter().map(|t| t.kind).collect()
            };
            assert_eq!(kinds(&format!("{} //{}", s, c)), kinds(s), "{:?} + {:?}", s, c);
        }
    }
}

#[test]
fn law_labels_are_fresh() {
    let tokens = scan(
        "int main() { if (1 < 2) { print(\"a\"); } else { print(1.5); } while (1 < 2) { if (true) { return 0; } } return 0; }",
    );
    let ast = Parser::new(&tokens).parse().unwrap();
    let mut generator = Generator::new();
    generator.generate(ast).unwrap();
    let defs: Vec<&str> = generator.assembly().lines().filter(|l| l.ends_with(':') && !l.starts_with('_')).collect();
    let mut sorted = defs.clone();
    sorted.sort();
    sorted.dedup();
    assert_eq!(sorted.len(), defs.len(), "{:?}", defs);
    for label in [".L_else_0:", ".L_end_0:", "L_str_1:", "L_fmt_2:", "L_float_3:", "L_fmt_4:", ".L_while_start_5:", ".L_while_end_5:", ".L_end_6:"] {
        assert!(defs.contains(&label), "{} in {:?}", label, defs);
    }
    assert_eq!(defs.len(), 9);
}

#[test]
fn law_slots_do_not_overlap() {
    let tokens = scan("int main() { int a = 1; int[] b; bool c = true; float d = 2.5; int e = a; return e; }");
    let ast = Parser::new(&tokens).parse().unwrap();
    let mut generator = Generator::new();
    generator.generate(ast).unwrap();
    let offsets: Vec<i64> = generator
        .assembly()
        .lines()
        .filter(|l| (l.starts_with("\tstr x0, [x29, #") || l.starts_with("\tstr d0, [x29, #")) && l.ends_with(']'))
        .map(|l| l[l.find('#').unwrap() + 1..l.len() - 1].parse().unwrap())
        .collect();
    // int at -16 (next free -24); the 80-byte array at -104 (next -184), not stored;
    // bool at -192, float at -208, int at -224.
    assert_eq!(offsets, vec![-16, -192, -208, -224]);
}

#[test]
fn basic_parser_end_inside_parameters() {
    let cases = [
        vec![BasicToken::IntKeyword, BasicToken::Identifier("main".to_string()), BasicToken::LeftParen],
        vec![
            BasicToken::IntKeyword,
            BasicToken::Identifier("f".to_string()),
            BasicToken::LeftParen,
            BasicToken::IntKeyword,
            BasicToken::Identifier("a".to_string()),
            BasicToken::Comma,
        ],
    ];
    for tokens in cases {
        let mut parser = BasicParser::new(&tokens);
        assert_eq!(parser.parse(), Err(baton::basic::parser::ParserError::UnexpectedEoF));
    }
}

#[test]
fn whitespace_set_matches_char_is_whitespace() {
    let listed = |v: u32| {
        (0x09..=0x0d).contains(&v)
            || v == 0x20
            || v == 0x85
            || v == 0xa0
            || v == 0x1680
            || (0x2000..=0x200a).contains(&v)
            || v == 0x2028
            || v == 0x2029
            || v == 0x202f
            || v == 0x205f
            || v == 0x3000
    };
    for v in 0u32..=0x10ffff {
        if let Some(c) = char::from_u32(v) {
            assert_eq!(c.is_whitespace(), listed(v), "U+{:04X}", v);
        }
    }
}
