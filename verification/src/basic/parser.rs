//! Parser of the basic dialect: a recursive-descent parser over the tokens of
//! the basic scanner. A token is read by moving past it; at the end of the tokens
//! reading gives nothing and stays at the end.

use vstd::prelude::*;
use crate::basic::scanner::{tokens_view, Lexeme, Token};
use crate::literal::{float_text_ok, parse_i16, parse_i16_spec, valid_float_text};
use crate::text::{debug_quoted, debug_str, str_equals};

verus! {

/// Why parsing failed.
#[derive(Debug, PartialEq)]
pub enum ParserError {
    UnexpectedToken { expected: String, found: String },
    UnknownType(String),
    NotImplemented(String),
    InvalidIntLiteral(String),
    InvalidFloatLiteral(String),
    UnexpectedEoF,
}

/// The types of the basic dialect.
#[derive(Debug, PartialEq, Eq, Clone, Copy, Structural)]
pub enum Type {
    Int,
    Bool,
    Float,
    String,
}

/// A named, typed function parameter.
#[derive(Debug, PartialEq, Clone)]
pub struct Parameter {
    pub name: String,
    pub param_typ: Type,
}

#[derive(Debug, PartialEq)]
pub struct FunctionDeclData {
    pub name: String,
    pub return_type: Type,
    pub parameter: Vec<Parameter>,
    pub body: Box<AstNode>,
}

/// The binary operators, by increasing looseness: `* /`, `+ -`, comparisons.
#[derive(Debug, PartialEq, Eq, Clone, Copy, Structural)]
pub enum BinaryOperator {
    Add,
    Sub,
    Mul,
    Div,
    DoubleEqual,
    LessThan,
    GreaterThan,
    LessOrEqual,
    GreaterOrEqual,
}

#[derive(Debug, PartialEq)]
pub struct BinaryExpData {
    pub left: Box<AstNode>,
    pub right: Box<AstNode>,
    pub operator: BinaryOperator,
}

#[derive(Debug, PartialEq)]
pub struct VarDeclData {
    pub name: String,
    pub var_typ: Type,
    pub initializer: Option<Box<AstNode>>,
}

#[derive(Debug, PartialEq)]
pub struct AssignmentData {
    pub name: String,
    pub value: Box<AstNode>,
}

#[derive(Debug, PartialEq)]
pub struct IfElseData {
    pub condition_expr: Box<AstNode>,
    pub if_branch: Box<AstNode>,
    pub else_branch: Option<Box<AstNode>>,
}

#[derive(Debug, PartialEq)]
pub struct CallData {
    pub name: String,
    pub arguments: Vec<AstNode>,
}

/// A node of the tree. A float literal keeps the text it was written with
/// (validated by the parser against the grammar of decimal floating-point numbers).
#[derive(Debug, PartialEq)]
pub enum AstNode {
    Programm(Vec<AstNode>),
    FunctionDecl(FunctionDeclData),
    ReturnStatement(Box<AstNode>),
    IntLiteralExpr(i16),
    BoolLiteralExpr(bool),
    BlockStatement(Vec<AstNode>),
    BinaryExpr(BinaryExpData),
    IfElseStatement(IfElseData),
    VariableExpr(String),
    VarDeclStatement(VarDeclData),
    AssignmentStatement(AssignmentData),
    CallExpr(CallData),
    FloatLiteralExpr(String),
    StringLiteralExpr(String),
}

/// The abstract value of a parameter: its name and type.
pub struct Field {
    pub name: Seq<char>,
    pub typ: Type,
}

/// The abstract value of a tree node.
pub enum Node {
    Program(Seq<Node>),
    Function { name: Seq<char>, return_type: Type, params: Seq<Field>, body: Box<Node> },
    Return(Box<Node>),
    IntLit(i16),
    BoolLit(bool),
    Block(Seq<Node>),
    Binary { left: Box<Node>, right: Box<Node>, op: BinaryOperator },
    IfElse { cond: Box<Node>, then_branch: Box<Node>, else_branch: Option<Box<Node>> },
    Variable(Seq<char>),
    VarDecl { name: Seq<char>, typ: Type, init: Option<Box<Node>> },
    Assign { name: Seq<char>, value: Box<Node> },
    Call { name: Seq<char>, args: Seq<Node> },
    FloatLit(Seq<char>),
    StringLit(Seq<char>),
}

/// The abstract values of a list of parameters.
pub open spec fn fields_view(ps: Seq<Parameter>) -> Seq<Field> {
    ps.map_values(|p: Parameter| Field { name: p.name@, typ: p.param_typ })
}

/// The abstract value of an optional boxed node.
pub open spec fn opt_view(o: Option<Box<AstNode>>) -> Option<Box<Node>>
    decreases o, 3int,
{
    match o {
        Some(b) => Some(Box::new(node_view(*b))),
        None => None,
    }
}

/// The abstract values of a list of nodes.
pub open spec fn nodes_view(ns: Seq<AstNode>) -> Seq<Node>
    decreases ns, 1int,
{
    Seq::new(ns.len(), |i: int| node_view_at(ns, i))
}

/// The abstract value of the `i`-th node of a list.
pub open spec fn node_view_at(ns: Seq<AstNode>, i: int) -> Node
    decreases ns, 0int,
{
    if 0 <= i < ns.len() {
        node_view(ns[i])
    } else {
        Node::IntLit(0)
    }
}

/// The abstract value of a node.
pub open spec fn node_view(n: AstNode) -> Node
    decreases n, 2int,
{
    match n {
        AstNode::Programm(v) => Node::Program(nodes_view(v@)),
        AstNode::FunctionDecl(d) => Node::Function {
            name: d.name@,
            return_type: d.return_type,
            params: fields_view(d.parameter@),
            body: Box::new(node_view(*d.body)),
        },
        AstNode::ReturnStatement(e) => Node::Return(Box::new(node_view(*e))),
        AstNode::IntLiteralExpr(v) => Node::IntLit(v),
        AstNode::BoolLiteralExpr(b) => Node::BoolLit(b),
        AstNode::BlockStatement(v) => Node::Block(nodes_view(v@)),
        AstNode::BinaryExpr(d) => Node::Binary {
            left: Box::new(node_view(*d.left)),
            right: Box::new(node_view(*d.right)),
            op: d.operator,
        },
        AstNode::IfElseStatement(d) => Node::IfElse {
            cond: Box::new(node_view(*d.condition_expr)),
            then_branch: Box::new(node_view(*d.if_branch)),
            else_branch: opt_view(d.else_branch),
        },
        AstNode::VariableExpr(n) => Node::Variable(n@),
        AstNode::VarDeclStatement(d) => Node::VarDecl { name: d.name@, typ: d.var_typ, init: opt_view(d.initializer) },
        AstNode::AssignmentStatement(d) => Node::Assign { name: d.name@, value: Box::new(node_view(*d.value)) },
        AstNode::CallExpr(d) => Node::Call { name: d.name@, args: nodes_view(d.arguments@) },
        AstNode::FloatLiteralExpr(t) => Node::FloatLit(t@),
        AstNode::StringLiteralExpr(t) => Node::StringLit(t@),
    }
}

impl View for AstNode {
    type V = Node;

    open spec fn view(&self) -> Node {
        node_view(*self)
    }
}

/// The abstract value of a parsing failure.
pub enum PErr {
    UnexpectedToken { expected: Seq<char>, found: Seq<char> },
    UnknownType(Seq<char>),
    NotImplemented(Seq<char>),
    InvalidIntLiteral(Seq<char>),
    InvalidFloatLiteral(Seq<char>),
    UnexpectedEoF,
}

impl View for ParserError {
    type V = PErr;

    open spec fn view(&self) -> PErr {
        match self {
            ParserError::UnexpectedToken { expected, found } => PErr::UnexpectedToken {
                expected: expected@,
                found: found@,
            },
            ParserError::UnknownType(t) => PErr::UnknownType(t@),
            ParserError::NotImplemented(t) => PErr::NotImplemented(t@),
            ParserError::InvalidIntLiteral(t) => PErr::InvalidIntLiteral(t@),
            ParserError::InvalidFloatLiteral(t) => PErr::InvalidFloatLiteral(t@),
            ParserError::UnexpectedEoF => PErr::UnexpectedEoF,
        }
    }
}

/// The outcome of a parsing step: the result and the position reached.
pub type Step<T> = (Result<T, PErr>, int);

/// The abstract value of a node result.
pub open spec fn node_res(r: Result<AstNode, ParserError>) -> Result<Node, PErr> {
    match r {
        Ok(n) => Ok(node_view(n)),
        Err(e) => Err(e@),
    }
}

/// The abstract value of a boxed node result.
pub open spec fn boxed_res(r: Result<Box<AstNode>, ParserError>) -> Result<Node, PErr> {
    match r {
        Ok(n) => Ok(node_view(*n)),
        Err(e) => Err(e@),
    }
}

/// The abstract value of a unit result.
pub open spec fn unit_res(r: Result<(), ParserError>) -> Result<(), PErr> {
    match r {
        Ok(_) => Ok(()),
        Err(e) => Err(e@),
    }
}

/// The text `format!("{:?}", token)` gives for a token.
pub open spec fn token_name(k: Lexeme) -> Seq<char> {
    match k {
        Lexeme::Return => "Return"@,
        Lexeme::IntKeyword => "IntKeyword"@,
        Lexeme::BoolKeyword => "BoolKeyword"@,
        Lexeme::FloatKeyword => "FloatKeyword"@,
        Lexeme::StringKeyword => "StringKeyword"@,
        Lexeme::StructKeyword => "StructKeyword"@,
        Lexeme::Plus => "Plus"@,
        Lexeme::Minus => "Minus"@,
        Lexeme::Star => "Star"@,
        Lexeme::Slash => "Slash"@,
        Lexeme::Equal => "Equal"@,
        Lexeme::LessThan => "LessThan"@,
        Lexeme::GreaterThan => "GreaterThan"@,
        Lexeme::LessOrEqual => "LessOrEqual"@,
        Lexeme::GreaterOrEqual => "GreaterOrEqual"@,
        Lexeme::DoubleEqual => "DoubleEqual"@,
        Lexeme::LeftParen => "LeftParen"@,
        Lexeme::RightParen => "RightParen"@,
        Lexeme::LeftBrace => "LeftBrace"@,
        Lexeme::RightBrace => "RightBrace"@,
        Lexeme::Comma => "Comma"@,
        Lexeme::Semicolon => "Semicolon"@,
        Lexeme::Dot => "Dot"@,
        Lexeme::If => "If"@,
        Lexeme::Else => "Else"@,
        Lexeme::Identifier(t) => "Identifier("@ + debug_quoted(t) + ")"@,
        Lexeme::IntNumber(t) => "IntNumber("@ + debug_quoted(t) + ")"@,
        Lexeme::FloatNumber(t) => "FloatNumber("@ + debug_quoted(t) + ")"@,
        Lexeme::Str(t) => "String("@ + debug_quoted(t) + ")"@,
        Lexeme::Bool(b) => if b { "Bool(true)"@ } else { "Bool(false)"@ },
    }
}

/// Renders a token as `format!("{:?}", token)` does.
pub fn token_debug(k: &Token) -> (s: String)
    ensures
        s@ == token_name(k@),
{
    match k {
        Token::Return => String::from_str("Return"),
        Token::IntKeyword => String::from_str("IntKeyword"),
        Token::BoolKeyword => String::from_str("BoolKeyword"),
        Token::FloatKeyword => String::from_str("FloatKeyword"),
        Token::StringKeyword => String::from_str("StringKeyword"),
        Token::StructKeyword => String::from_str("StructKeyword"),
        Token::Plus => String::from_str("Plus"),
        Token::Minus => String::from_str("Minus"),
        Token::Star => String::from_str("Star"),
        Token::Slash => String::from_str("Slash"),
        Token::Equal => String::from_str("Equal"),
        Token::LessThan => String::from_str("LessThan"),
        Token::GreaterThan => String::from_str("GreaterThan"),
        Token::LessOrEqual => String::from_str("LessOrEqual"),
        Token::GreaterOrEqual => String::from_str("GreaterOrEqual"),
        Token::DoubleEqual => String::from_str("DoubleEqual"),
        Token::LeftParen => String::from_str("LeftParen"),
        Token::RightParen => String::from_str("RightParen"),
        Token::LeftBrace => String::from_str("LeftBrace"),
        Token::RightBrace => String::from_str("RightBrace"),
        Token::Comma => String::from_str("Comma"),
        Token::Semicolon => String::from_str("Semicolon"),
        Token::Dot => String::from_str("Dot"),
        Token::If => String::from_str("If"),
        Token::Else => String::from_str("Else"),
        Token::Identifier(t) => wrapped("Identifier(", t.as_str()),
        Token::IntNumber(t) => wrapped("IntNumber(", t.as_str()),
        Token::FloatNumber(t) => wrapped("FloatNumber(", t.as_str()),
        Token::String(t) => wrapped("String(", t.as_str()),
        Token::Bool(b) => {
            if *b {
                String::from_str("Bool(true)")
            } else {
                String::from_str("Bool(false)")
            }
        },
    }
}

/// `prefix`, then the debug rendering of `t`, then `)`.
fn wrapped(prefix: &str, t: &str) -> (s: String)
    ensures
        s@ == prefix@ + debug_quoted(t@) + ")"@,
{
    let mut s = String::from_str(prefix);
    let d = debug_str(t);
    s.append(d.as_str());
    s.append(")");
    s
}

/// Whether two tokens are the same.
fn same_token(a: &Token, b: &Token) -> (r: bool)
    ensures
        r == (a@ == b@),
{
    match a {
        Token::Identifier(x) => match b {
            Token::Identifier(y) => str_equals(x.as_str(), y.as_str()),
            _ => false,
        },
        Token::IntNumber(x) => match b {
            Token::IntNumber(y) => str_equals(x.as_str(), y.as_str()),
            _ => false,
        },
        Token::FloatNumber(x) => match b {
            Token::FloatNumber(y) => str_equals(x.as_str(), y.as_str()),
            _ => false,
        },
        Token::String(x) => match b {
            Token::String(y) => str_equals(x.as_str(), y.as_str()),
            _ => false,
        },
        Token::Bool(x) => match b {
            Token::Bool(y) => *x == *y,
            _ => false,
        },
        Token::Return => matches!(b, Token::Return),
        Token::IntKeyword => matches!(b, Token::IntKeyword),
        Token::BoolKeyword => matches!(b, Token::BoolKeyword),
        Token::FloatKeyword => matches!(b, Token::FloatKeyword),
        Token::StringKeyword => matches!(b, Token::StringKeyword),
        Token::StructKeyword => matches!(b, Token::StructKeyword),
        Token::Plus => matches!(b, Token::Plus),
        Token::Minus => matches!(b, Token::Minus),
        Token::Star => matches!(b, Token::Star),
        Token::Slash => matches!(b, Token::Slash),
        Token::Equal => matches!(b, Token::Equal),
        Token::LessThan => matches!(b, Token::LessThan),
        Token::GreaterThan => matches!(b, Token::GreaterThan),
        Token::LessOrEqual => matches!(b, Token::LessOrEqual),
        Token::GreaterOrEqual => matches!(b, Token::GreaterOrEqual),
        Token::DoubleEqual => matches!(b, Token::DoubleEqual),
        Token::LeftParen => matches!(b, Token::LeftParen),
        Token::RightParen => matches!(b, Token::RightParen),
        Token::LeftBrace => matches!(b, Token::LeftBrace),
        Token::RightBrace => matches!(b, Token::RightBrace),
        Token::Comma => matches!(b, Token::Comma),
        Token::Semicolon => matches!(b, Token::Semicolon),
        Token::Dot => matches!(b, Token::Dot),
        Token::If => matches!(b, Token::If),
        Token::Else => matches!(b, Token::Else),
    }
}

// ---------------------------------------------------------------------------
// The grammar, as functions from a position to a result and the position reached.

/// The token at position `i`, if there is one.
pub open spec fn pk(ts: Seq<Lexeme>, i: int) -> Option<Lexeme> {
    if 0 <= i < ts.len() {
        Some(ts[i])
    } else {
        None
    }
}

/// Reading a token: the token, if any, and the position after it.
pub open spec fn nx(ts: Seq<Lexeme>, i: int) -> (Option<Lexeme>, int) {
    if 0 <= i < ts.len() {
        (Some(ts[i]), i + 1)
    } else {
        (None, i)
    }
}

/// Whether a nested step moved from `i` to `j`, staying within the tokens.
pub open spec fn moved(ts: Seq<Lexeme>, i: int, j: int) -> bool {
    i < j <= ts.len()
}

/// The failure for an unexpected token.
pub open spec fn unexpected(expected: Seq<char>, t: Lexeme) -> PErr {
    PErr::UnexpectedToken { expected, found: token_name(t) }
}

/// The type a type keyword names.
pub open spec fn type_of_token(k: Lexeme) -> Result<Type, PErr> {
    match k {
        Lexeme::IntKeyword => Ok(Type::Int),
        Lexeme::BoolKeyword => Ok(Type::Bool),
        Lexeme::FloatKeyword => Ok(Type::Float),
        Lexeme::StringKeyword => Ok(Type::String),
        _ => Err(unexpected("'int', 'bool', 'float', 'string'"@, k)),
    }
}

/// Whether a token is a type keyword.
pub open spec fn is_type_keyword(k: Lexeme) -> bool {
    k == Lexeme::IntKeyword || k == Lexeme::BoolKeyword || k == Lexeme::FloatKeyword || k == Lexeme::StringKeyword
}

/// Reading a token that must be `k`.
pub open spec fn eat(ts: Seq<Lexeme>, i: int, k: Lexeme, expected: Seq<char>) -> Step<()> {
    match nx(ts, i) {
        (Some(t), j) => if t == k {
            (Ok(()), j)
        } else {
            (Err(unexpected(expected, t)), j)
        },
        (None, j) => (Err(PErr::UnexpectedEoF), j),
    }
}

/// The multiplicative operator a token stands for.
pub open spec fn mul_op(k: Lexeme) -> Option<BinaryOperator> {
    match k {
        Lexeme::Star => Some(BinaryOperator::Mul),
        Lexeme::Slash => Some(BinaryOperator::Div),
        _ => None,
    }
}

/// The additive operator a token stands for.
pub open spec fn add_op(k: Lexeme) -> Option<BinaryOperator> {
    match k {
        Lexeme::Plus => Some(BinaryOperator::Add),
        Lexeme::Minus => Some(BinaryOperator::Sub),
        _ => None,
    }
}

/// The comparison operator a token stands for.
pub open spec fn cmp_op(k: Lexeme) -> Option<BinaryOperator> {
    match k {
        Lexeme::DoubleEqual => Some(BinaryOperator::DoubleEqual),
        Lexeme::LessThan => Some(BinaryOperator::LessThan),
        Lexeme::LessOrEqual => Some(BinaryOperator::LessOrEqual),
        Lexeme::GreaterThan => Some(BinaryOperator::GreaterThan),
        Lexeme::GreaterOrEqual => Some(BinaryOperator::GreaterOrEqual),
        _ => None,
    }
}

/// A literal, a call or a variable.
pub open spec fn factor_spec(ts: Seq<Lexeme>, i: int) -> Step<Node>
    decreases ts.len() - i, 1int,
{
    match nx(ts, i) {
        (None, j) => (Err(PErr::UnexpectedEoF), j),
        (Some(t), i1) => match t {
            Lexeme::IntNumber(s) => match parse_i16_spec(s) {
                Some(v) => (Ok(Node::IntLit(v)), i1),
                None => (Err(PErr::InvalidIntLiteral(s)), i1),
            },
            Lexeme::Bool(b) => (Ok(Node::BoolLit(b)), i1),
            Lexeme::FloatNumber(s) => if valid_float_text(s) {
                (Ok(Node::FloatLit(s)), i1)
            } else {
                (Err(PErr::InvalidFloatLiteral(s)), i1)
            },
            Lexeme::Str(v) => (Ok(Node::StringLit(v)), i1),
            Lexeme::Identifier(name) => if pk(ts, i1) == Some(Lexeme::LeftParen) {
                match args_spec(ts, i1 + 1, Seq::empty()) {
                    (Err(e), j) => (Err(e), j),
                    (Ok(a), j) => (Ok(Node::Call { name, args: a }), j),
                }
            } else {
                (Ok(Node::Variable(name)), i1)
            },
            _ => (Err(unexpected("Int Number"@, t)), i1),
        },
    }
}

/// Call arguments up to and including `)`, appended to `acc`.
pub open spec fn args_spec(ts: Seq<Lexeme>, i: int, acc: Seq<Node>) -> Step<Seq<Node>>
    decreases ts.len() - i, 6int,
{
    if pk(ts, i) == Some(Lexeme::RightParen) {
        (Ok(acc), i + 1)
    } else {
        match expression_spec(ts, i) {
            (Err(e), j) => (Err(e), j),
            (Ok(e), j) => if !moved(ts, i, j) {
                (Err(PErr::UnexpectedEoF), j)
            } else {
                match pk(ts, j) {
                    Some(Lexeme::RightParen) => (Ok(acc.push(e)), j + 1),
                    Some(Lexeme::Comma) => args_spec(ts, j + 1, acc.push(e)),
                    Some(other) => (Err(unexpected("',', or ')'"@, other)), j),
                    None => (Err(PErr::UnexpectedEoF), j),
                }
            },
        }
    }
}

/// Further `* factor` and `/ factor`, folded to the left onto `left`.
pub open spec fn term_rest(ts: Seq<Lexeme>, i: int, left: Node) -> Step<Node>
    decreases ts.len() - i, 0int,
{
    match pk(ts, i) {
        Some(t) => match mul_op(t) {
            Some(op) => match factor_spec(ts, i + 1) {
                (Err(e), j) => (Err(e), j),
                (Ok(right), j) => if !moved(ts, i, j) {
                    (Err(PErr::UnexpectedEoF), j)
                } else {
                    term_rest(ts, j, Node::Binary { left: Box::new(left), right: Box::new(right), op })
                },
            },
            None => (Ok(left), i),
        },
        None => (Ok(left), i),
    }
}

/// A term: factors joined by `*` and `/`.
pub open spec fn term_spec(ts: Seq<Lexeme>, i: int) -> Step<Node>
    decreases ts.len() - i, 2int,
{
    match factor_spec(ts, i) {
        (Err(e), j) => (Err(e), j),
        (Ok(l), j) => if !moved(ts, i, j) {
            (Err(PErr::UnexpectedEoF), j)
        } else {
            term_rest(ts, j, l)
        },
    }
}

/// Further `+ term` and `- term`, folded to the left onto `left`.
pub open spec fn additive_rest(ts: Seq<Lexeme>, i: int, left: Node) -> Step<Node>
    decreases ts.len() - i, 0int,
{
    match pk(ts, i) {
        Some(t) => match add_op(t) {
            Some(op) => match term_spec(ts, i + 1) {
                (Err(e), j) => (Err(e), j),
                (Ok(right), j) => if !moved(ts, i, j) {
                    (Err(PErr::UnexpectedEoF), j)
                } else {
                    additive_rest(ts, j, Node::Binary { left: Box::new(left), right: Box::new(right), op })
                },
            },
            None => (Ok(left), i),
        },
        None => (Ok(left), i),
    }
}

/// An additive expression: terms joined by `+` and `-`.
pub open spec fn additive_spec(ts: Seq<Lexeme>, i: int) -> Step<Node>
    decreases ts.len() - i, 3int,
{
    match term_spec(ts, i) {
        (Err(e), j) => (Err(e), j),
        (Ok(l), j) => if !moved(ts, i, j) {
            (Err(PErr::UnexpectedEoF), j)
        } else {
            additive_rest(ts, j, l)
        },
    }
}

/// Further comparisons, folded to the left onto `left`.
pub open spec fn comparison_rest(ts: Seq<Lexeme>, i: int, left: Node) -> Step<Node>
    decreases ts.len() - i, 0int,
{
    match pk(ts, i) {
        Some(t) => match cmp_op(t) {
            Some(op) => match additive_spec(ts, i + 1) {
                (Err(e), j) => (Err(e), j),
                (Ok(right), j) => if !moved(ts, i, j) {
                    (Err(PErr::UnexpectedEoF), j)
                } else {
                    comparison_rest(ts, j, Node::Binary { left: Box::new(left), right: Box::new(right), op })
                },
            },
            None => (Ok(left), i),
        },
        None => (Ok(left), i),
    }
}

/// Law (primary expressions): an integer token whose text reads as the `i16` value
/// `v` gives the literal `v`, and one whose text does not gives an invalid-literal
/// failure; a boolean token gives that boolean; a string token gives that string;
/// an identifier not followed by `(` gives the variable of that name; each consumes
/// exactly the one token.
pub proof fn law_primary_tokens(ts: Seq<Lexeme>, i: int, raw: Seq<char>, v: i16, b: bool, name: Seq<char>)
    requires
        0 <= i < ts.len(),
    ensures
        ts[i] == Lexeme::IntNumber(raw) && parse_i16_spec(raw) == Some(v) ==> factor_spec(ts, i) == (Ok::<Node, PErr>(Node::IntLit(v)), i + 1),
        ts[i] == Lexeme::IntNumber(raw) && parse_i16_spec(raw) is None ==> factor_spec(ts, i) == (Err::<Node, PErr>(
            PErr::InvalidIntLiteral(raw),
        ), i + 1),
        ts[i] == Lexeme::Bool(b) ==> factor_spec(ts, i) == (Ok::<Node, PErr>(Node::BoolLit(b)), i + 1),
        ts[i] == Lexeme::Str(raw) ==> factor_spec(ts, i) == (Ok::<Node, PErr>(Node::StringLit(raw)), i + 1),
        ts[i] == Lexeme::Identifier(name) && !(i + 1 < ts.len() && ts[i + 1] == Lexeme::LeftParen) ==> factor_spec(ts, i)
            == (Ok::<Node, PErr>(Node::Variable(name)), i + 1),
{
}

/// What follows a comparison operator token at `i` standing for `op`.
pub open spec fn after_comparison(ts: Seq<Lexeme>, i: int, left: Node, op: BinaryOperator) -> Step<Node> {
    match additive_spec(ts, i + 1) {
        (Err(e), j) => (Err(e), j),
        (Ok(right), j) => if !moved(ts, i, j) {
            (Err(PErr::UnexpectedEoF), j)
        } else {
            comparison_rest(ts, j, Node::Binary { left: Box::new(left), right: Box::new(right), op })
        },
    }
}

/// What follows an additive operator token at `i` standing for `op`.
pub open spec fn after_additive(ts: Seq<Lexeme>, i: int, left: Node, op: BinaryOperator) -> Step<Node> {
    match term_spec(ts, i + 1) {
        (Err(e), j) => (Err(e), j),
        (Ok(right), j) => if !moved(ts, i, j) {
            (Err(PErr::UnexpectedEoF), j)
        } else {
            additive_rest(ts, j, Node::Binary { left: Box::new(left), right: Box::new(right), op })
        },
    }
}

/// What follows a multiplicative operator token at `i` standing for `op`.
pub open spec fn after_term(ts: Seq<Lexeme>, i: int, left: Node, op: BinaryOperator) -> Step<Node> {
    match factor_spec(ts, i + 1) {
        (Err(e), j) => (Err(e), j),
        (Ok(right), j) => if !moved(ts, i, j) {
            (Err(PErr::UnexpectedEoF), j)
        } else {
            term_rest(ts, j, Node::Binary { left: Box::new(left), right: Box::new(right), op })
        },
    }
}

/// Law (operator tokens): each operator token makes a binary expression with its
/// own operator: `==` equal, `<` less than, `<=` less or equal, `>` greater than,
/// `>=` greater or equal, `+` add, `-` subtract, `*` multiply, `/` divide, taking
/// the expression so far as its left operand and the next operand of the level
/// below as its right one; any other token, or the end, ends the level.
pub proof fn law_operator_tokens(ts: Seq<Lexeme>, i: int, left: Node)
    ensures
        pk(ts, i) matches Some(t) ==> {
            &&& t == Lexeme::DoubleEqual ==> comparison_rest(ts, i, left) == after_comparison(ts, i, left, BinaryOperator::DoubleEqual)
            &&& t == Lexeme::LessThan ==> comparison_rest(ts, i, left) == after_comparison(ts, i, left, BinaryOperator::LessThan)
            &&& t == Lexeme::LessOrEqual ==> comparison_rest(ts, i, left) == after_comparison(ts, i, left, BinaryOperator::LessOrEqual)
            &&& t == Lexeme::GreaterThan ==> comparison_rest(ts, i, left) == after_comparison(ts, i, left, BinaryOperator::GreaterThan)
            &&& t == Lexeme::GreaterOrEqual ==> comparison_rest(ts, i, left) == after_comparison(ts, i, left, BinaryOperator::GreaterOrEqual)
            &&& !(t == Lexeme::DoubleEqual || t == Lexeme::LessThan || t == Lexeme::LessOrEqual || t == Lexeme::GreaterThan
                || t == Lexeme::GreaterOrEqual) ==> comparison_rest(ts, i, left) == (Ok::<Node, PErr>(left), i)
            &&& t == Lexeme::Plus ==> additive_rest(ts, i, left) == after_additive(ts, i, left, BinaryOperator::Add)
            &&& t == Lexeme::Minus ==> additive_rest(ts, i, left) == after_additive(ts, i, left, BinaryOperator::Sub)
            &&& !(t == Lexeme::Plus || t == Lexeme::Minus) ==> additive_rest(ts, i, left) == (Ok::<Node, PErr>(left), i)
            &&& t == Lexeme::Star ==> term_rest(ts, i, left) == after_term(ts, i, left, BinaryOperator::Mul)
            &&& t == Lexeme::Slash ==> term_rest(ts, i, left) == after_term(ts, i, left, BinaryOperator::Div)
            &&& !(t == Lexeme::Star || t == Lexeme::Slash) ==> term_rest(ts, i, left) == (Ok::<Node, PErr>(left), i)
        },
        pk(ts, i) is None ==> {
            &&& comparison_rest(ts, i, left) == (Ok::<Node, PErr>(left), i)
            &&& additive_rest(ts, i, left) == (Ok::<Node, PErr>(left), i)
            &&& term_rest(ts, i, left) == (Ok::<Node, PErr>(left), i)
        },
{
}

/// A comparison: additive expressions joined by comparison operators.
pub open spec fn comparison_spec(ts: Seq<Lexeme>, i: int) -> Step<Node>
    decreases ts.len() - i, 4int,
{
    match additive_spec(ts, i) {
        (Err(e), j) => (Err(e), j),
        (Ok(l), j) => if !moved(ts, i, j) {
            (Err(PErr::UnexpectedEoF), j)
        } else {
            comparison_rest(ts, j, l)
        },
    }
}

/// An expression.
pub open spec fn expression_spec(ts: Seq<Lexeme>, i: int) -> Step<Node>
    decreases ts.len() - i, 5int,
{
    comparison_spec(ts, i)
}

/// `return;` (returning 0) or `return expr;`.
pub open spec fn return_spec(ts: Seq<Lexeme>, i: int) -> Step<Node> {
    let i1 = nx(ts, i).1;
    let value = if pk(ts, i1) == Some(Lexeme::Semicolon) {
        (Ok(Node::IntLit(0)), i1)
    } else {
        expression_spec(ts, i1)
    };
    match value {
        (Err(e), j) => (Err(e), j),
        (Ok(v), j) => match eat(ts, j, Lexeme::Semicolon, "';'"@) {
            (Err(e), k) => (Err(e), k),
            (Ok(_), k) => (Ok(Node::Return(Box::new(v))), k),
        },
    }
}

/// `type name;` or `type name = expr;`.
pub open spec fn var_decl_spec(ts: Seq<Lexeme>, i: int) -> Step<Node> {
    match nx(ts, i) {
        (None, j) => (Err(PErr::UnexpectedEoF), j),
        (Some(t), i1) => match type_of_token(t) {
            Err(e) => (Err(e), i1),
            Ok(ty) => match nx(ts, i1) {
                (Some(Lexeme::Identifier(name)), i2) => {
                    let init = if pk(ts, i2) == Some(Lexeme::Equal) {
                        match expression_spec(ts, i2 + 1) {
                            (Ok(e), k) => (Ok(Some(Box::new(e))), k),
                            (Err(e), k) => (Err(e), k),
                        }
                    } else {
                        (Ok(None), i2)
                    };
                    match init {
                        (Err(e), k) => (Err(e), k),
                        (Ok(v), k) => match eat(ts, k, Lexeme::Semicolon, "';'"@) {
                            (Err(e), m) => (Err(e), m),
                            (Ok(_), m) => (Ok(Node::VarDecl { name, typ: ty, init: v }), m),
                        },
                    }
                },
                (Some(other), i2) => (Err(unexpected("identifier"@, other)), i2),
                (None, i2) => (Err(PErr::UnexpectedEoF), i2),
            },
        },
    }
}

/// `name = expr;`.
pub open spec fn assign_spec(ts: Seq<Lexeme>, i: int) -> Step<Node> {
    match nx(ts, i) {
        (Some(Lexeme::Identifier(name)), i1) => match eat(ts, i1, Lexeme::Equal, "'='"@) {
            (Err(e), j) => (Err(e), j),
            (Ok(_), i2) => match expression_spec(ts, i2) {
                (Err(e), j) => (Err(e), j),
                (Ok(v), i3) => match eat(ts, i3, Lexeme::Semicolon, "';'"@) {
                    (Err(e), j) => (Err(e), j),
                    (Ok(_), i4) => (Ok(Node::Assign { name, value: Box::new(v) }), i4),
                },
            },
        },
        (_, j) => (Err(PErr::UnexpectedEoF), j),
    }
}

/// A block `{ statements }`.
pub open spec fn block_spec(ts: Seq<Lexeme>, i: int) -> Step<Node>
    decreases ts.len() - i, 0int,
{
    match eat(ts, i, Lexeme::LeftBrace, "'{'"@) {
        (Err(e), j) => (Err(e), j),
        (Ok(_), j) => match statements_spec(ts, j, Seq::empty()) {
            (Err(e), k) => (Err(e), k),
            (Ok(ss), k) => (Ok(Node::Block(ss)), k),
        },
    }
}

/// Appending a statement that ended at `j` and going on from there.
pub open spec fn then_statements(ts: Seq<Lexeme>, i: int, acc: Seq<Node>, s: Step<Node>) -> Step<Seq<Node>>
    decreases ts.len() - i, 1int,
{
    match s {
        (Err(e), j) => (Err(e), j),
        (Ok(st), j) => if !moved(ts, i, j) {
            (Err(PErr::UnexpectedEoF), j)
        } else {
            statements_spec(ts, j, acc.push(st))
        },
    }
}

/// Statements up to and including `}`, appended to `acc`.
pub open spec fn statements_spec(ts: Seq<Lexeme>, i: int, acc: Seq<Node>) -> Step<Seq<Node>>
    decreases ts.len() - i, 3int,
{
    match pk(ts, i) {
        None => (Err(PErr::UnexpectedEoF), i),
        Some(t) => if t == Lexeme::RightBrace {
            (Ok(acc), i + 1)
        } else if t == Lexeme::Return {
            then_statements(ts, i, acc, return_spec(ts, i))
        } else if is_type_keyword(t) {
            then_statements(ts, i, acc, var_decl_spec(ts, i))
        } else if t is Identifier {
            match pk(ts, i + 1) {
                Some(Lexeme::Equal) => then_statements(ts, i, acc, assign_spec(ts, i)),
                Some(other) => (Err(unexpected("'='"@, other)), i),
                None => (Err(PErr::UnexpectedEoF), i),
            }
        } else if t == Lexeme::If {
            then_statements(ts, i, acc, if_spec(ts, i))
        } else {
            (Err(unexpected("return statment or '}'"@, t)), i)
        },
    }
}

/// `if (comparison) block`, optionally followed by `else block`.
pub open spec fn if_spec(ts: Seq<Lexeme>, i: int) -> Step<Node>
    decreases ts.len() - i, 2int,
{
    let i1 = nx(ts, i).1;
    match eat(ts, i1, Lexeme::LeftParen, "'('"@) {
        (Err(e), j) => (Err(e), j),
        (Ok(_), i2) => match comparison_spec(ts, i2) {
            (Err(e), j) => (Err(e), j),
            (Ok(c), i3) => if !moved(ts, i, i3) {
                (Err(PErr::UnexpectedEoF), i3)
            } else {
                match eat(ts, i3, Lexeme::RightParen, "')'"@) {
                    (Err(e), j) => (Err(e), j),
                    (Ok(_), i4) => match block_spec(ts, i4) {
                        (Err(e), j) => (Err(e), j),
                        (Ok(th), i5) => if !moved(ts, i, i5) {
                            (Err(PErr::UnexpectedEoF), i5)
                        } else if pk(ts, i5) == Some(Lexeme::Else) {
                            match block_spec(ts, i5 + 1) {
                                (Err(e), j) => (Err(e), j),
                                (Ok(eb), j) => (Ok(Node::IfElse {
                                    cond: Box::new(c),
                                    then_branch: Box::new(th),
                                    else_branch: Some(Box::new(eb)),
                                }), j),
                            }
                        } else {
                            (Ok(Node::IfElse { cond: Box::new(c), then_branch: Box::new(th), else_branch: None }), i5)
                        },
                    },
                }
            },
        },
    }
}

/// Function parameters up to and including `)`, appended to `acc`.
pub open spec fn params_spec(ts: Seq<Lexeme>, i: int, acc: Seq<Field>) -> Step<Seq<Field>>
    decreases ts.len() - i,
{
    if pk(ts, i) == Some(Lexeme::RightParen) {
        (Ok(acc), i + 1)
    } else {
        match nx(ts, i) {
            (None, j) => (Err(PErr::UnexpectedEoF), j),
            (Some(t), i1) => match type_of_token(t) {
                Err(e) => (Err(e), i1),
                Ok(ty) => match nx(ts, i1) {
                    (None, j) => (Err(PErr::UnexpectedEoF), j),
                    (Some(Lexeme::Identifier(n)), i2) => {
                        let acc2 = acc.push(Field { name: n, typ: ty });
                        match pk(ts, i2) {
                            Some(Lexeme::RightParen) => (Ok(acc2), i2 + 1),
                            Some(Lexeme::Comma) => params_spec(ts, i2 + 1, acc2),
                            Some(other) => (Err(unexpected("')' or ','"@, other)), i2),
                            None => (Err(PErr::UnexpectedEoF), i2),
                        }
                    },
                    (Some(other), i2) => (Err(unexpected("identifier (paramter name)"@, other)), i2),
                },
            },
        }
    }
}

/// A function declaration `type name(params) block`.
pub open spec fn function_spec(ts: Seq<Lexeme>, i: int) -> Step<Node> {
    match nx(ts, i) {
        (None, j) => (Err(PErr::UnexpectedEoF), j),
        (Some(t0), i1) => match type_of_token(t0) {
            Err(e) => (Err(e), i1),
            Ok(rt) => match nx(ts, i1) {
                (None, j) => (Err(PErr::UnexpectedEoF), j),
                (Some(Lexeme::Identifier(name)), i2) => match eat(ts, i2, Lexeme::LeftParen, "'('"@) {
                    (Err(e), j) => (Err(e), j),
                    (Ok(_), i3) => match params_spec(ts, i3, Seq::empty()) {
                        (Err(e), j) => (Err(e), j),
                        (Ok(ps), i4) => match block_spec(ts, i4) {
                            (Err(e), j) => (Err(e), j),
                            (Ok(b), j) => (Ok(Node::Function { name, return_type: rt, params: ps, body: Box::new(b) }), j),
                        },
                    },
                },
                (Some(other), i2) => (Err(unexpected("identifier (function name)"@, other)), i2),
            },
        },
    }
}

/// Top-level function declarations up to the end, appended to `acc`.
pub open spec fn declarations_spec(ts: Seq<Lexeme>, i: int, acc: Seq<Node>) -> Step<Seq<Node>>
    decreases ts.len() - i,
{
    match pk(ts, i) {
        None => (Ok(acc), i),
        Some(t) => if is_type_keyword(t) {
            if pk(ts, i + 2) == Some(Lexeme::LeftParen) {
                match function_spec(ts, i) {
                    (Err(e), j) => (Err(e), j),
                    (Ok(f), j) => if !moved(ts, i, j) {
                        (Err(PErr::UnexpectedEoF), j)
                    } else {
                        declarations_spec(ts, j, acc.push(f))
                    },
                }
            } else {
                (Err(PErr::NotImplemented("Global variable parsing not implemented"@)), i)
            }
        } else {
            (Err(unexpected("type keyword (int, bool, float, string)"@, t)), i)
        },
    }
}

/// A whole program: its function declarations.
pub open spec fn program_spec(ts: Seq<Lexeme>, i: int) -> Step<Node> {
    match declarations_spec(ts, i, Seq::empty()) {
        (Ok(ns), j) => (Ok(Node::Program(ns)), j),
        (Err(e), j) => (Err(e), j),
    }
}

proof fn lemma_declarations_end(ts: Seq<Lexeme>, i: int, acc: Seq<Node>)
    ensures
        declarations_spec(ts, i, acc) matches (Ok(_), j) ==> pk(ts, j) is None,
    decreases ts.len() - i,
{
    if let Some(t) = pk(ts, i) {
        if is_type_keyword(t) && pk(ts, i + 2) == Some(Lexeme::LeftParen) {
            if let (Ok(f), j) = function_spec(ts, i) {
                if moved(ts, i, j) {
                    lemma_declarations_end(ts, j, acc.push(f));
                }
            }
        }
    }
}

/// Law: a program is parsed successfully only when parsing has read every token.
pub proof fn law_program_reads_to_end(ts: Seq<Lexeme>)
    ensures
        program_spec(ts, 0) matches (Ok(_), j) ==> pk(ts, j) is None,
{
    lemma_declarations_end(ts, 0, Seq::empty());
}

impl Type {
    /// The type a type keyword names.
    fn get_from_token(token: &Token) -> (r: Result<Type, ParserError>)
        ensures
            match r {
                Ok(t) => type_of_token(token@) == Ok::<Type, PErr>(t),
                Err(e) => type_of_token(token@) == Err::<Type, PErr>(e@),
            },
    {
        match token {
            Token::IntKeyword => Ok(Type::Int),
            Token::BoolKeyword => Ok(Type::Bool),
            Token::FloatKeyword => Ok(Type::Float),
            Token::StringKeyword => Ok(Type::String),
            other => Err(ParserError::UnexpectedToken {
                expected: String::from_str("'int', 'bool', 'float', 'string'"),
                found: token_debug(other),
            }),
        }
    }
}

/// Appending a node extends the abstract list by its value.
fn push_node(v: &mut Vec<AstNode>, n: AstNode)
    ensures
        nodes_view(final(v)@) == nodes_view(old(v)@).push(node_view(n)),
{
    let ghost nv = node_view(n);
    v.push(n);
    assert(nodes_view(v@) =~= nodes_view(old(v)@).push(nv));
}

/// Appending a parameter extends the abstract list by its value.
fn push_param(v: &mut Vec<Parameter>, p: Parameter)
    ensures
        fields_view(final(v)@) == fields_view(old(v)@).push(Field { name: p.name@, typ: p.param_typ }),
{
    let ghost pv = Field { name: p.name@, typ: p.param_typ };
    v.push(p);
    assert(fields_view(v@) =~= fields_view(old(v)@).push(pv));
}

/// A parser over a list of tokens, with the position of the next token.
pub struct Parser<'a> {
    tokens: &'a Vec<Token>,
    cursor: usize,
}

impl<'a> Parser<'a> {
    /// The abstract tokens being parsed.
    pub closed spec fn token_seq(&self) -> Seq<Lexeme> {
        tokens_view(self.tokens@)
    }

    /// The position of the next token.
    pub closed spec fn position(&self) -> int {
        self.cursor as int
    }

    /// The position is within the tokens or at their end.
    pub closed spec fn wf(&self) -> bool {
        self.cursor <= self.tokens@.len()
    }

    /// Whether two parsers work on the same tokens.
    pub closed spec fn same_tokens(&self, other: &Self) -> bool {
        self.tokens == other.tokens
    }

    /// `next` is `self` after a step with outcome `step` and result `res`.
    closed spec fn stepped<T>(&self, next: &Self, step: Step<T>, res: Result<T, PErr>) -> bool {
        &&& next.tokens == self.tokens
        &&& next.wf()
        &&& step == (res, next.cursor as int)
        &&& res is Ok ==> self.cursor < next.cursor <= self.tokens@.len()
    }

    /// A parser at the first of the given tokens.
    pub fn new(tokens: &'a Vec<Token>) -> (p: Self)
        ensures
            p.wf(),
            p.token_seq() == tokens_view(tokens@),
            p.position() == 0,
    {
        Parser { tokens, cursor: 0 }
    }

    proof fn lemma_token_at(&self, i: int)
        requires
            0 <= i < self.tokens@.len(),
        ensures
            self.token_seq()[i] == self.tokens@[i]@,
            self.token_seq().len() == self.tokens@.len(),
    {
    }

    /// The token `k` places ahead, if any.
    fn peek_at(&self, k: usize) -> (r: Option<&'a Token>)
        requires
            self.wf(),
        ensures
            match r {
                Some(t) => pk(self.token_seq(), self.position() + k) == Some(t@),
                None => pk(self.token_seq(), self.position() + k) is None,
            },
    {
        if k < self.tokens.len() - self.cursor {
            proof { self.lemma_token_at(self.cursor + k); }
            Some(&self.tokens[self.cursor + k])
        } else {
            None
        }
    }

    /// The next token, if any.
    fn peek(&self) -> (r: Option<&'a Token>)
        requires
            self.wf(),
        ensures
            match r {
                Some(t) => pk(self.token_seq(), self.position()) == Some(t@),
                None => pk(self.token_seq(), self.position()) is None,
            },
    {
        self.peek_at(0)
    }

    /// Reads the next token, if any.
    fn next(&mut self) -> (r: Option<&'a Token>)
        requires
            old(self).wf(),
        ensures
            final(self).tokens == old(self).tokens,
            final(self).wf(),
            match r {
                Some(t) => nx(old(self).token_seq(), old(self).position()) == (Some(t@), final(self).position()),
                None => nx(old(self).token_seq(), old(self).position()) == (None::<Lexeme>, final(self).position()),
            },
    {
        if self.cursor < self.tokens.len() {
            proof { self.lemma_token_at(self.cursor as int); }
            let t = &self.tokens[self.cursor];
            self.cursor = self.cursor + 1;
            Some(t)
        } else {
            None
        }
    }

    /// Reads a token that must be `k`; `expected` describes it in the failure.
    fn eat(&mut self, k: Token, expected: &str) -> (r: Result<(), ParserError>)
        requires
            old(self).wf(),
        ensures
            final(self).tokens == old(self).tokens,
            final(self).wf(),
            eat(old(self).token_seq(), old(self).position(), k@, expected@) == (unit_res(r), final(self).position()),
            r is Ok ==> final(self).cursor == old(self).cursor + 1,
    {
        match self.next() {
            Some(t) => {
                if same_token(t, &k) {
                    Ok(())
                } else {
                    Err(ParserError::UnexpectedToken { expected: String::from_str(expected), found: token_debug(t) })
                }
            },
            None => Err(ParserError::UnexpectedEoF),
        }
    }

    /// Whether the next token is `k`.
    fn next_is(&self, k: Token) -> (r: bool)
        requires
            self.wf(),
        ensures
            r == (pk(self.token_seq(), self.position()) == Some(k@)),
    {
        match self.peek() {
            Some(t) => same_token(t, &k),
            None => false,
        }
    }

    /// A literal, a call or a variable.
    fn parse_factor(&mut self) -> (r: Result<AstNode, ParserError>)
        requires
            old(self).wf(),
        ensures
            old(self).stepped(final(self), factor_spec(old(self).token_seq(), old(self).position()), node_res(r)),
        decreases old(self).tokens@.len() - old(self).cursor, 1int,
    {
        let ghost ts = self.token_seq();
        let ghost i = self.position();
        let token = match self.next() {
            Some(t) => t,
            None => return Err(ParserError::UnexpectedEoF),
        };
        match token {
            Token::IntNumber(num_str) => match parse_i16(num_str.as_str()) {
                Some(num) => Ok(AstNode::IntLiteralExpr(num)),
                None => Err(ParserError::InvalidIntLiteral(String::from_str(num_str.as_str()))),
            },
            Token::Bool(val) => Ok(AstNode::BoolLiteralExpr(*val)),
            Token::FloatNumber(num_str) => if float_text_ok(num_str.as_str()) {
                Ok(AstNode::FloatLiteralExpr(String::from_str(num_str.as_str())))
            } else {
                Err(ParserError::InvalidFloatLiteral(String::from_str(num_str.as_str())))
            },
            Token::String(val) => Ok(AstNode::StringLiteralExpr(String::from_str(val.as_str()))),
            Token::Identifier(name) => {
                if self.next_is(Token::LeftParen) {
                    let mut args: Vec<AstNode> = Vec::new();
                    self.next();
                    let ghost j = self.position();
                    assert(nodes_view(args@) =~= Seq::<Node>::empty());
                    loop
                        invariant
                            self.tokens == old(self).tokens,
                            ts == self.token_seq(),
                            i == old(self).position(),
                            j == i + 2,
                            self.wf(),
                            j <= self.cursor <= self.tokens@.len(),
                            pk(ts, i + 1) == Some(Lexeme::LeftParen),
                            nx(ts, i) == (Some(Lexeme::Identifier(name@)), i + 1),
                            args_spec(ts, j, Seq::empty()) == args_spec(ts, self.position(), nodes_view(args@)),
                        decreases self.tokens@.len() - self.cursor,
                    {
                        if self.next_is(Token::RightParen) {
                            self.next();
                            return Ok(AstNode::CallExpr(CallData { name: String::from_str(name.as_str()), arguments: args }));
                        }
                        let arg = match self.parse_expression() {
                            Ok(a) => a,
                            Err(e) => return Err(e),
                        };
                        push_node(&mut args, arg);
                        match self.peek() {
                            Some(Token::RightParen) => {
                                self.next();
                                return Ok(AstNode::CallExpr(CallData { name: String::from_str(name.as_str()), arguments: args }));
                            },
                            Some(Token::Comma) => {
                                self.next();
                            },
                            Some(other) => {
                                return Err(ParserError::UnexpectedToken {
                                    expected: String::from_str("',', or ')'"),
                                    found: token_debug(other),
                                });
                            },
                            None => return Err(ParserError::UnexpectedEoF),
                        }
                    }
                } else {
                    Ok(AstNode::VariableExpr(String::from_str(name.as_str())))
                }
            },
            other => Err(ParserError::UnexpectedToken { expected: String::from_str("Int Number"), found: token_debug(other) }),
        }
    }

    /// A term: factors joined by `*` and `/`, grouped to the left.
    fn parse_term(&mut self) -> (r: Result<AstNode, ParserError>)
        requires
            old(self).wf(),
        ensures
            old(self).stepped(final(self), term_spec(old(self).token_seq(), old(self).position()), node_res(r)),
        decreases old(self).tokens@.len() - old(self).cursor, 2int,
    {
        let ghost ts = self.token_seq();
        let ghost i = self.position();
        let mut left = match self.parse_factor() {
            Ok(n) => n,
            Err(e) => return Err(e),
        };
        loop
            invariant
                self.tokens == old(self).tokens,
                ts == self.token_seq(),
                i == old(self).position(),
                self.wf(),
                i < self.cursor <= self.tokens@.len(),
                term_spec(ts, i) == term_rest(ts, self.position(), left@),
            decreases self.tokens@.len() - self.cursor,
        {
            let operator = match self.peek() {
                Some(Token::Star) => BinaryOperator::Mul,
                Some(Token::Slash) => BinaryOperator::Div,
                _ => return Ok(left),
            };
            self.next();
            let right = match self.parse_factor() {
                Ok(n) => n,
                Err(e) => return Err(e),
            };
            left = AstNode::BinaryExpr(BinaryExpData { left: Box::new(left), right: Box::new(right), operator });
        }
    }

    /// A comparison: additive expressions joined by comparison operators, grouped to the left.
    fn parse_comparison(&mut self) -> (r: Result<AstNode, ParserError>)
        requires
            old(self).wf(),
        ensures
            old(self).stepped(final(self), comparison_spec(old(self).token_seq(), old(self).position()), node_res(r)),
        decreases old(self).tokens@.len() - old(self).cursor, 4int,
    {
        let ghost ts = self.token_seq();
        let ghost i = self.position();
        let mut left = match self.parse_additive_expr() {
            Ok(n) => n,
            Err(e) => return Err(e),
        };
        loop
            invariant
                self.tokens == old(self).tokens,
                ts == self.token_seq(),
                i == old(self).position(),
                self.wf(),
                i < self.cursor <= self.tokens@.len(),
                comparison_spec(ts, i) == comparison_rest(ts, self.position(), left@),
            decreases self.tokens@.len() - self.cursor,
        {
            let operator = match self.peek() {
                Some(Token::DoubleEqual) => BinaryOperator::DoubleEqual,
                Some(Token::LessThan) => BinaryOperator::LessThan,
                Some(Token::LessOrEqual) => BinaryOperator::LessOrEqual,
                Some(Token::GreaterThan) => BinaryOperator::GreaterThan,
                Some(Token::GreaterOrEqual) => BinaryOperator::GreaterOrEqual,
                _ => return Ok(left),
            };
            self.next();
            let right = match self.parse_additive_expr() {
                Ok(n) => n,
                Err(e) => return Err(e),
            };
            left = AstNode::BinaryExpr(BinaryExpData { left: Box::new(left), right: Box::new(right), operator });
        }
    }

    /// An additive expression: terms joined by `+` and `-`, grouped to the left.
    fn parse_additive_expr(&mut self) -> (r: Result<AstNode, ParserError>)
        requires
            old(self).wf(),
        ensures
            old(self).stepped(final(self), additive_spec(old(self).token_seq(), old(self).position()), node_res(r)),
        decreases old(self).tokens@.len() - old(self).cursor, 3int,
    {
        let ghost ts = self.token_seq();
        let ghost i = self.position();
        let mut left = match self.parse_term() {
            Ok(n) => n,
            Err(e) => return Err(e),
        };
        loop
            invariant
                self.tokens == old(self).tokens,
                ts == self.token_seq(),
                i == old(self).position(),
                self.wf(),
                i < self.cursor <= self.tokens@.len(),
                additive_spec(ts, i) == additive_rest(ts, self.position(), left@),
            decreases self.tokens@.len() - self.cursor,
        {
            let operator = match self.peek() {
                Some(Token::Plus) => BinaryOperator::Add,
                Some(Token::Minus) => BinaryOperator::Sub,
                _ => return Ok(left),
            };
            self.next();
            let right = match self.parse_term() {
                Ok(n) => n,
                Err(e) => return Err(e),
            };
            left = AstNode::BinaryExpr(BinaryExpData { left: Box::new(left), right: Box::new(right), operator });
        }
    }

    /// An expression.
    fn parse_expression(&mut self) -> (r: Result<AstNode, ParserError>)
        requires
            old(self).wf(),
        ensures
            old(self).stepped(final(self), expression_spec(old(self).token_seq(), old(self).position()), node_res(r)),
        decreases old(self).tokens@.len() - old(self).cursor, 5int,
    {
        self.parse_comparison()
    }
}

impl<'a> Parser<'a> {
    /// `return;` (returning 0) or `return expr;`.
    fn parse_return_statement(&mut self) -> (r: Result<AstNode, ParserError>)
        requires
            old(self).wf(),
        ensures
            old(self).stepped(final(self), return_spec(old(self).token_seq(), old(self).position()), node_res(r)),
    {
        self.next();
        let expr_node = if self.next_is(Token::Semicolon) {
            AstNode::IntLiteralExpr(0)
        } else {
            match self.parse_expression() {
                Ok(e) => e,
                Err(e) => return Err(e),
            }
        };
        let ghost ev = node_view(expr_node);
        match self.eat(Token::Semicolon, "';'") {
            Ok(_) => {},
            Err(e) => return Err(e),
        }
        let node = AstNode::ReturnStatement(Box::new(expr_node));
        assert(node@ == Node::Return(Box::new(ev)));
        Ok(node)
    }

    /// `type name;` or `type name = expr;`.
    fn parse_var_decl(&mut self) -> (r: Result<AstNode, ParserError>)
        requires
            old(self).wf(),
        ensures
            old(self).stepped(final(self), var_decl_spec(old(self).token_seq(), old(self).position()), node_res(r)),
    {
        let t = match self.next() {
            Some(t) => t,
            None => return Err(ParserError::UnexpectedEoF),
        };
        let var_typ = match Type::get_from_token(t) {
            Ok(ty) => ty,
            Err(e) => return Err(e),
        };
        let name = match self.next() {
            Some(Token::Identifier(name)) => String::from_str(name.as_str()),
            Some(other) => {
                return Err(ParserError::UnexpectedToken {
                    expected: String::from_str("identifier"),
                    found: token_debug(other),
                });
            },
            None => return Err(ParserError::UnexpectedEoF),
        };
        let initializer = if self.next_is(Token::Equal) {
            self.next();
            match self.parse_expression() {
                Ok(e) => {
                    let ghost ev = node_view(e);
                    let b = Some(Box::new(e));
                    assert(opt_view(b) == Some(Box::new(ev)));
                    b
                },
                Err(e) => return Err(e),
            }
        } else {
            None
        };
        match self.eat(Token::Semicolon, "';'") {
            Ok(_) => {},
            Err(e) => return Err(e),
        }
        Ok(AstNode::VarDeclStatement(VarDeclData { name, var_typ, initializer }))
    }

    /// `name = expr;`.
    fn parse_assignment(&mut self) -> (r: Result<AstNode, ParserError>)
        requires
            old(self).wf(),
        ensures
            old(self).stepped(final(self), assign_spec(old(self).token_seq(), old(self).position()), node_res(r)),
    {
        let name = match self.next() {
            Some(Token::Identifier(name)) => String::from_str(name.as_str()),
            _ => return Err(ParserError::UnexpectedEoF),
        };
        match self.eat(Token::Equal, "'='") {
            Ok(_) => {},
            Err(e) => return Err(e),
        }
        let value = match self.parse_expression() {
            Ok(v) => Box::new(v),
            Err(e) => return Err(e),
        };
        match self.eat(Token::Semicolon, "';'") {
            Ok(_) => {},
            Err(e) => return Err(e),
        }
        Ok(AstNode::AssignmentStatement(AssignmentData { name, value }))
    }

    /// `if (comparison) block`, optionally followed by `else block`.
    #[verifier::spinoff_prover]
    #[verifier::rlimit(80)]
    fn parse_if_statement(&mut self) -> (r: Result<AstNode, ParserError>)
        requires
            old(self).wf(),
        ensures
            old(self).stepped(final(self), if_spec(old(self).token_seq(), old(self).position()), node_res(r)),
        decreases old(self).tokens@.len() - old(self).cursor,
    {
        self.next();
        match self.eat(Token::LeftParen, "'('") {
            Ok(_) => {},
            Err(e) => return Err(e),
        }
        let comparison = match self.parse_comparison() {
            Ok(c) => c,
            Err(e) => return Err(e),
        };
        match self.eat(Token::RightParen, "')'") {
            Ok(_) => {},
            Err(e) => return Err(e),
        }
        let if_branch = match self.parse_block() {
            Ok(b) => b,
            Err(e) => return Err(e),
        };
        let ghost i5 = self.position();
        let else_branch = if self.next_is(Token::Else) {
            self.next();
            match self.parse_block() {
                Ok(b) => {
                    let ghost bv = node_view(*b);
                    let o = Some(b);
                    assert(opt_view(o) == Some(Box::new(bv)));
                    o
                },
                Err(e) => return Err(e),
            }
        } else {
            None
        };
        let ghost cv = node_view(comparison);
        let ghost tv = node_view(*if_branch);
        let ghost ev = opt_view(else_branch);
        let node = AstNode::IfElseStatement(IfElseData { condition_expr: Box::new(comparison), if_branch, else_branch });
        assert(node@ == Node::IfElse { cond: Box::new(cv), then_branch: Box::new(tv), else_branch: ev });
        assert(old(self).cursor < i5 <= self.cursor <= self.tokens@.len());
        assert(if_spec(old(self).token_seq(), old(self).position()) == (Ok::<Node, PErr>(node@), self.position()));
        Ok(node)
    }

    /// A block `{ statements }`.
    #[verifier::spinoff_prover]
    #[verifier::rlimit(80)]
    fn parse_block(&mut self) -> (r: Result<Box<AstNode>, ParserError>)
        requires
            old(self).wf(),
        ensures
            old(self).stepped(final(self), block_spec(old(self).token_seq(), old(self).position()), boxed_res(r)),
        decreases old(self).tokens@.len() - old(self).cursor,
    {
        let ghost ts = self.token_seq();
        let ghost i = self.position();
        match self.eat(Token::LeftBrace, "'{'") {
            Ok(_) => {},
            Err(e) => return Err(e),
        }
        let ghost j = self.position();
        let mut statements: Vec<AstNode> = Vec::new();
        assert(nodes_view(statements@) =~= Seq::<Node>::empty());
        loop
            invariant
                self.tokens == old(self).tokens,
                ts == self.token_seq(),
                i == old(self).position(),
                j == i + 1,
                eat(ts, i, Lexeme::LeftBrace, "'{'"@) == (Ok::<(), PErr>(()), j),
                self.wf(),
                j <= self.cursor <= self.tokens@.len(),
                statements_spec(ts, j, Seq::empty()) == statements_spec(ts, self.position(), nodes_view(statements@)),
            decreases self.tokens@.len() - self.cursor,
        {
            let ghost c = self.position();
            let s = match self.peek() {
                Some(Token::RightBrace) => {
                    self.next();
                    return Ok(Box::new(AstNode::BlockStatement(statements)));
                },
                Some(Token::Return) => self.parse_return_statement(),
                Some(Token::IntKeyword) | Some(Token::BoolKeyword) | Some(Token::FloatKeyword) | Some(Token::StringKeyword) => {
                    self.parse_var_decl()
                },
                Some(Token::Identifier(_)) => match self.peek_at(1) {
                    Some(Token::Equal) => self.parse_assignment(),
                    Some(other) => {
                        return Err(ParserError::UnexpectedToken { expected: String::from_str("'='"), found: token_debug(other) });
                    },
                    None => return Err(ParserError::UnexpectedEoF),
                },
                Some(Token::If) => self.parse_if_statement(),
                Some(other) => {
                    return Err(ParserError::UnexpectedToken {
                        expected: String::from_str("return statment or '}'"),
                        found: token_debug(other),
                    });
                },
                None => return Err(ParserError::UnexpectedEoF),
            };
            match s {
                Ok(st) => push_node(&mut statements, st),
                Err(e) => return Err(e),
            }
        }
    }

    /// A function declaration `type name(params) block`.
    fn parse_function(&mut self) -> (r: Result<AstNode, ParserError>)
        requires
            old(self).wf(),
        ensures
            final(self).tokens == old(self).tokens,
            final(self).wf(),
            function_spec(old(self).token_seq(), old(self).position()) == (node_res(r), final(self).position()),
            r is Ok ==> old(self).cursor < final(self).cursor <= old(self).tokens@.len(),
    {
        let ghost ts = self.token_seq();
        let ghost i = self.position();
        let t0 = match self.next() {
            Some(t) => t,
            None => return Err(ParserError::UnexpectedEoF),
        };
        let return_type = match Type::get_from_token(t0) {
            Ok(t) => t,
            Err(e) => return Err(e),
        };
        let name = match self.next() {
            Some(Token::Identifier(name)) => String::from_str(name.as_str()),
            Some(other) => {
                return Err(ParserError::UnexpectedToken {
                    expected: String::from_str("identifier (function name)"),
                    found: token_debug(other),
                });
            },
            None => return Err(ParserError::UnexpectedEoF),
        };
        match self.eat(Token::LeftParen, "'('") {
            Ok(_) => {},
            Err(e) => return Err(e),
        }
        let ghost k = self.position();
        let mut parameter: Vec<Parameter> = Vec::new();
        assert(fields_view(parameter@) =~= Seq::<Field>::empty());
        loop
            invariant_except_break
                params_spec(ts, k, Seq::empty()) == params_spec(ts, self.position(), fields_view(parameter@)),
            invariant
                self.tokens == old(self).tokens,
                ts == self.token_seq(),
                i == old(self).position(),
                k == i + 3,
                nx(ts, i).0 == Some(t0@),
                type_of_token(t0@) == Ok::<Type, PErr>(return_type),
                nx(ts, i + 1).0 == Some(Lexeme::Identifier(name@)),
                eat(ts, i + 2, Lexeme::LeftParen, "'('"@) == (Ok::<(), PErr>(()), k),
                self.wf(),
                k <= self.cursor <= self.tokens@.len(),
            ensures
                params_spec(ts, k, Seq::empty()) == (Ok::<Seq<Field>, PErr>(fields_view(parameter@)), self.position()),
            decreases self.tokens@.len() - self.cursor,
        {
            if self.next_is(Token::RightParen) {
                self.next();
                break;
            }
            let t = match self.next() {
                Some(t) => t,
                None => return Err(ParserError::UnexpectedEoF),
            };
            let param_typ = match Type::get_from_token(t) {
                Ok(ty) => ty,
                Err(e) => return Err(e),
            };
            let param_name = match self.next() {
                Some(Token::Identifier(n)) => String::from_str(n.as_str()),
                Some(other) => {
                    return Err(ParserError::UnexpectedToken {
                        expected: String::from_str("identifier (paramter name)"),
                        found: token_debug(other),
                    });
                },
                None => return Err(ParserError::UnexpectedEoF),
            };
            push_param(&mut parameter, Parameter { name: param_name, param_typ });
            match self.peek() {
                Some(Token::RightParen) => {
                    self.next();
                    break;
                },
                Some(Token::Comma) => {
                    self.next();
                },
                Some(other) => {
                    return Err(ParserError::UnexpectedToken {
                        expected: String::from_str("')' or ','"),
                        found: token_debug(other),
                    });
                },
                None => return Err(ParserError::UnexpectedEoF),
            }
        }
        let body = match self.parse_block() {
            Ok(b) => b,
            Err(e) => return Err(e),
        };
        Ok(AstNode::FunctionDecl(FunctionDeclData { name, return_type, parameter, body }))
    }

    /// Parses a whole program: function declarations up to the end.
    pub fn parse(&mut self) -> (r: Result<AstNode, ParserError>)
        requires
            old(self).wf(),
        ensures
            final(self).same_tokens(old(self)),
            final(self).wf(),
            program_spec(old(self).token_seq(), old(self).position()) == (node_res(r), final(self).position()),
    {
        let ghost ts = self.token_seq();
        let ghost i = self.position();
        let mut nodes: Vec<AstNode> = Vec::new();
        assert(nodes_view(nodes@) =~= Seq::<Node>::empty());
        loop
            invariant
                self.tokens == old(self).tokens,
                ts == self.token_seq(),
                i == old(self).position(),
                self.wf(),
                declarations_spec(ts, i, Seq::empty()) == declarations_spec(ts, self.position(), nodes_view(nodes@)),
            decreases self.tokens@.len() - self.cursor,
        {
            let token = match self.peek() {
                Some(t) => t,
                None => return Ok(AstNode::Programm(nodes)),
            };
            match token {
                Token::IntKeyword | Token::BoolKeyword | Token::FloatKeyword | Token::StringKeyword => {
                    match self.peek_at(2) {
                        Some(Token::LeftParen) => {
                            let f = match self.parse_function() {
                                Ok(f) => f,
                                Err(e) => return Err(e),
                            };
                            push_node(&mut nodes, f);
                        },
                        _ => {
                            return Err(ParserError::NotImplemented(
                                String::from_str("Global variable parsing not implemented"),
                            ));
                        },
                    }
                },
                other => {
                    return Err(ParserError::UnexpectedToken {
                        expected: String::from_str("type keyword (int, bool, float, string)"),
                        found: token_debug(other),
                    });
                },
            }
        }
    }
}

} // verus!
