//! The abstract syntax tree produced by the parser, and its abstract value
//! (the same shape with text as character sequences and lists as sequences).

use vstd::prelude::*;
use crate::text::str_equals;

verus! {

/// The types of the language.
#[derive(Debug, PartialEq)]
pub enum Type<'a> {
    Int,
    Bool,
    Float,
    String,
    Struct(&'a str),
    Array(Box<Type<'a>>),
}

/// A named, typed function parameter or struct field.
#[derive(Debug, PartialEq)]
pub struct Parameter<'a> {
    pub name: &'a str,
    pub param_typ: Type<'a>,
}

#[derive(Debug, PartialEq)]
pub struct FunctionDeclData<'a> {
    pub name: &'a str,
    pub return_type: Type<'a>,
    pub parameter: Vec<Parameter<'a>>,
    pub body: Box<AstNode<'a>>,
    pub line: usize,
    pub column: usize,
}

/// The binary operators, by increasing looseness: `* /`, `+ -`, comparisons.
#[derive(Debug, PartialEq, Eq, Clone, Copy, Structural)]
pub enum BinaryOperator {
    Add,
    Sub,
    Mul,
    Div,
    DoubleEqual,
    LessThan,
    GreaterThan,
    LessOrEqual,
    GreaterOrEqual,
}

#[derive(Debug, PartialEq)]
pub struct BinaryExpData<'a> {
    pub left: Box<AstNode<'a>>,
    pub right: Box<AstNode<'a>>,
    pub operator: BinaryOperator,
    pub line: usize,
    pub column: usize,
}

#[derive(Debug, PartialEq)]
pub struct VarDeclData<'a> {
    pub name: &'a str,
    pub var_typ: Type<'a>,
    pub initializer: Option<Box<AstNode<'a>>>,
    pub line: usize,
    pub column: usize,
}

#[derive(Debug, PartialEq)]
pub struct AssignmentData<'a> {
    pub target: Box<AstNode<'a>>,
    pub value: Box<AstNode<'a>>,
    pub line: usize,
    pub column: usize,
}

#[derive(Debug, PartialEq)]
pub struct IfElseData<'a> {
    pub condition_expr: Box<AstNode<'a>>,
    pub if_branch: Box<AstNode<'a>>,
    pub else_branch: Option<Box<AstNode<'a>>>,
    pub line: usize,
    pub column: usize,
}

#[derive(Debug, PartialEq)]
pub struct CallData<'a> {
    pub name: &'a str,
    pub arguments: Vec<AstNode<'a>>,
    pub line: usize,
    pub column: usize,
}

#[derive(Debug, PartialEq)]
pub struct MemberAccessData<'a> {
    pub object: Box<AstNode<'a>>,
    pub member: String,
    pub line: usize,
    pub column: usize,
}

#[derive(Debug, PartialEq)]
pub struct ArrayIndexData<'a> {
    pub array: Box<AstNode<'a>>,
    pub index: Box<AstNode<'a>>,
    pub line: usize,
    pub column: usize,
}

#[derive(Debug, PartialEq)]
pub struct WhileLoopData<'a> {
    pub condition_expr: Box<AstNode<'a>>,
    pub body: Box<AstNode<'a>>,
    pub line: usize,
    pub column: usize,
}

#[derive(Debug, PartialEq)]
pub struct StructDeclData<'a> {
    pub name: &'a str,
    pub fields: Vec<Parameter<'a>>,
    pub line: usize,
    pub column: usize,
}

#[derive(Debug, PartialEq)]
pub struct BlockStatementData<'a> {
    pub statements: Vec<AstNode<'a>>,
    pub line: usize,
    pub column: usize,
}

#[derive(Debug, PartialEq)]
pub struct ReturnData<'a> {
    pub value: Option<Box<AstNode<'a>>>,
    pub line: usize,
    pub column: usize,
}

/// A node of the tree. A float literal keeps the text it was written with
/// (validated by the parser against the grammar of decimal floating-point numbers).
#[derive(Debug, PartialEq)]
pub enum AstNode<'a> {
    Programm(Vec<AstNode<'a>>),
    FunctionDecl(FunctionDeclData<'a>),
    ReturnStatement(ReturnData<'a>),
    IntLiteralExpr(i16),
    BoolLiteralExpr(bool),
    BlockStatement(BlockStatementData<'a>),
    BinaryExpr(BinaryExpData<'a>),
    IfElseStatement(IfElseData<'a>),
    VariableExpr(&'a str),
    VarDeclStatement(VarDeclData<'a>),
    AssignmentStatement(AssignmentData<'a>),
    CallExpr(CallData<'a>),
    FloatLiteralExpr(&'a str),
    StringLiteralExpr(&'a str),
    StructDecl(StructDeclData<'a>),
    MemberAccessExpr(MemberAccessData<'a>),
    ArrayIndexExpr(ArrayIndexData<'a>),
    WhileStatement(WhileLoopData<'a>),
    PrintStatement(Box<AstNode<'a>>),
}

// ---------------------------------------------------------------------------
// Abstract values

/// The abstract value of a type.
pub enum Ty {
    Int,
    Bool,
    Float,
    Str,
    Struct(Seq<char>),
    Array(Box<Ty>),
}

/// The abstract value of a parameter or field: its name and type.
pub struct Field {
    pub name: Seq<char>,
    pub typ: Ty,
}

/// The abstract value of a tree node.
pub enum Node {
    Program(Seq<Node>),
    Function { name: Seq<char>, return_type: Ty, params: Seq<Field>, body: Box<Node>, line: int, column: int },
    Return { value: Option<Box<Node>>, line: int, column: int },
    IntLit(i16),
    BoolLit(bool),
    Block { statements: Seq<Node>, line: int, column: int },
    Binary { left: Box<Node>, right: Box<Node>, op: BinaryOperator, line: int, column: int },
    IfElse { cond: Box<Node>, then_branch: Box<Node>, else_branch: Option<Box<Node>>, line: int, column: int },
    Variable(Seq<char>),
    VarDecl { name: Seq<char>, typ: Ty, init: Option<Box<Node>>, line: int, column: int },
    Assign { target: Box<Node>, value: Box<Node>, line: int, column: int },
    Call { name: Seq<char>, args: Seq<Node>, line: int, column: int },
    FloatLit(Seq<char>),
    StringLit(Seq<char>),
    StructDecl { name: Seq<char>, fields: Seq<Field>, line: int, column: int },
    Member { object: Box<Node>, member: Seq<char>, line: int, column: int },
    Index { array: Box<Node>, index: Box<Node>, line: int, column: int },
    While { cond: Box<Node>, body: Box<Node>, line: int, column: int },
    Print(Box<Node>),
}

impl<'a> View for Type<'a> {
    type V = Ty;

    open spec fn view(&self) -> Ty
        decreases self,
    {
        match self {
            Type::Int => Ty::Int,
            Type::Bool => Ty::Bool,
            Type::Float => Ty::Float,
            Type::String => Ty::Str,
            Type::Struct(n) => Ty::Struct(n@),
            Type::Array(inner) => Ty::Array(Box::new((**inner).view())),
        }
    }
}

impl<'a> View for Parameter<'a> {
    type V = Field;

    open spec fn view(&self) -> Field {
        Field { name: self.name@, typ: self.param_typ@ }
    }
}

/// The abstract values of a list of parameters.
pub open spec fn fields_view<'a>(ps: Seq<Parameter<'a>>) -> Seq<Field> {
    ps.map_values(|p: Parameter<'a>| p@)
}

/// The abstract value of an optional boxed node.
pub open spec fn opt_view<'a>(o: Option<Box<AstNode<'a>>>) -> Option<Box<Node>>
    decreases o, 3int,
{
    match o {
        Some(b) => Some(Box::new(node_view(*b))),
        None => None,
    }
}

/// The abstract values of a list of nodes.
pub open spec fn nodes_view<'a>(ns: Seq<AstNode<'a>>) -> Seq<Node>
    decreases ns, 1int,
{
    Seq::new(ns.len(), |i: int| node_view_at(ns, i))
}

/// The abstract value of the `i`-th node of a list.
pub open spec fn node_view_at<'a>(ns: Seq<AstNode<'a>>, i: int) -> Node
    decreases ns, 0int,
{
    if 0 <= i < ns.len() {
        node_view(ns[i])
    } else {
        Node::IntLit(0)
    }
}

/// The abstract value of a node.
pub open spec fn node_view<'a>(n: AstNode<'a>) -> Node
    decreases n, 2int,
{
    match n {
        AstNode::Programm(v) => Node::Program(nodes_view(v@)),
        AstNode::FunctionDecl(d) => Node::Function {
            name: d.name@,
            return_type: d.return_type@,
            params: fields_view(d.parameter@),
            body: Box::new(node_view(*d.body)),
            line: d.line as int,
            column: d.column as int,
        },
        AstNode::ReturnStatement(d) => Node::Return {
            value: opt_view(d.value),
            line: d.line as int,
            column: d.column as int,
        },
        AstNode::IntLiteralExpr(v) => Node::IntLit(v),
        AstNode::BoolLiteralExpr(b) => Node::BoolLit(b),
        AstNode::BlockStatement(d) => Node::Block {
            statements: nodes_view(d.statements@),
            line: d.line as int,
            column: d.column as int,
        },
        AstNode::BinaryExpr(d) => Node::Binary {
            left: Box::new(node_view(*d.left)),
            right: Box::new(node_view(*d.right)),
            op: d.operator,
            line: d.line as int,
            column: d.column as int,
        },
        AstNode::IfElseStatement(d) => Node::IfElse {
            cond: Box::new(node_view(*d.condition_expr)),
            then_branch: Box::new(node_view(*d.if_branch)),
            else_branch: opt_view(d.else_branch),
            line: d.line as int,
            column: d.column as int,
        },
        AstNode::VariableExpr(n) => Node::Variable(n@),
        AstNode::VarDeclStatement(d) => Node::VarDecl {
            name: d.name@,
            typ: d.var_typ@,
            init: opt_view(d.initializer),
            line: d.line as int,
            column: d.column as int,
        },
        AstNode::AssignmentStatement(d) => Node::Assign {
            target: Box::new(node_view(*d.target)),
            value: Box::new(node_view(*d.value)),
            line: d.line as int,
            column: d.column as int,
        },
        AstNode::CallExpr(d) => Node::Call {
            name: d.name@,
            args: nodes_view(d.arguments@),
            line: d.line as int,
            column: d.column as int,
        },
        AstNode::FloatLiteralExpr(t) => Node::FloatLit(t@),
        AstNode::StringLiteralExpr(t) => Node::StringLit(t@),
        AstNode::StructDecl(d) => Node::StructDecl {
            name: d.name@,
            fields: fields_view(d.fields@),
            line: d.line as int,
            column: d.column as int,
        },
        AstNode::MemberAccessExpr(d) => Node::Member {
            object: Box::new(node_view(*d.object)),
            member: d.member@,
            line: d.line as int,
            column: d.column as int,
        },
        AstNode::ArrayIndexExpr(d) => Node::Index {
            array: Box::new(node_view(*d.array)),
            index: Box::new(node_view(*d.index)),
            line: d.line as int,
            column: d.column as int,
        },
        AstNode::WhileStatement(d) => Node::While {
            cond: Box::new(node_view(*d.condition_expr)),
            body: Box::new(node_view(*d.body)),
            line: d.line as int,
            column: d.column as int,
        },
        AstNode::PrintStatement(e) => Node::Print(Box::new(node_view(*e))),
    }
}

impl<'a> View for AstNode<'a> {
    type V = Node;

    open spec fn view(&self) -> Node {
        node_view(*self)
    }
}

/// A copy of a type.
pub fn copy_type<'a>(t: &Type<'a>) -> (r: Type<'a>)
    ensures
        r@ == t@,
    decreases t,
{
    match t {
        Type::Int => Type::Int,
        Type::Bool => Type::Bool,
        Type::Float => Type::Float,
        Type::String => Type::String,
        Type::Struct(n) => Type::Struct(n),
        Type::Array(inner) => {
            let c = copy_type(inner);
            let ghost ci = c@;
            let r = Type::Array(Box::new(c));
            assert(r@ == Ty::Array(Box::new(ci)));
            r
        },
    }
}

/// Whether two types are the same.
pub fn same_type<'a>(a: &Type<'a>, b: &Type<'a>) -> (r: bool)
    ensures
        r == (a@ == b@),
    decreases a,
{
    match a {
        Type::Int => matches!(b, Type::Int),
        Type::Bool => matches!(b, Type::Bool),
        Type::Float => matches!(b, Type::Float),
        Type::String => matches!(b, Type::String),
        Type::Struct(x) => match b {
            Type::Struct(y) => str_equals(x, y),
            _ => false,
        },
        Type::Array(x) => match b {
            Type::Array(y) => {
                let r = same_type(x, y);
                assert(a@ == Ty::Array(Box::new((**x)@)));
                assert(b@ == Ty::Array(Box::new((**y)@)));
                r
            },
            _ => false,
        },
    }
}

} // verus!
