//! Rendering of types and tree nodes as text, in the notation of Rust's
//! `{:?}` formatting of the tree types (float literals appear as written).

use vstd::prelude::*;
use crate::ast::{
    fields_view, node_view, nodes_view, opt_view, AstNode, BinaryOperator, Field, Node, Parameter, Ty, Type,
};
use crate::text::{debug_quoted, debug_str, dec_int, dec_nat, push_dec_i64, push_dec_usize};

verus! {

/// The name of an operator.
pub open spec fn op_text(op: BinaryOperator) -> Seq<char> {
    match op {
        BinaryOperator::Add => "Add"@,
        BinaryOperator::Sub => "Sub"@,
        BinaryOperator::Mul => "Mul"@,
        BinaryOperator::Div => "Div"@,
        BinaryOperator::DoubleEqual => "DoubleEqual"@,
        BinaryOperator::LessThan => "LessThan"@,
        BinaryOperator::GreaterThan => "GreaterThan"@,
        BinaryOperator::LessOrEqual => "LessOrEqual"@,
        BinaryOperator::GreaterOrEqual => "GreaterOrEqual"@,
    }
}

/// The text of a type, such as `Int`, `Struct("Point")` or `Array(Float)`.
pub open spec fn ty_text(t: Ty) -> Seq<char>
    decreases t,
{
    match t {
        Ty::Int => "Int"@,
        Ty::Bool => "Bool"@,
        Ty::Float => "Float"@,
        Ty::Str => "String"@,
        Ty::Struct(n) => "Struct("@ + debug_quoted(n) + ")"@,
        Ty::Array(inner) => "Array("@ + ty_text(*inner) + ")"@,
    }
}

/// The text of a parameter or field.
pub open spec fn field_text(f: Field) -> Seq<char> {
    "Parameter { name: "@ + debug_quoted(f.name) + ", param_typ: "@ + ty_text(f.typ) + " }"@
}

/// The first `k` fields, separated by `, `.
pub open spec fn fields_join(fs: Seq<Field>, k: int) -> Seq<char>
    decreases k,
{
    if k <= 0 || k > fs.len() {
        Seq::empty()
    } else if k == 1 {
        field_text(fs[0])
    } else {
        fields_join(fs, k - 1) + ", "@ + field_text(fs[k - 1])
    }
}

/// A list of fields in brackets.
pub open spec fn fields_text(fs: Seq<Field>) -> Seq<char> {
    "["@ + fields_join(fs, fs.len() as int) + "]"@
}

/// The first `k` nodes, separated by `, `.
pub open spec fn nodes_join(ns: Seq<Node>, k: int) -> Seq<char>
    decreases ns, k,
{
    if k <= 0 || k > ns.len() {
        Seq::empty()
    } else if k == 1 {
        node_text(ns[0])
    } else {
        nodes_join(ns, k - 1) + ", "@ + node_text(ns[k - 1])
    }
}

/// A list of nodes in brackets.
pub open spec fn nodes_text(ns: Seq<Node>) -> Seq<char>
    decreases ns, ns.len() + 1,
{
    "["@ + nodes_join(ns, ns.len() as int) + "]"@
}

/// An optional node: `None` or `Some(..)`.
pub open spec fn opt_text(o: Option<Box<Node>>) -> Seq<char>
    decreases o, 0int,
{
    match o {
        None => "None"@,
        Some(b) => "Some("@ + node_text(*b) + ")"@,
    }
}

/// `, line: L, column: C }`, closing a node's data.
pub open spec fn pos_text(line: int, column: int) -> Seq<char> {
    ", line: "@ + dec_int(line) + ", column: "@ + dec_int(column) + " }"@
}

/// The text of a node.
pub open spec fn node_text(n: Node) -> Seq<char>
    decreases n, 0int,
{
    match n {
        Node::Program(ns) => "Programm("@ + nodes_text(ns) + ")"@,
        Node::Function { name, return_type, params, body, line, column } => "FunctionDecl(FunctionDeclData { name: "@
            + debug_quoted(name) + ", return_type: "@ + ty_text(return_type) + ", parameter: "@
            + fields_text(params) + ", body: "@ + node_text(*body) + pos_text(line, column) + ")"@,
        Node::Return { value, line, column } => "ReturnStatement(ReturnData { value: "@ + opt_text(value)
            + pos_text(line, column) + ")"@,
        Node::IntLit(v) => "IntLiteralExpr("@ + dec_int(v as int) + ")"@,
        Node::BoolLit(b) => if b { "BoolLiteralExpr(true)"@ } else { "BoolLiteralExpr(false)"@ },
        Node::Block { statements, line, column } => "BlockStatement(BlockStatementData { statements: "@
            + nodes_text(statements) + pos_text(line, column) + ")"@,
        Node::Binary { left, right, op, line, column } => "BinaryExpr(BinaryExpData { left: "@
            + node_text(*left) + ", right: "@ + node_text(*right) + ", operator: "@ + op_text(op)
            + pos_text(line, column) + ")"@,
        Node::IfElse { cond, then_branch, else_branch, line, column } => "IfElseStatement(IfElseData { condition_expr: "@
            + node_text(*cond) + ", if_branch: "@ + node_text(*then_branch) + ", else_branch: "@
            + opt_text(else_branch) + pos_text(line, column) + ")"@,
        Node::Variable(name) => "VariableExpr("@ + debug_quoted(name) + ")"@,
        Node::VarDecl { name, typ, init, line, column } => "VarDeclStatement(VarDeclData { name: "@
            + debug_quoted(name) + ", var_typ: "@ + ty_text(typ) + ", initializer: "@ + opt_text(init)
            + pos_text(line, column) + ")"@,
        Node::Assign { target, value, line, column } => "AssignmentStatement(AssignmentData { target: "@
            + node_text(*target) + ", value: "@ + node_text(*value) + pos_text(line, column) + ")"@,
        Node::Call { name, args, line, column } => "CallExpr(CallData { name: "@ + debug_quoted(name)
            + ", arguments: "@ + nodes_text(args) + pos_text(line, column) + ")"@,
        Node::FloatLit(t) => "FloatLiteralExpr("@ + t + ")"@,
        Node::StringLit(t) => "StringLiteralExpr("@ + debug_quoted(t) + ")"@,
        Node::StructDecl { name, fields, line, column } => "StructDecl(StructDeclData { name: "@
            + debug_quoted(name) + ", fields: "@ + fields_text(fields) + pos_text(line, column) + ")"@,
        Node::Member { object, member, line, column } => "MemberAccessExpr(MemberAccessData { object: "@
            + node_text(*object) + ", member: "@ + debug_quoted(member) + pos_text(line, column) + ")"@,
        Node::Index { array, index, line, column } => "ArrayIndexExpr(ArrayIndexData { array: "@
            + node_text(*array) + ", index: "@ + node_text(*index) + pos_text(line, column) + ")"@,
        Node::While { cond, body, line, column } => "WhileStatement(WhileLoopData { condition_expr: "@
            + node_text(*cond) + ", body: "@ + node_text(*body) + pos_text(line, column) + ")"@,
        Node::Print(e) => "PrintStatement("@ + node_text(*e) + ")"@,
    }
}

/// Appends the text of an operator.
pub fn write_op(out: &mut String, op: BinaryOperator)
    ensures
        final(out)@ == old(out)@ + op_text(op),
{
    match op {
        BinaryOperator::Add => out.append("Add"),
        BinaryOperator::Sub => out.append("Sub"),
        BinaryOperator::Mul => out.append("Mul"),
        BinaryOperator::Div => out.append("Div"),
        BinaryOperator::DoubleEqual => out.append("DoubleEqual"),
        BinaryOperator::LessThan => out.append("LessThan"),
        BinaryOperator::GreaterThan => out.append("GreaterThan"),
        BinaryOperator::LessOrEqual => out.append("LessOrEqual"),
        BinaryOperator::GreaterOrEqual => out.append("GreaterOrEqual"),
    }
}

/// Appends the quoted, escaped text of a string.
pub fn write_quoted(out: &mut String, s: &str)
    ensures
        final(out)@ == old(out)@ + debug_quoted(s@),
{
    let q = debug_str(s);
    out.append(q.as_str());
}

/// Appends the text of a type.
pub fn write_type(out: &mut String, t: &Type)
    ensures
        final(out)@ == old(out)@ + ty_text(t@),
    decreases t,
{
    match t {
        Type::Int => out.append("Int"),
        Type::Bool => out.append("Bool"),
        Type::Float => out.append("Float"),
        Type::String => out.append("String"),
        Type::Struct(n) => {
            out.append("Struct(");
            write_quoted(out, n);
            out.append(")");
            assert(final(out)@ =~= old(out)@ + ty_text(t@));
        },
        Type::Array(inner) => {
            out.append("Array(");
            write_type(out, inner);
            out.append(")");
            assert(final(out)@ =~= old(out)@ + ty_text(t@));
        },
    }
}

/// The text of a type as a string.
pub fn type_string(t: &Type) -> (s: String)
    ensures
        s@ == ty_text(t@),
{
    let mut s = String::new();
    write_type(&mut s, t);
    assert(s@ =~= ty_text(t@));
    s
}

/// Appends the text of a parameter.
fn write_field(out: &mut String, p: &Parameter)
    ensures
        final(out)@ == old(out)@ + field_text(p@),
{
    out.append("Parameter { name: ");
    write_quoted(out, p.name);
    out.append(", param_typ: ");
    write_type(out, &p.param_typ);
    out.append(" }");
    assert(final(out)@ =~= old(out)@ + field_text(p@));
}

/// Appends the bracketed list of parameters.
fn write_fields(out: &mut String, ps: &Vec<Parameter>)
    ensures
        final(out)@ == old(out)@ + fields_text(fields_view(ps@)),
{
    let ghost fs = fields_view(ps@);
    let ghost start = out@;
    out.append("[");
    let mut k: usize = 0;
    while k < ps.len()
        invariant
            k <= ps@.len(),
            fs == fields_view(ps@),
            out@ == start + "["@ + fields_join(fs, k as int),
        decreases ps@.len() - k,
    {
        if k > 0 {
            out.append(", ");
        }
        write_field(out, &ps[k]);
        k += 1;
        assert(out@ =~= start + "["@ + fields_join(fs, k as int));
    }
    out.append("]");
    assert(out@ =~= start + fields_text(fs));
}

/// Appends `, line: L, column: C }`.
fn write_pos(out: &mut String, line: usize, column: usize)
    ensures
        final(out)@ == old(out)@ + pos_text(line as int, column as int),
{
    out.append(", line: ");
    push_dec_usize(out, line);
    out.append(", column: ");
    push_dec_usize(out, column);
    out.append(" }");
    assert(final(out)@ =~= old(out)@ + pos_text(line as int, column as int));
}

/// Appends the text of an optional node.
fn write_opt(out: &mut String, o: &Option<Box<AstNode>>)
    ensures
        final(out)@ == old(out)@ + opt_text(opt_view(*o)),
    decreases o, 0int,
{
    match o {
        None => out.append("None"),
        Some(b) => {
            out.append("Some(");
            write_node(out, b);
            out.append(")");
            assert(final(out)@ =~= old(out)@ + opt_text(opt_view(*o)));
        },
    }
}

/// Appends the bracketed list of nodes.
fn write_nodes(out: &mut String, ns: &Vec<AstNode>)
    ensures
        final(out)@ == old(out)@ + nodes_text(nodes_view(ns@)),
    decreases ns, 1int,
{
    let ghost vs = nodes_view(ns@);
    let ghost start = out@;
    out.append("[");
    let mut k: usize = 0;
    while k < ns.len()
        invariant
            k <= ns@.len(),
            vs == nodes_view(ns@),
            out@ == start + "["@ + nodes_join(vs, k as int),
        decreases ns@.len() - k,
    {
        if k > 0 {
            out.append(", ");
        }
        proof { assert(decreases_to!(ns => ns@[k as int])); }
        write_node(out, &ns[k]);
        assert(vs[k as int] == node_view(ns@[k as int]));
        k += 1;
        assert(out@ =~= start + "["@ + nodes_join(vs, k as int));
    }
    out.append("]");
    assert(out@ =~= start + nodes_text(vs));
}

/// Appends the text of a node.
#[verifier::spinoff_prover]
#[verifier::rlimit(40)]
pub fn write_node(out: &mut String, n: &AstNode)
    ensures
        final(out)@ == old(out)@ + node_text(n@),
    decreases n, 2int,
{
    let ghost start = out@;
    match n {
        AstNode::Programm(v) => {
            out.append("Programm(");
            write_nodes(out, v);
            out.append(")");
            assert(out@ =~= start + node_text(n@));
        },
        AstNode::FunctionDecl(d) => {
            out.append("FunctionDecl(FunctionDeclData { name: ");
            write_quoted(out, d.name);
            out.append(", return_type: ");
            write_type(out, &d.return_type);
            out.append(", parameter: ");
            write_fields(out, &d.parameter);
            out.append(", body: ");
            write_node(out, &d.body);
            write_pos(out, d.line, d.column);
            out.append(")");
            assert(out@ =~= start + node_text(n@));
        },
        AstNode::ReturnStatement(d) => {
            out.append("ReturnStatement(ReturnData { value: ");
            write_opt(out, &d.value);
            write_pos(out, d.line, d.column);
            out.append(")");
            assert(out@ =~= start + node_text(n@));
        },
        AstNode::IntLiteralExpr(v) => {
            out.append("IntLiteralExpr(");
            push_dec_i64(out, *v as i64);
            out.append(")");
            assert(out@ =~= start + node_text(n@));
        },
        AstNode::BoolLiteralExpr(b) => {
            if *b {
                out.append("BoolLiteralExpr(true)");
            } else {
                out.append("BoolLiteralExpr(false)");
            }
            assert(out@ =~= start + node_text(n@));
        },
        AstNode::BlockStatement(d) => {
            out.append("BlockStatement(BlockStatementData { statements: ");
            write_nodes(out, &d.statements);
            write_pos(out, d.line, d.column);
            out.append(")");
            assert(out@ =~= start + node_text(n@));
        },
        AstNode::BinaryExpr(d) => {
            out.append("BinaryExpr(BinaryExpData { left: ");
            write_node(out, &d.left);
            out.append(", right: ");
            write_node(out, &d.right);
            out.append(", operator: ");
            write_op(out, d.operator);
            write_pos(out, d.line, d.column);
            out.append(")");
            assert(out@ =~= start + node_text(n@));
        },
        AstNode::IfElseStatement(d) => {
            out.append("IfElseStatement(IfElseData { condition_expr: ");
            write_node(out, &d.condition_expr);
            out.append(", if_branch: ");
            write_node(out, &d.if_branch);
            out.append(", else_branch: ");
            write_opt(out, &d.else_branch);
            write_pos(out, d.line, d.column);
            out.append(")");
            assert(out@ =~= start + node_text(n@));
        },
        AstNode::VariableExpr(name) => {
            out.append("VariableExpr(");
            write_quoted(out, name);
            out.append(")");
            assert(out@ =~= start + node_text(n@));
        },
        AstNode::VarDeclStatement(d) => {
            out.append("VarDeclStatement(VarDeclData { name: ");
            write_quoted(out, d.name);
            out.append(", var_typ: ");
            write_type(out, &d.var_typ);
            out.append(", initializer: ");
            write_opt(out, &d.initializer);
            write_pos(out, d.line, d.column);
            out.append(")");
            assert(out@ =~= start + node_text(n@));
        },
        AstNode::AssignmentStatement(d) => {
            out.append("AssignmentStatement(AssignmentData { target: ");
            write_node(out, &d.target);
            out.append(", value: ");
            write_node(out, &d.value);
            write_pos(out, d.line, d.column);
            out.append(")");
            assert(out@ =~= start + node_text(n@));
        },
        AstNode::CallExpr(d) => {
            out.append("CallExpr(CallData { name: ");
            write_quoted(out, d.name);
            out.append(", arguments: ");
            write_nodes(out, &d.arguments);
            write_pos(out, d.line, d.column);
            out.append(")");
            assert(out@ =~= start + node_text(n@));
        },
        AstNode::FloatLiteralExpr(t) => {
            out.append("FloatLiteralExpr(");
            out.append(t);
            out.append(")");
            assert(out@ =~= start + node_text(n@));
        },
        AstNode::StringLiteralExpr(t) => {
            out.append("StringLiteralExpr(");
            write_quoted(out, t);
            out.append(")");
            assert(out@ =~= start + node_text(n@));
        },
        AstNode::StructDecl(d) => {
            out.append("StructDecl(StructDeclData { name: ");
            write_quoted(out, d.name);
            out.append(", fields: ");
            write_fields(out, &d.fields);
            write_pos(out, d.line, d.column);
            out.append(")");
            assert(out@ =~= start + node_text(n@));
        },
        AstNode::MemberAccessExpr(d) => {
            out.append("MemberAccessExpr(MemberAccessData { object: ");
            write_node(out, &d.object);
            out.append(", member: ");
            write_quoted(out, d.member.as_str());
            write_pos(out, d.line, d.column);
            out.append(")");
            assert(out@ =~= start + node_text(n@));
        },
        AstNode::ArrayIndexExpr(d) => {
            out.append("ArrayIndexExpr(ArrayIndexData { array: ");
            write_node(out, &d.array);
            out.append(", index: ");
            write_node(out, &d.index);
            write_pos(out, d.line, d.column);
            out.append(")");
            assert(out@ =~= start + node_text(n@));
        },
        AstNode::WhileStatement(d) => {
            out.append("WhileStatement(WhileLoopData { condition_expr: ");
            write_node(out, &d.condition_expr);
            out.append(", body: ");
            write_node(out, &d.body);
            write_pos(out, d.line, d.column);
            out.append(")");
            assert(out@ =~= start + node_text(n@));
        },
        AstNode::PrintStatement(e) => {
            out.append("PrintStatement(");
            write_node(out, e);
            out.append(")");
            assert(out@ =~= start + node_text(n@));
        },
    }
}

} // verus!
