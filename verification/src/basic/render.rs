//! Rendering of basic-dialect types and tree nodes as text, in the notation of
//! Rust's `{:?}` formatting of the tree types (float literals appear as written).

use vstd::prelude::*;
use crate::basic::parser::{fields_view, node_view, nodes_view, opt_view, AstNode, BinaryOperator, Field, Node, Parameter, Type};
use crate::text::{debug_quoted, debug_str, dec_int, push_dec_i64};

verus! {

/// The name of an operator.
pub open spec fn op_text(op: BinaryOperator) -> Seq<char> {
    match op {
        BinaryOperator::Add => "Add"@,
        BinaryOperator::Sub => "Sub"@,
        BinaryOperator::Mul => "Mul"@,
        BinaryOperator::Div => "Div"@,
        BinaryOperator::DoubleEqual => "DoubleEqual"@,
        BinaryOperator::LessThan => "LessThan"@,
        BinaryOperator::GreaterThan => "GreaterThan"@,
        BinaryOperator::LessOrEqual => "LessOrEqual"@,
        BinaryOperator::GreaterOrEqual => "GreaterOrEqual"@,
    }
}

/// The name of a type.
pub open spec fn ty_text(t: Type) -> Seq<char> {
    match t {
        Type::Int => "Int"@,
        Type::Bool => "Bool"@,
        Type::Float => "Float"@,
        Type::String => "String"@,
    }
}

/// The text of a parameter.
pub open spec fn field_text(f: Field) -> Seq<char> {
    "Parameter { name: "@ + debug_quoted(f.name) + ", param_typ: "@ + ty_text(f.typ) + " }"@
}

/// The first `k` parameters, separated by `, `.
pub open spec fn fields_join(fs: Seq<Field>, k: int) -> Seq<char>
    decreases k,
{
    if k <= 0 || k > fs.len() {
        Seq::empty()
    } else if k == 1 {
        field_text(fs[0])
    } else {
        fields_join(fs, k - 1) + ", "@ + field_text(fs[k - 1])
    }
}

/// The first `k` nodes, separated by `, `.
pub open spec fn nodes_join(ns: Seq<Node>, k: int) -> Seq<char>
    decreases ns, k,
{
    if k <= 0 || k > ns.len() {
        Seq::empty()
    } else if k == 1 {
        node_text(ns[0])
    } else {
        nodes_join(ns, k - 1) + ", "@ + node_text(ns[k - 1])
    }
}

/// A list of nodes in brackets.
pub open spec fn nodes_text(ns: Seq<Node>) -> Seq<char>
    decreases ns, ns.len() + 1,
{
    "["@ + nodes_join(ns, ns.len() as int) + "]"@
}

/// An optional node: `None` or `Some(..)`.
pub open spec fn opt_text(o: Option<Box<Node>>) -> Seq<char>
    decreases o, 0int,
{
    match o {
        None => "None"@,
        Some(b) => "Some("@ + node_text(*b) + ")"@,
    }
}

/// The text of a node.
pub open spec fn node_text(n: Node) -> Seq<char>
    decreases n, 0int,
{
    match n {
        Node::Program(ns) => "Programm("@ + nodes_text(ns) + ")"@,
        Node::Function { name, return_type, params, body } => "FunctionDecl(FunctionDeclData { name: "@
            + debug_quoted(name) + ", return_type: "@ + ty_text(return_type) + ", parameter: ["@
            + fields_join(params, params.len() as int) + "], body: "@ + node_text(*body) + " })"@,
        Node::Return(e) => "ReturnStatement("@ + node_text(*e) + ")"@,
        Node::IntLit(v) => "IntLiteralExpr("@ + dec_int(v as int) + ")"@,
        Node::BoolLit(b) => if b { "BoolLiteralExpr(true)"@ } else { "BoolLiteralExpr(false)"@ },
        Node::Block(ns) => "BlockStatement("@ + nodes_text(ns) + ")"@,
        Node::Binary { left, right, op } => "BinaryExpr(BinaryExpData { left: "@ + node_text(*left) + ", right: "@
            + node_text(*right) + ", operator: "@ + op_text(op) + " })"@,
        Node::IfElse { cond, then_branch, else_branch } => "IfElseStatement(IfElseData { condition_expr: "@
            + node_text(*cond) + ", if_branch: "@ + node_text(*then_branch) + ", else_branch: "@
            + opt_text(else_branch) + " })"@,
        Node::Variable(name) => "VariableExpr("@ + debug_quoted(name) + ")"@,
        Node::VarDecl { name, typ, init } => "VarDeclStatement(VarDeclData { name: "@ + debug_quoted(name)
            + ", var_typ: "@ + ty_text(typ) + ", initializer: "@ + opt_text(init) + " })"@,
        Node::Assign { name, value } => "AssignmentStatement(AssignmentData { name: "@ + debug_quoted(name)
            + ", value: "@ + node_text(*value) + " })"@,
        Node::Call { name, args } => "CallExpr(CallData { name: "@ + debug_quoted(name) + ", arguments: "@
            + nodes_text(args) + " })"@,
        Node::FloatLit(t) => "FloatLiteralExpr("@ + t + ")"@,
        Node::StringLit(t) => "StringLiteralExpr("@ + debug_quoted(t) + ")"@,
    }
}

/// Appends the text of an operator.
fn write_op(out: &mut String, op: BinaryOperator)
    ensures
        final(out)@ == old(out)@ + op_text(op),
{
    match op {
        BinaryOperator::Add => out.append("Add"),
        BinaryOperator::Sub => out.append("Sub"),
        BinaryOperator::Mul => out.append("Mul"),
        BinaryOperator::Div => out.append("Div"),
        BinaryOperator::DoubleEqual => out.append("DoubleEqual"),
        BinaryOperator::LessThan => out.append("LessThan"),
        BinaryOperator::GreaterThan => out.append("GreaterThan"),
        BinaryOperator::LessOrEqual => out.append("LessOrEqual"),
        BinaryOperator::GreaterOrEqual => out.append("GreaterOrEqual"),
    }
}

/// Appends the name of a type.
pub fn write_type(out: &mut String, t: Type)
    ensures
        final(out)@ == old(out)@ + ty_text(t),
{
    match t {
        Type::Int => out.append("Int"),
        Type::Bool => out.append("Bool"),
        Type::Float => out.append("Float"),
        Type::String => out.append("String"),
    }
}

/// Appends the quoted, escaped text of a string.
fn write_quoted(out: &mut String, s: &str)
    ensures
        final(out)@ == old(out)@ + debug_quoted(s@),
{
    let q = debug_str(s);
    out.append(q.as_str());
}

/// Appends the comma-separated parameters.
fn write_fields(out: &mut String, ps: &Vec<Parameter>)
    ensures
        final(out)@ == old(out)@ + fields_join(fields_view(ps@), ps@.len() as int),
{
    let ghost fs = fields_view(ps@);
    let ghost start = out@;
    let mut k: usize = 0;
    assert(out@ =~= start + fields_join(fs, 0));
    while k < ps.len()
        invariant
            k <= ps@.len(),
            fs == fields_view(ps@),
            out@ == start + fields_join(fs, k as int),
        decreases ps@.len() - k,
    {
        if k > 0 {
            out.append(", ");
        }
        out.append("Parameter { name: ");
        write_quoted(out, ps[k].name.as_str());
        out.append(", param_typ: ");
        write_type(out, ps[k].param_typ);
        out.append(" }");
        k += 1;
        assert(out@ =~= start + fields_join(fs, k as int));
    }
}

/// Appends the text of an optional node.
fn write_opt(out: &mut String, o: &Option<Box<AstNode>>)
    ensures
        final(out)@ == old(out)@ + opt_text(opt_view(*o)),
    decreases o, 0int,
{
    match o {
        None => out.append("None"),
        Some(b) => {
            out.append("Some(");
            write_node(out, b);
            out.append(")");
            assert(final(out)@ =~= old(out)@ + opt_text(opt_view(*o)));
        },
    }
}

/// Appends the bracketed list of nodes.
fn write_nodes(out: &mut String, ns: &Vec<AstNode>)
    ensures
        final(out)@ == old(out)@ + nodes_text(nodes_view(ns@)),
    decreases ns, 1int,
{
    let ghost vs = nodes_view(ns@);
    let ghost start = out@;
    out.append("[");
    let mut k: usize = 0;
    while k < ns.len()
        invariant
            k <= ns@.len(),
            vs == nodes_view(ns@),
            out@ == start + "["@ + nodes_join(vs, k as int),
        decreases ns@.len() - k,
    {
        if k > 0 {
            out.append(", ");
        }
        proof { assert(decreases_to!(ns => ns@[k as int])); }
        write_node(out, &ns[k]);
        assert(vs[k as int] == node_view(ns@[k as int]));
        k += 1;
        assert(out@ =~= start + "["@ + nodes_join(vs, k as int));
    }
    out.append("]");
    assert(out@ =~= start + nodes_text(vs));
}

/// Appends the text of a node.
#[verifier::spinoff_prover]
#[verifier::rlimit(40)]
pub fn write_node(out: &mut String, n: &AstNode)
    ensures
        final(out)@ == old(out)@ + node_text(n@),
    decreases n, 2int,
{
    let ghost start = out@;
    match n {
        AstNode::Programm(v) => {
            out.append("Programm(");
            write_nodes(out, v);
            out.append(")");
            assert(out@ =~= start + node_text(n@));
        },
        AstNode::FunctionDecl(d) => {
            out.append("FunctionDecl(FunctionDeclData { name: ");
            write_quoted(out, d.name.as_str());
            out.append(", return_type: ");
            write_type(out, d.return_type);
            out.append(", parameter: [");
            write_fields(out, &d.parameter);
            out.append("], body: ");
            write_node(out, &d.body);
            out.append(" })");
            assert(out@ =~= start + node_text(n@));
        },
        AstNode::ReturnStatement(e) => {
            out.append("ReturnStatement(");
            write_node(out, e);
            out.append(")");
            assert(out@ =~= start + node_text(n@));
        },
        AstNode::IntLiteralExpr(v) => {
            out.append("IntLiteralExpr(");
            push_dec_i64(out, *v as i64);
            out.append(")");
            assert(out@ =~= start + node_text(n@));
        },
        AstNode::BoolLiteralExpr(b) => {
            if *b {
                out.append("BoolLiteralExpr(true)");
            } else {
                out.append("BoolLiteralExpr(false)");
            }
        },
        AstNode::BlockStatement(v) => {
            out.append("BlockStatement(");
            write_nodes(out, v);
            out.append(")");
            assert(out@ =~= start + node_text(n@));
        },
        AstNode::BinaryExpr(d) => {
            out.append("BinaryExpr(BinaryExpData { left: ");
            write_node(out, &d.left);
            out.append(", right: ");
            write_node(out, &d.right);
            out.append(", operator: ");
            write_op(out, d.operator);
            out.append(" })");
            assert(out@ =~= start + node_text(n@));
        },
        AstNode::IfElseStatement(d) => {
            out.append("IfElseStatement(IfElseData { condition_expr: ");
            write_node(out, &d.condition_expr);
            out.append(", if_branch: ");
            write_node(out, &d.if_branch);
            out.append(", else_branch: ");
            write_opt(out, &d.else_branch);
            out.append(" })");
            assert(out@ =~= start + node_text(n@));
        },
        AstNode::VariableExpr(name) => {
            out.append("VariableExpr(");
            write_quoted(out, name.as_str());
            out.append(")");
            assert(out@ =~= start + node_text(n@));
        },
        AstNode::VarDeclStatement(d) => {
            out.append("VarDeclStatement(VarDeclData { name: ");
            write_quoted(out, d.name.as_str());
            out.append(", var_typ: ");
            write_type(out, d.var_typ);
            out.append(", initializer: ");
            write_opt(out, &d.initializer);
            out.append(" })");
            assert(out@ =~= start + node_text(n@));
        },
        AstNode::AssignmentStatement(d) => {
            out.append("AssignmentStatement(AssignmentData { name: ");
            write_quoted(out, d.name.as_str());
            out.append(", value: ");
            write_node(out, &d.value);
            out.append(" })");
            assert(out@ =~= start + node_text(n@));
        },
        AstNode::CallExpr(d) => {
            out.append("CallExpr(CallData { name: ");
            write_quoted(out, d.name.as_str());
            out.append(", arguments: ");
            write_nodes(out, &d.arguments);
            out.append(" })");
            assert(out@ =~= start + node_text(n@));
        },
        AstNode::FloatLiteralExpr(t) => {
            out.append("FloatLiteralExpr(");
            out.append(t.as_str());
            out.append(")");
            assert(out@ =~= start + node_text(n@));
        },
        AstNode::StringLiteralExpr(t) => {
            out.append("StringLiteralExpr(");
            write_quoted(out, t.as_str());
            out.append(")");
            assert(out@ =~= start + node_text(n@));
        },
    }
}

} // verus!
