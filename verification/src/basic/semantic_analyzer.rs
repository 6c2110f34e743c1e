//! Semantic analysis of the basic dialect: scoping, symbol tables and type checking.
//! Symbol tables are association lists read as maps (see `crate::assoc`).

use vstd::prelude::*;
use crate::assoc::{find_owned_key, owned_table, push_owned_entry};
use crate::basic::parser::{fields_view, node_view, nodes_view, opt_view, AstNode, BinaryOperator, Field, Node, Parameter, Type};
use crate::basic::render::{node_text, ty_text, write_node, write_type};
use crate::text::{dec_nat, push_dec_usize};

verus! {

/// Why the analysis failed.
#[derive(Debug)]
pub enum SemanticError {
    Redefinition(String),
    InvalidReturnType(String),
    UndefinedVariable(String),
    NotMatchingReturnType(String),
    NotImplemented(String),
}

/// The abstract value of an analysis failure.
pub enum SErr {
    Redefinition(Seq<char>),
    InvalidReturnType(Seq<char>),
    UndefinedVariable(Seq<char>),
    NotMatchingReturnType(Seq<char>),
    NotImplemented(Seq<char>),
}

impl View for SemanticError {
    type V = SErr;

    open spec fn view(&self) -> SErr {
        match self {
            SemanticError::Redefinition(m) => SErr::Redefinition(m@),
            SemanticError::InvalidReturnType(m) => SErr::InvalidReturnType(m@),
            SemanticError::UndefinedVariable(m) => SErr::UndefinedVariable(m@),
            SemanticError::NotMatchingReturnType(m) => SErr::NotMatchingReturnType(m@),
            SemanticError::NotImplemented(m) => SErr::NotImplemented(m@),
        }
    }
}

/// What a name stands for.
#[derive(PartialEq, Eq, Structural)]
enum ElementKind {
    Function,
    Variable,
    Parameter,
}

/// A symbol: its type (for a function, the return type), what it stands for,
/// and for a function its parameter types.
struct MetaData {
    typ: Type,
    kind: ElementKind,
    parameters: Option<Vec<Type>>,
}

/// The abstract value of what a name stands for.
pub enum SKind {
    Function,
    Variable,
    Parameter,
}

/// The abstract value of a symbol.
pub struct SMeta {
    pub typ: Type,
    pub kind: SKind,
    pub params: Option<Seq<Type>>,
}

impl View for MetaData {
    type V = SMeta;

    closed spec fn view(&self) -> SMeta {
        SMeta {
            typ: self.typ,
            kind: match self.kind {
                ElementKind::Function => SKind::Function,
                ElementKind::Variable => SKind::Variable,
                ElementKind::Parameter => SKind::Parameter,
            },
            params: match self.parameters {
                Some(v) => Some(v@),
                None => None,
            },
        }
    }
}

/// The abstract state: the scopes (innermost last) and the return type of the
/// function being analyzed (the last function entered).
pub struct AState {
    pub scopes: Seq<Map<Seq<char>, SMeta>>,
    pub ret: Option<Type>,
}

impl AState {
    /// Whether the innermost scope defines `k`.
    pub open spec fn has_local(self, k: Seq<char>) -> bool {
        self.scopes.last().contains_key(k)
    }

    /// The state with `k` defined as `m` in the innermost scope.
    pub open spec fn define(self, k: Seq<char>, m: SMeta) -> AState {
        AState { scopes: self.scopes.update(self.scopes.len() - 1, self.scopes.last().insert(k, m)), ret: self.ret }
    }

    /// The state with a new innermost scope.
    pub open spec fn enter(self) -> AState {
        AState { scopes: self.scopes.push(Map::empty()), ret: self.ret }
    }

    /// The state without its innermost scope.
    pub open spec fn exit(self) -> AState {
        AState { scopes: self.scopes.drop_last(), ret: self.ret }
    }
}

/// The symbol a name denotes: its entry in the innermost scope that defines it.
pub open spec fn lookup(scopes: Seq<Map<Seq<char>, SMeta>>, k: Seq<char>) -> Option<SMeta>
    decreases scopes.len(),
{
    if scopes.len() == 0 {
        None
    } else if scopes.last().contains_key(k) {
        Some(scopes.last()[k])
    } else {
        lookup(scopes.drop_last(), k)
    }
}

/// Whether an operator is arithmetic.
pub open spec fn is_arith(op: BinaryOperator) -> bool {
    op == BinaryOperator::Add || op == BinaryOperator::Sub || op == BinaryOperator::Mul || op == BinaryOperator::Div
}

/// The type of an expression, or why it has none.
pub open spec fn expr_spec(st: AState, n: Node) -> Result<Type, SErr>
    decreases n, 0int,
{
    match n {
        Node::IntLit(_) => Ok(Type::Int),
        Node::BoolLit(_) => Ok(Type::Bool),
        Node::FloatLit(_) => Ok(Type::Float),
        Node::StringLit(_) => Ok(Type::String),
        Node::Variable(name) => match lookup(st.scopes, name) {
            None => Err(SErr::UndefinedVariable("Variable '"@ + name + "' is not defined"@)),
            Some(m) => Ok(m.typ),
        },
        Node::Binary { left, right, op } => match expr_spec(st, *left) {
            Err(e) => Err(e),
            Ok(lt) => match expr_spec(st, *right) {
                Err(e) => Err(e),
                Ok(rt) => if lt != rt {
                    Err(SErr::NotMatchingReturnType(
                        "Binary expression operands must be of type Int, found '"@ + ty_text(lt) + "' and '"@
                            + ty_text(rt) + "'"@,
                    ))
                } else if is_arith(op) {
                    if lt != Type::Int && lt != Type::Float {
                        Err(SErr::NotMatchingReturnType(
                            "Arithmetic operators require int or float operands, found "@ + ty_text(lt),
                        ))
                    } else {
                        Ok(lt)
                    }
                } else {
                    Ok(Type::Bool)
                },
            },
        },
        Node::Call { name, args } => match lookup(st.scopes, name) {
            None => Err(SErr::UndefinedVariable("Function '"@ + name + "' is not defined"@)),
            Some(m) => if !(m.kind is Function) {
                Err(SErr::NotMatchingReturnType("'"@ + name + "' is not a function"@))
            } else {
                match m.params {
                    None => Err(SErr::NotMatchingReturnType("Function '"@ + name + "' has no parameter metadata"@)),
                    Some(ps) => if args.len() != ps.len() {
                        Err(SErr::NotMatchingReturnType(
                            "Function '"@ + name + "' expects "@ + dec_nat(ps.len()) + " arguments, but "@
                                + dec_nat(args.len()) + " were provided"@,
                        ))
                    } else {
                        match args_spec(st, args, ps, 0) {
                            Err(e) => Err(e),
                            Ok(_) => Ok(m.typ),
                        }
                    },
                }
            },
        },
        _ => Err(SErr::InvalidReturnType("Expression type not supported: "@ + node_text(n))),
    }
}

/// Checking the arguments from the `i`-th on against the parameter types `ps`.
pub open spec fn args_spec(st: AState, args: Seq<Node>, ps: Seq<Type>, i: int) -> Result<(), SErr>
    decreases args, args.len() - i,
{
    if i < 0 || i >= args.len() {
        Ok(())
    } else {
        match expr_spec(st, args[i]) {
            Err(e) => Err(e),
            Ok(at) => if at != ps[i] {
                Err(SErr::NotMatchingReturnType(
                    "Argument type mismatch: expected '"@ + ty_text(ps[i]) + "', found '"@ + ty_text(at) + "'"@,
                ))
            } else {
                args_spec(st, args, ps, i + 1)
            },
        }
    }
}

/// Defining the parameters from the `i`-th on in the innermost scope.
pub open spec fn params_spec(st: AState, ps: Seq<Field>, i: int) -> (Result<(), SErr>, AState)
    decreases ps.len() - i,
{
    if i < 0 || i >= ps.len() {
        (Ok(()), st)
    } else if st.has_local(ps[i].name) {
        (Err(SErr::Redefinition("Parameter '"@ + ps[i].name + "' already exists"@)), st)
    } else {
        params_spec(st.define(ps[i].name, SMeta { typ: ps[i].typ, kind: SKind::Parameter, params: None }), ps, i + 1)
    }
}

/// Analyzing the nodes from the `i`-th on, in order, up to the first failure.
pub open spec fn seq_spec(st: AState, ns: Seq<Node>, i: int) -> (Result<(), SErr>, AState)
    decreases ns, ns.len() - i,
{
    if i < 0 || i >= ns.len() {
        (Ok(()), st)
    } else {
        match analyze_spec(st, ns[i]) {
            (Err(e), s) => (Err(e), s),
            (Ok(_), s) => seq_spec(s, ns, i + 1),
        }
    }
}

/// Analyzing a node: the outcome and the state reached, also on failure.
pub open spec fn analyze_spec(st: AState, n: Node) -> (Result<(), SErr>, AState)
    decreases n, 0int,
{
    match n {
        Node::Program(ns) => seq_spec(st, ns, 0),
        Node::Function { name, return_type, params, body } => if st.has_local(name) {
            (Err(SErr::Redefinition("Function with "@ + name + " already exists"@)), st)
        } else {
            let meta = SMeta {
                typ: return_type,
                kind: SKind::Function,
                params: Some(params.map_values(|f: Field| f.typ)),
            };
            let st1 = AState { scopes: st.define(name, meta).scopes, ret: Some(return_type) }.enter();
            match params_spec(st1, params, 0) {
                (Err(e), s) => (Err(e), s),
                (Ok(_), s) => match analyze_spec(s, *body) {
                    (Err(e), s2) => (Err(e), s2),
                    (Ok(_), s2) => (Ok(()), s2.exit()),
                },
            }
        },
        Node::VarDecl { name, typ, init } => if st.has_local(name) {
            (Err(SErr::Redefinition("Variable '"@ + name + "' already defined it this scope"@)), st)
        } else {
            let checked = match init {
                None => Ok(()),
                Some(e) => match expr_spec(st, *e) {
                    Err(x) => Err(x),
                    Ok(t) => if t != typ {
                        Err(SErr::NotMatchingReturnType(
                            "Variable '"@ + name + "' of type '"@ + ty_text(typ) + "' cannot be initialized with type '"@
                                + ty_text(t) + "'"@,
                        ))
                    } else {
                        Ok(())
                    },
                },
            };
            match checked {
                Err(x) => (Err(x), st),
                Ok(_) => (Ok(()), st.define(name, SMeta { typ, kind: SKind::Variable, params: None })),
            }
        },
        Node::Assign { name, value } => match lookup(st.scopes, name) {
            None => (Err(SErr::UndefinedVariable("Variable '"@ + name + "' is not defined"@)), st),
            Some(m) => match expr_spec(st, *value) {
                Err(e) => (Err(e), st),
                Ok(vt) => if vt != m.typ {
                    (Err(SErr::NotMatchingReturnType(
                        "Cannot assign type '"@ + ty_text(vt) + "' to variable '"@ + name + "' of type '"@
                            + ty_text(m.typ) + "'"@,
                    )), st)
                } else {
                    (Ok(()), st)
                },
            },
        },
        Node::Return(e) => match st.ret {
            None => (Err(SErr::InvalidReturnType("Return statement outside of function"@)), st),
            Some(rt) => match expr_spec(st, *e) {
                Err(x) => (Err(x), st),
                Ok(et) => if et == rt {
                    (Ok(()), st)
                } else {
                    (Err(SErr::NotMatchingReturnType(
                        "Function returns type '"@ + ty_text(rt) + "' but expression is of type '"@ + ty_text(et) + "'"@,
                    )), st)
                },
            },
        },
        Node::IntLit(_) | Node::BoolLit(_) | Node::FloatLit(_) | Node::StringLit(_) => (Ok(()), st),
        Node::Block(ns) => match seq_spec(st.enter(), ns, 0) {
            (Err(e), s) => (Err(e), s),
            (Ok(_), s) => (Ok(()), s.exit()),
        },
        Node::IfElse { cond, then_branch, else_branch } => match expr_spec(st, *cond) {
            Err(e) => (Err(e), st),
            Ok(ct) => if ct != Type::Bool {
                (Err(SErr::NotMatchingReturnType("If condition must be of type bool, found '"@ + ty_text(ct) + "'"@)), st)
            } else {
                match analyze_spec(st, *then_branch) {
                    (Err(e), s) => (Err(e), s),
                    (Ok(_), s) => match else_branch {
                        None => (Ok(()), s),
                        Some(eb) => analyze_spec(s, *eb),
                    },
                }
            },
        },
        _ => (Err(SErr::NotImplemented("Function not implemented for "@ + node_text(n))), st),
    }
}

/// Law (operator typing): when both operands have the same type `t`, an
/// arithmetic operator (`+`, `-`, `*`, `/`) gives `t` if `t` is `Int` or `Float`
/// and fails otherwise, and a comparison (`==`, `<`, `<=`, `>`, `>=`) gives `Bool`;
/// operands of different types always fail.
pub proof fn law_operator_types(st: AState, left: Node, right: Node, op: BinaryOperator, t: Type, u: Type)
    requires
        expr_spec(st, left) == Ok::<Type, SErr>(t),
        expr_spec(st, right) == Ok::<Type, SErr>(u),
    ensures
        ({
            let e = expr_spec(st, Node::Binary { left: Box::new(left), right: Box::new(right), op });
            let arith = op == BinaryOperator::Add || op == BinaryOperator::Sub || op == BinaryOperator::Mul
                || op == BinaryOperator::Div;
            &&& t == u && arith && (t == Type::Int || t == Type::Float) ==> e == Ok::<Type, SErr>(t)
            &&& t == u && arith && !(t == Type::Int || t == Type::Float) ==> e is Err
            &&& t == u && !arith ==> e == Ok::<Type, SErr>(Type::Bool)
            &&& t != u ==> e is Err
        }),
{
}

proof fn lemma_lookup_absent(scopes: Seq<Map<Seq<char>, SMeta>>, k: Seq<char>)
    requires
        forall|j: int| 0 <= j < scopes.len() ==> !(#[trigger] scopes[j]).contains_key(k),
    ensures
        lookup(scopes, k) is None,
    decreases scopes.len(),
{
    if scopes.len() > 0 {
        assert forall|j: int| 0 <= j < scopes.drop_last().len() implies !(#[trigger] scopes.drop_last()[j]).contains_key(k) by {
            assert(scopes.drop_last()[j] == scopes[j]);
        }
        lemma_lookup_absent(scopes.drop_last(), k);
    }
}

/// Law (names and literals): a name defined in the innermost scope has the type
/// it was defined with there; a name defined in no scope is an undefined variable
/// (and cannot be assigned); literals have their own types.
pub proof fn law_expression_types(st: AState, name: Seq<char>, value: Node, v: i16, b: bool)
    ensures
        st.scopes.len() >= 1 && st.scopes.last().contains_key(name) ==> expr_spec(st, Node::Variable(name))
            == Ok::<Type, SErr>(st.scopes.last()[name].typ),
        (forall|j: int| 0 <= j < st.scopes.len() ==> !(#[trigger] st.scopes[j]).contains_key(name)) ==> {
            &&& expr_spec(st, Node::Variable(name)) is Err
            &&& analyze_spec(st, Node::Assign { name, value: Box::new(value) }).0 is Err
        },
        expr_spec(st, Node::IntLit(v)) == Ok::<Type, SErr>(Type::Int),
        expr_spec(st, Node::BoolLit(b)) == Ok::<Type, SErr>(Type::Bool),
{
    if forall|j: int| 0 <= j < st.scopes.len() ==> !(#[trigger] st.scopes[j]).contains_key(name) {
        lemma_lookup_absent(st.scopes, name);
    }
}

/// Law (statement checks): an `if` whose condition is not a `Bool` fails; a
/// `return` outside a function fails, and inside a function returning `rt`
/// succeeds, changing nothing, exactly when its value has type `rt`; a declaration
/// whose initial value's type differs from the declared type fails; assigning to a
/// variable succeeds exactly when the value has the variable's type.
pub proof fn law_statement_checks(
    st: AState,
    cond: Node,
    then_branch: Node,
    else_branch: Option<Box<Node>>,
    value: Node,
    name: Seq<char>,
    typ: Type,
    ct: Type,
    t: Type,
)
    ensures
        expr_spec(st, cond) == Ok::<Type, SErr>(ct) && ct != Type::Bool ==> analyze_spec(
            st,
            Node::IfElse { cond: Box::new(cond), then_branch: Box::new(then_branch), else_branch },
        ).0 is Err,
        st.ret is None ==> analyze_spec(st, Node::Return(Box::new(value))).0 is Err,
        st.ret is Some && expr_spec(st, value) == Ok::<Type, SErr>(t) ==> {
            &&& (analyze_spec(st, Node::Return(Box::new(value))).0 is Ok) == (t == st.ret->Some_0)
            &&& analyze_spec(st, Node::Return(Box::new(value))).1 == st
        },
        expr_spec(st, value) == Ok::<Type, SErr>(t) && t != typ ==> analyze_spec(
            st,
            Node::VarDecl { name, typ, init: Some(Box::new(value)) },
        ).0 is Err,
        lookup(st.scopes, name) is Some && expr_spec(st, value) == Ok::<Type, SErr>(t) ==> (analyze_spec(
            st,
            Node::Assign { name, value: Box::new(value) },
        ).0 is Ok) == (t == lookup(st.scopes, name)->Some_0.typ),
{
}

/// Whether `b` has as many scopes as `a`, equal to those of `a` except perhaps the innermost.
pub open spec fn keeps_outer(a: AState, b: AState) -> bool {
    &&& b.scopes.len() == a.scopes.len()
    &&& forall|k: int| 0 <= k < a.scopes.len() - 1 ==> #[trigger] b.scopes[k] == a.scopes[k]
}

proof fn lemma_params_keeps(st: AState, ps: Seq<Field>, i: int)
    requires
        st.scopes.len() >= 1,
    ensures
        params_spec(st, ps, i).0 is Ok ==> keeps_outer(st, params_spec(st, ps, i).1),
    decreases ps.len() - i,
{
    if 0 <= i < ps.len() && !st.has_local(ps[i].name) {
        lemma_params_keeps(st.define(ps[i].name, SMeta { typ: ps[i].typ, kind: SKind::Parameter, params: None }), ps, i + 1);
    }
}

proof fn lemma_seq_keeps(st: AState, ns: Seq<Node>, i: int)
    requires
        st.scopes.len() >= 1,
    ensures
        seq_spec(st, ns, i).0 is Ok ==> keeps_outer(st, seq_spec(st, ns, i).1),
    decreases ns, ns.len() - i,
{
    if 0 <= i < ns.len() {
        lemma_analyze_keeps(st, ns[i]);
        if let (Ok(_), s) = analyze_spec(st, ns[i]) {
            lemma_seq_keeps(s, ns, i + 1);
        }
    }
}

proof fn lemma_function_keeps(st: AState, n: Node)
    requires
        st.scopes.len() >= 1,
        n is Function,
    ensures
        analyze_spec(st, n).0 is Ok ==> keeps_outer(st, analyze_spec(st, n).1),
    decreases n, 1int,
{
    if let Node::Function { name, return_type, params, body } = n {
        if !st.has_local(name) {
            let meta = SMeta { typ: return_type, kind: SKind::Function, params: Some(params.map_values(|f: Field| f.typ)) };
            let st1 = AState { scopes: st.define(name, meta).scopes, ret: Some(return_type) }.enter();
            lemma_params_keeps(st1, params, 0);
            if let (Ok(_), s) = params_spec(st1, params, 0) {
                lemma_analyze_keeps(s, *body);
                if let (Ok(_), s2) = analyze_spec(s, *body) {
                    assert forall|k: int| 0 <= k < st.scopes.len() - 1 implies #[trigger] s2.exit().scopes[k] == st.scopes[k] by {
                        assert(s2.scopes[k] == s.scopes[k]);
                        assert(s.scopes[k] == st1.scopes[k]);
                    }
                }
            }
        }
    }
}

proof fn lemma_block_keeps(st: AState, n: Node)
    requires
        st.scopes.len() >= 1,
        n is Block,
    ensures
        analyze_spec(st, n).0 is Ok ==> analyze_spec(st, n).1.scopes == st.scopes,
    decreases n, 1int,
{
    if let Node::Block(ns) = n {
        lemma_seq_keeps(st.enter(), ns, 0);
        if let (Ok(_), s) = seq_spec(st.enter(), ns, 0) {
            assert forall|k: int| 0 <= k < st.scopes.len() implies #[trigger] s.exit().scopes[k] == st.scopes[k] by {
                assert(s.scopes[k] == st.enter().scopes[k]);
            }
            assert(s.exit().scopes =~= st.scopes);
        }
    }
}

proof fn lemma_branch_keeps(st: AState, n: Node)
    requires
        st.scopes.len() >= 1,
        n is IfElse,
    ensures
        analyze_spec(st, n).0 is Ok ==> keeps_outer(st, analyze_spec(st, n).1),
    decreases n, 1int,
{
    if let Node::IfElse { then_branch, else_branch, .. } = n {
        lemma_analyze_keeps(st, *then_branch);
        if let (Ok(_), s) = analyze_spec(st, *then_branch) {
            if let Some(eb) = else_branch {
                lemma_analyze_keeps(s, *eb);
            }
        }
    }
}

proof fn lemma_stmt_keeps(st: AState, n: Node)
    requires
        st.scopes.len() >= 1,
        !(n is Program || n is Function || n is Block || n is IfElse),
    ensures
        analyze_spec(st, n).0 is Ok ==> keeps_outer(st, analyze_spec(st, n).1),
{
}

proof fn lemma_analyze_keeps(st: AState, n: Node)
    requires
        st.scopes.len() >= 1,
    ensures
        analyze_spec(st, n).0 is Ok ==> keeps_outer(st, analyze_spec(st, n).1),
        analyze_spec(st, n).0 is Ok && n is Block ==> analyze_spec(st, n).1.scopes == st.scopes,
    decreases n, 2int,
{
    if let Node::Program(ns) = n {
        lemma_seq_keeps(st, ns, 0);
    } else if n is Function {
        lemma_function_keeps(st, n);
    } else if n is Block {
        lemma_block_keeps(st, n);
    } else if n is IfElse {
        lemma_branch_keeps(st, n);
    } else {
        lemma_stmt_keeps(st, n);
    }
}

proof fn lemma_seq_shift(st: AState, xs: Seq<Node>, ys: Seq<Node>, j: int)
    requires
        0 <= j <= ys.len(),
    ensures
        seq_spec(st, xs + ys, xs.len() + j) == seq_spec(st, ys, j),
    decreases ys.len() - j,
{
    if j < ys.len() {
        assert((xs + ys)[xs.len() + j] == ys[j]);
        if let (Ok(_), s) = analyze_spec(st, ys[j]) {
            lemma_seq_shift(s, xs, ys, j + 1);
        }
    }
}

proof fn lemma_seq_split(st: AState, xs: Seq<Node>, ys: Seq<Node>, i: int)
    requires
        0 <= i <= xs.len(),
    ensures
        seq_spec(st, xs + ys, i) == (match seq_spec(st, xs, i) {
            (Ok(_), s) => seq_spec(s, ys, 0),
            (Err(e), s) => (Err(e), s),
        }),
    decreases xs.len() - i,
{
    if i == xs.len() {
        lemma_seq_shift(st, xs, ys, 0);
    } else {
        assert((xs + ys)[i] == xs[i]);
        if let (Ok(_), s) = analyze_spec(st, xs[i]) {
            lemma_seq_split(s, xs, ys, i + 1);
        }
    }
}

/// Law: analysing the top-level nodes `xs` followed by `ys` as one program gives
/// the same outcome and state as analysing `xs` and then, if that succeeded,
/// analysing `ys` from the state that `xs` left.
pub proof fn law_analysis_in_parts(st: AState, xs: Seq<Node>, ys: Seq<Node>)
    ensures
        analyze_spec(st, Node::Program(xs + ys)) == (match analyze_spec(st, Node::Program(xs)) {
            (Ok(_), s) => analyze_spec(s, Node::Program(ys)),
            (Err(e), s) => (Err(e), s),
        }),
{
    lemma_seq_split(st, xs, ys, 0);
}

/// Law: leaving a scope just entered gives back the state before.
pub proof fn law_exit_undoes_enter(st: AState)
    ensures
        st.enter().exit() == st,
{
    assert(st.enter().exit().scopes =~= st.scopes);
}

/// Law (lexical scoping): when the analysis of any node succeeds, the number of
/// open scopes is the same as before and no scope but the innermost has changed;
/// after a block, the scopes are exactly those before it, so that nothing
/// declared inside a block is visible after it.
pub proof fn law_analysis_scoping(st: AState, n: Node)
    requires
        st.scopes.len() >= 1,
    ensures
        analyze_spec(st, n).0 is Ok ==> keeps_outer(st, analyze_spec(st, n).1),
        analyze_spec(st, n).0 is Ok && n is Block ==> analyze_spec(st, n).1.scopes == st.scopes,
{
    lemma_analyze_keeps(st, n);
}

/// The types of a list of parameters.
fn param_types(ps: &Vec<Parameter>) -> (v: Vec<Type>)
    ensures
        v@ == fields_view(ps@).map_values(|f: Field| f.typ),
{
    let mut v: Vec<Type> = Vec::new();
    let mut k: usize = 0;
    while k < ps.len()
        invariant
            k <= ps@.len(),
            v@.len() == k,
            forall|i: int| 0 <= i < k ==> v@[i] == ps@[i].param_typ,
        decreases ps@.len() - k,
    {
        v.push(ps[k].param_typ);
        k += 1;
    }
    assert(v@ =~= fields_view(ps@).map_values(|f: Field| f.typ));
    v
}

/// The abstract value of an analysis outcome.
pub open spec fn unit_res(r: Result<(), SemanticError>) -> Result<(), SErr> {
    match r {
        Ok(_) => Ok(()),
        Err(e) => Err(e@),
    }
}

/// The abstract value of a typing outcome.
pub open spec fn type_res(r: Result<Type, SemanticError>) -> Result<Type, SErr> {
    match r {
        Ok(t) => Ok(t),
        Err(e) => Err(e@),
    }
}

/// `pre`, then `mid`, then `post`.
fn text3(pre: &str, mid: &str, post: &str) -> (s: String)
    ensures
        s@ == pre@ + mid@ + post@,
{
    let mut s = String::from_str(pre);
    s.append(mid);
    s.append(post);
    s
}

/// `a`, type `t`, `b`, type `u`, `c`.
fn text_types(a: &str, t: Type, b: &str, u: Type, c: &str) -> (s: String)
    ensures
        s@ == a@ + ty_text(t) + b@ + ty_text(u) + c@,
{
    let mut s = String::from_str(a);
    write_type(&mut s, t);
    s.append(b);
    write_type(&mut s, u);
    s.append(c);
    assert(s@ =~= a@ + ty_text(t) + b@ + ty_text(u) + c@);
    s
}

/// The analyzer state: the scopes (innermost last) and the return type of the
/// function being analyzed.
pub struct Analyzer {
    scope_stack: Vec<Vec<(String, MetaData)>>,
    current_return_type: Option<Type>,
}

impl Analyzer {
    /// The abstract state.
    pub closed spec fn state(&self) -> AState {
        AState {
            scopes: self.scope_stack@.map_values(|sc: Vec<(String, MetaData)>| owned_table(sc@)),
            ret: self.current_return_type,
        }
    }

    /// There is always a scope to define names in.
    pub closed spec fn wf(&self) -> bool {
        self.scope_stack@.len() >= 1
    }

    /// The number of open scopes.
    pub closed spec fn depth(&self) -> nat {
        self.scope_stack@.len()
    }

    /// A well-formed analyzer has at least one open scope, and its depth is the
    /// number of scopes of its abstract state.
    pub proof fn lemma_scopes(&self)
        requires
            self.wf(),
        ensures
            self.depth() >= 1,
            self.depth() == self.state().scopes.len(),
    {
    }

    /// A fresh analyzer: one empty scope and no function.
    pub fn new() -> (a: Analyzer)
        ensures
            a.wf(),
            a.state() == (AState { scopes: seq![Map::<Seq<char>, SMeta>::empty()], ret: None }),
    {
        let mut scope_stack: Vec<Vec<(String, MetaData)>> = Vec::new();
        scope_stack.push(Vec::new());
        let a = Analyzer { scope_stack, current_return_type: None };
        assert(a.state().scopes =~= seq![Map::<Seq<char>, SMeta>::empty()]);
        a
    }

    /// Whether the innermost scope defines `name`.
    fn has_local(&self, name: &str) -> (r: bool)
        requires
            self.wf(),
        ensures
            r == self.state().has_local(name@),
    {
        let top = &self.scope_stack[self.scope_stack.len() - 1];
        match find_owned_key(top, name) {
            Some(_) => true,
            None => false,
        }
    }

    /// Defines `name` in the innermost scope.
    fn insert_local(&mut self, name: String, meta: MetaData)
        requires
            old(self).wf(),
        ensures
            final(self).wf(),
            final(self).state() == old(self).state().define(name@, meta@),
            final(self).depth() == old(self).depth(),
            final(self).current_return_type == old(self).current_return_type,
    {
        let ghost st = self.state();
        let ghost k = name@;
        let ghost mv = meta@;
        let mut top = match self.scope_stack.pop() {
            Some(t) => t,
            None => Vec::new(),
        };
        push_owned_entry(&mut top, name, meta);
        self.scope_stack.push(top);
        assert(self.state().scopes =~= st.scopes.update(st.scopes.len() - 1, st.scopes.last().insert(k, mv)));
    }

    /// Opens a new innermost scope.
    fn enter_scope(&mut self)
        ensures
            final(self).state() == old(self).state().enter(),
            final(self).depth() == old(self).depth() + 1,
    {
        let ghost st = self.state();
        self.scope_stack.push(Vec::new());
        assert(self.state().scopes =~= st.scopes.push(Map::empty()));
    }

    /// Closes the innermost scope.
    fn exit_scope(&mut self)
        requires
            old(self).scope_stack@.len() >= 1,
        ensures
            final(self).state() == old(self).state().exit(),
            final(self).depth() == old(self).depth() - 1,
    {
        let ghost st = self.state();
        self.scope_stack.pop();
        assert(self.state().scopes =~= st.scopes.drop_last());
    }

    /// The symbol `name` denotes, looked up from the innermost scope outwards.
    fn lookup_variable(&self, name: &str) -> (r: Option<&MetaData>)
        ensures
            match r {
                Some(m) => lookup(self.state().scopes, name@) == Some(m@),
                None => lookup(self.state().scopes, name@) is None,
            },
    {
        let ghost scs = self.state().scopes;
        let mut s = self.scope_stack.len();
        assert(scs.take(s as int) =~= scs);
        while s > 0
            invariant
                s <= self.scope_stack@.len(),
                scs == self.state().scopes,
                lookup(scs, name@) == lookup(scs.take(s as int), name@),
            decreases s,
        {
            let sc = &self.scope_stack[s - 1];
            assert(scs.take(s as int).last() == owned_table(sc@));
            assert(scs.take(s as int).drop_last() =~= scs.take(s - 1));
            match find_owned_key(sc, name) {
                Some(j) => {
                    return Some(&sc[j].1);
                },
                None => {},
            }
            s -= 1;
        }
        None
    }

    /// The type of an expression, or why it has none.
    #[verifier::loop_isolation(false)]
    fn analyze_expr(&self, node: &AstNode) -> (r: Result<Type, SemanticError>)
        ensures
            type_res(r) == expr_spec(self.state(), node@),
        decreases node,
    {
        match node {
            AstNode::IntLiteralExpr(_) => Ok(Type::Int),
            AstNode::BoolLiteralExpr(_) => Ok(Type::Bool),
            AstNode::FloatLiteralExpr(_) => Ok(Type::Float),
            AstNode::StringLiteralExpr(_) => Ok(Type::String),
            AstNode::VariableExpr(name) => match self.lookup_variable(name.as_str()) {
                Some(meta) => Ok(meta.typ),
                None => Err(SemanticError::UndefinedVariable(text3("Variable '", name.as_str(), "' is not defined"))),
            },
            AstNode::BinaryExpr(data) => {
                let left_type = match self.analyze_expr(&data.left) {
                    Ok(t) => t,
                    Err(e) => return Err(e),
                };
                let right_type = match self.analyze_expr(&data.right) {
                    Ok(t) => t,
                    Err(e) => return Err(e),
                };
                if left_type != right_type {
                    return Err(SemanticError::NotMatchingReturnType(text_types(
                        "Binary expression operands must be of type Int, found '",
                        left_type,
                        "' and '",
                        right_type,
                        "'",
                    )));
                }
                match data.operator {
                    BinaryOperator::Add | BinaryOperator::Sub | BinaryOperator::Mul | BinaryOperator::Div => {
                        if left_type != Type::Int && left_type != Type::Float {
                            let mut m = String::from_str("Arithmetic operators require int or float operands, found ");
                            write_type(&mut m, left_type);
                            return Err(SemanticError::NotMatchingReturnType(m));
                        }
                        Ok(left_type)
                    },
                    BinaryOperator::LessThan
                    | BinaryOperator::GreaterThan
                    | BinaryOperator::LessOrEqual
                    | BinaryOperator::GreaterOrEqual
                    | BinaryOperator::DoubleEqual => Ok(Type::Bool),
                }
            },
            AstNode::CallExpr(data) => {
                let meta = match self.lookup_variable(data.name.as_str()) {
                    Some(m) => m,
                    None => {
                        return Err(SemanticError::UndefinedVariable(
                            text3("Function '", data.name.as_str(), "' is not defined"),
                        ));
                    },
                };
                if meta.kind != ElementKind::Function {
                    return Err(SemanticError::NotMatchingReturnType(text3("'", data.name.as_str(), "' is not a function")));
                }
                let params = match &meta.parameters {
                    Some(p) => p,
                    None => {
                        return Err(SemanticError::NotMatchingReturnType(
                            text3("Function '", data.name.as_str(), "' has no parameter metadata"),
                        ));
                    },
                };
                assert(meta@.params == Some(params@));
                assert(meta@.kind is Function);
                if data.arguments.len() != params.len() {
                    assert(nodes_view(data.arguments@).len() != params@.len());
                    let mut m = String::from_str("Function '");
                    m.append(data.name.as_str());
                    m.append("' expects ");
                    push_dec_usize(&mut m, params.len());
                    m.append(" arguments, but ");
                    push_dec_usize(&mut m, data.arguments.len());
                    m.append(" were provided");
                    assert(m@ =~= "Function '"@ + data.name@ + "' expects "@ + dec_nat(params@.len() as nat)
                        + " arguments, but "@ + dec_nat(data.arguments@.len() as nat) + " were provided"@);
                    return Err(SemanticError::NotMatchingReturnType(m));
                }
                let ghost st = self.state();
                let ghost args = nodes_view(data.arguments@);
                let mut k: usize = 0;
                while k < data.arguments.len()
                    invariant
                        k <= data.arguments@.len(),
                        data.arguments@.len() == params@.len(),
                        args == nodes_view(data.arguments@),
                        args_spec(st, args, params@, 0) == args_spec(st, args, params@, k as int),
                    decreases data.arguments@.len() - k,
                {
                    proof { assert(decreases_to!(node => data.arguments@[k as int])); }
                    let arg_type = match self.analyze_expr(&data.arguments[k]) {
                        Ok(t) => t,
                        Err(e) => return Err(e),
                    };
                    assert(args[k as int] == node_view(data.arguments@[k as int]));
                    if arg_type != params[k] {
                        return Err(SemanticError::NotMatchingReturnType(text_types(
                            "Argument type mismatch: expected '",
                            params[k],
                            "', found '",
                            arg_type,
                            "'",
                        )));
                    }
                    k += 1;
                }
                Ok(meta.typ)
            },
            _ => {
                let mut m = String::from_str("Expression type not supported: ");
                write_node(&mut m, node);
                Err(SemanticError::InvalidReturnType(m))
            },
        }
    }
}

impl Analyzer {
    /// Analyzes the nodes of a list, in order, up to the first failure.
    #[verifier::loop_isolation(false)]
    fn analyze_nodes(&mut self, nodes: Vec<AstNode>) -> (r: Result<(), SemanticError>)
        requires
            old(self).wf(),
        ensures
            final(self).wf(),
            seq_spec(old(self).state(), nodes_view(nodes@), 0) == (unit_res(r), final(self).state()),
            r is Ok ==> final(self).depth() == old(self).depth(),
            final(self).depth() >= old(self).depth(),
        decreases nodes, 0int,
    {
        let ghost orig = nodes@;
        let ghost ns = nodes_view(orig);
        let total = nodes.len();
        let mut rest = nodes;
        let mut k: usize = 0;
        while rest.len() > 0
            invariant
                total == orig.len(),
                k <= orig.len(),
                k + rest@.len() == orig.len(),
                ns == nodes_view(orig),
                rest@ == orig.subrange(k as int, orig.len() as int),
                self.wf(),
                self.depth() == old(self).depth(),
                seq_spec(old(self).state(), ns, 0) == seq_spec(self.state(), ns, k as int),
            decreases rest@.len(),
        {
            let node = rest.remove(0);
            assert(k < orig.len());
            assert(node == orig[k as int]);
            assert(ns[k as int] == node_view(node));
            proof { assert(decreases_to!(nodes => orig[k as int])); }
            match self.analyze(node) {
                Ok(_) => {},
                Err(e) => return Err(e),
            }
            k += 1;
        }
        Ok(())
    }

    /// Analyzes a node, updating the symbol tables; on failure the state is left
    /// as it was when the failure was found.
    #[verifier::loop_isolation(false)]
    #[verifier::spinoff_prover]
    #[verifier::rlimit(60)]
    pub fn analyze(&mut self, ast: AstNode) -> (r: Result<(), SemanticError>)
        requires
            old(self).wf(),
        ensures
            final(self).wf(),
            analyze_spec(old(self).state(), ast@) == (unit_res(r), final(self).state()),
            r is Ok ==> final(self).depth() == old(self).depth(),
            r is Ok ==> keeps_outer(old(self).state(), final(self).state()),
            final(self).depth() >= old(self).depth(),
        decreases ast, 1int,
    {
        proof {
            law_analysis_scoping(self.state(), ast@);
        }
        let ghost st = self.state();
        let ghost n = ast@;
        match ast {
            AstNode::Programm(nodes) => self.analyze_nodes(nodes),
            AstNode::FunctionDecl(data) => {
                if self.has_local(data.name.as_str()) {
                    return Err(SemanticError::Redefinition(text3("Function with ", data.name.as_str(), " already exists")));
                }
                let param_types = param_types(&data.parameter);
                let func_meta_data = MetaData {
                    typ: data.return_type,
                    kind: ElementKind::Function,
                    parameters: Some(param_types),
                };
                let name = String::from_str(data.name.as_str());
                self.insert_local(name, func_meta_data);
                self.current_return_type = Some(data.return_type);
                self.enter_scope();
                let ghost ps = fields_view(data.parameter@);
                let ghost st2 = self.state();
                let mut k: usize = 0;
                while k < data.parameter.len()
                    invariant
                        k <= data.parameter@.len(),
                        self.wf(),
                        self.depth() == old(self).depth() + 1,
                        ps == fields_view(data.parameter@),
                        params_spec(st2, ps, 0) == params_spec(self.state(), ps, k as int),
                    decreases data.parameter@.len() - k,
                {
                    let param = &data.parameter[k];
                    if self.has_local(param.name.as_str()) {
                        return Err(SemanticError::Redefinition(text3("Parameter '", param.name.as_str(), "' already exists")));
                    }
                    let pname = String::from_str(param.name.as_str());
                    self.insert_local(pname, MetaData { typ: param.param_typ, kind: ElementKind::Parameter, parameters: None });
                    k += 1;
                }
                match self.analyze(*data.body) {
                    Ok(_) => {},
                    Err(e) => return Err(e),
                }
                self.exit_scope();
                Ok(())
            },
            AstNode::VarDeclStatement(data) => {
                if self.has_local(data.name.as_str()) {
                    return Err(SemanticError::Redefinition(
                        text3("Variable '", data.name.as_str(), "' already defined it this scope"),
                    ));
                }
                match &data.initializer {
                    Some(init) => {
                        assert(opt_view(data.initializer) == Some(Box::new(node_view(**init))));
                        let init_type = match self.analyze_expr(init) {
                            Ok(t) => t,
                            Err(e) => return Err(e),
                        };
                        if init_type != data.var_typ {
                            let mut m = String::from_str("Variable '");
                            m.append(data.name.as_str());
                            m.append("' of type '");
                            write_type(&mut m, data.var_typ);
                            m.append("' cannot be initialized with type '");
                            write_type(&mut m, init_type);
                            m.append("'");
                            assert(m@ =~= "Variable '"@ + data.name@ + "' of type '"@ + ty_text(data.var_typ)
                                + "' cannot be initialized with type '"@ + ty_text(init_type) + "'"@);
                            return Err(SemanticError::NotMatchingReturnType(m));
                        }
                    },
                    None => {},
                }
                let name = String::from_str(data.name.as_str());
                self.insert_local(name, MetaData { typ: data.var_typ, kind: ElementKind::Variable, parameters: None });
                Ok(())
            },
            AstNode::AssignmentStatement(data) => {
                let var_type = match self.lookup_variable(data.name.as_str()) {
                    Some(meta) => meta.typ,
                    None => {
                        return Err(SemanticError::UndefinedVariable(text3("Variable '", data.name.as_str(), "' is not defined")));
                    },
                };
                let val_type = match self.analyze_expr(&data.value) {
                    Ok(t) => t,
                    Err(e) => return Err(e),
                };
                if val_type != var_type {
                    let mut m = String::from_str("Cannot assign type '");
                    write_type(&mut m, val_type);
                    m.append("' to variable '");
                    m.append(data.name.as_str());
                    m.append("' of type '");
                    write_type(&mut m, var_type);
                    m.append("'");
                    assert(m@ =~= "Cannot assign type '"@ + ty_text(val_type) + "' to variable '"@ + data.name@
                        + "' of type '"@ + ty_text(var_type) + "'"@);
                    return Err(SemanticError::NotMatchingReturnType(m));
                }
                Ok(())
            },
            AstNode::ReturnStatement(data) => {
                let return_type = match self.current_return_type {
                    Some(rt) => rt,
                    None => {
                        return Err(SemanticError::InvalidReturnType(String::from_str("Return statement outside of function")));
                    },
                };
                let expr_type = match self.analyze_expr(&data) {
                    Ok(t) => t,
                    Err(e) => return Err(e),
                };
                if expr_type == return_type {
                    return Ok(());
                }
                Err(SemanticError::NotMatchingReturnType(text_types(
                    "Function returns type '",
                    return_type,
                    "' but expression is of type '",
                    expr_type,
                    "'",
                )))
            },
            AstNode::IntLiteralExpr(_)
            | AstNode::BoolLiteralExpr(_)
            | AstNode::FloatLiteralExpr(_)
            | AstNode::StringLiteralExpr(_) => Ok(()),
            AstNode::BlockStatement(nodes) => {
                self.enter_scope();
                match self.analyze_nodes(nodes) {
                    Ok(_) => {},
                    Err(e) => return Err(e),
                }
                self.exit_scope();
                Ok(())
            },
            AstNode::IfElseStatement(data) => {
                let cond_type = match self.analyze_expr(&data.condition_expr) {
                    Ok(t) => t,
                    Err(e) => return Err(e),
                };
                if cond_type != Type::Bool {
                    let mut m = String::from_str("If condition must be of type bool, found '");
                    write_type(&mut m, cond_type);
                    m.append("'");
                    return Err(SemanticError::NotMatchingReturnType(m));
                }
                match self.analyze(*data.if_branch) {
                    Ok(_) => {},
                    Err(e) => return Err(e),
                }
                match data.else_branch {
                    Some(else_branch) => {
                        assert(opt_view(data.else_branch) == Some(Box::new(node_view(*else_branch))));
                        self.analyze(*else_branch)
                    },
                    None => Ok(()),
                }
            },
            node => {
                let mut m = String::from_str("Function not implemented for ");
                write_node(&mut m, &node);
                Err(SemanticError::NotImplemented(m))
            },
        }
    }
}

} // verus!
