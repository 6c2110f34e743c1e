//! Semantic analysis: scoping, symbol tables and type checking of the tree.
//!
//! Symbol tables are association lists whose abstract value is a map in which a
//! later entry for a key overrides an earlier one, so that adding an entry has the
//! effect of a map insertion.

use vstd::prelude::*;
use crate::ast::{copy_type, fields_view, node_view, nodes_view, opt_view, same_type, AstNode, BinaryOperator, Field, Node, Parameter, Ty, Type};
use crate::render::{node_text, ty_text, type_string, write_node};
use crate::assoc::{find_key, pairs_view, push_entry, table};
use crate::text::{dec_nat, push_dec_usize, str_equals};

verus! {

/// Why the analysis failed.
#[derive(Debug)]
pub enum SemanticError {
    Redefinition { message: String, line: usize, column: usize },
    UndefinedVariable { name: String, line: usize, column: usize },
    UndefinedFunction { name: String, line: usize, column: usize },
    UndefinedStruct { name: String, line: usize, column: usize },
    TypeMismatch { expected: String, found: String, message: String, line: usize, column: usize },
    InvalidReturnType { message: String, line: usize, column: usize },
    NotAncillaryElement { name: String, expected: String, line: usize, column: usize },
    NotImplemented { message: String, line: usize, column: usize },
}

/// The abstract value of an analysis failure.
pub enum SErr {
    Redefinition { message: Seq<char>, line: int, column: int },
    UndefinedVariable { name: Seq<char>, line: int, column: int },
    UndefinedFunction { name: Seq<char>, line: int, column: int },
    UndefinedStruct { name: Seq<char>, line: int, column: int },
    TypeMismatch { expected: Seq<char>, found: Seq<char>, message: Seq<char>, line: int, column: int },
    InvalidReturnType { message: Seq<char>, line: int, column: int },
    NotAncillaryElement { name: Seq<char>, expected: Seq<char>, line: int, column: int },
    NotImplemented { message: Seq<char>, line: int, column: int },
}

impl View for SemanticError {
    type V = SErr;

    open spec fn view(&self) -> SErr {
        match self {
            SemanticError::Redefinition { message, line, column } => SErr::Redefinition {
                message: message@,
                line: *line as int,
                column: *column as int,
            },
            SemanticError::UndefinedVariable { name, line, column } => SErr::UndefinedVariable {
                name: name@,
                line: *line as int,
                column: *column as int,
            },
            SemanticError::UndefinedFunction { name, line, column } => SErr::UndefinedFunction {
                name: name@,
                line: *line as int,
                column: *column as int,
            },
            SemanticError::UndefinedStruct { name, line, column } => SErr::UndefinedStruct {
                name: name@,
                line: *line as int,
                column: *column as int,
            },
            SemanticError::TypeMismatch { expected, found, message, line, column } => SErr::TypeMismatch {
                expected: expected@,
                found: found@,
                message: message@,
                line: *line as int,
                column: *column as int,
            },
            SemanticError::InvalidReturnType { message, line, column } => SErr::InvalidReturnType {
                message: message@,
                line: *line as int,
                column: *column as int,
            },
            SemanticError::NotAncillaryElement { name, expected, line, column } => SErr::NotAncillaryElement {
                name: name@,
                expected: expected@,
                line: *line as int,
                column: *column as int,
            },
            SemanticError::NotImplemented { message, line, column } => SErr::NotImplemented {
                message: message@,
                line: *line as int,
                column: *column as int,
            },
        }
    }
}

/// What a name stands for.
enum ElementKind<'a> {
    Function { parameters: Vec<Type<'a>> },
    Variable,
    Parameter,
}

/// A symbol: its type (for a function, the return type) and what it stands for.
struct MetaData<'a> {
    typ: Type<'a>,
    kind: ElementKind<'a>,
}

/// The abstract value of what a name stands for.
pub enum SKind {
    Function(Seq<Ty>),
    Variable,
    Parameter,
}

/// The abstract value of a symbol.
pub struct SMeta {
    pub typ: Ty,
    pub kind: SKind,
}

/// The abstract values of a list of types.
pub open spec fn types_view<'a>(ts: Seq<Type<'a>>) -> Seq<Ty> {
    ts.map_values(|t: Type<'a>| t@)
}

impl<'a> View for MetaData<'a> {
    type V = SMeta;

    closed spec fn view(&self) -> SMeta {
        SMeta {
            typ: self.typ@,
            kind: match self.kind {
                ElementKind::Function { parameters } => SKind::Function(types_view(parameters@)),
                ElementKind::Variable => SKind::Variable,
                ElementKind::Parameter => SKind::Parameter,
            },
        }
    }
}

/// The fields of a struct: names and types.
struct FieldTable<'a> {
    entries: Vec<(&'a str, Type<'a>)>,
}

impl<'a> View for FieldTable<'a> {
    type V = Map<Seq<char>, Ty>;

    closed spec fn view(&self) -> Map<Seq<char>, Ty> {
        table(self.entries@)
    }
}

// ---------------------------------------------------------------------------
// The abstract analyzer state

/// The abstract state: the scopes (innermost last), the return type of the
/// function being analyzed, and the struct definitions.
pub struct AState {
    pub scopes: Seq<Map<Seq<char>, SMeta>>,
    pub ret: Option<Ty>,
    pub structs: Map<Seq<char>, Map<Seq<char>, Ty>>,
}

impl AState {
    /// Whether the innermost scope defines `k`.
    pub open spec fn has_local(self, k: Seq<char>) -> bool {
        self.scopes.last().contains_key(k)
    }

    /// The state with `k` defined as `m` in the innermost scope.
    pub open spec fn define(self, k: Seq<char>, m: SMeta) -> AState {
        AState {
            scopes: self.scopes.update(self.scopes.len() - 1, self.scopes.last().insert(k, m)),
            ret: self.ret,
            structs: self.structs,
        }
    }

    /// The state with a new innermost scope.
    pub open spec fn enter(self) -> AState {
        AState { scopes: self.scopes.push(Map::empty()), ret: self.ret, structs: self.structs }
    }

    /// The state without its innermost scope.
    pub open spec fn exit(self) -> AState {
        AState { scopes: self.scopes.drop_last(), ret: self.ret, structs: self.structs }
    }

    /// The state with return type `r`.
    pub open spec fn with_ret(self, r: Option<Ty>) -> AState {
        AState { scopes: self.scopes, ret: r, structs: self.structs }
    }
}

/// The symbol a name denotes: its entry in the innermost scope that defines it.
pub open spec fn lookup(scopes: Seq<Map<Seq<char>, SMeta>>, k: Seq<char>) -> Option<SMeta>
    decreases scopes.len(),
{
    if scopes.len() == 0 {
        None
    } else if scopes.last().contains_key(k) {
        Some(scopes.last()[k])
    } else {
        lookup(scopes.drop_last(), k)
    }
}

/// `pre`, the name, then `post`.
pub open spec fn quoted(pre: Seq<char>, name: Seq<char>, post: Seq<char>) -> Seq<char> {
    pre + name + post
}

/// A type mismatch failure.
pub open spec fn mismatch(expected: Seq<char>, found: Ty, message: Seq<char>, line: int, column: int) -> SErr {
    SErr::TypeMismatch { expected, found: ty_text(found), message, line, column }
}

/// Whether an operator is arithmetic.
pub open spec fn is_arith(op: BinaryOperator) -> bool {
    op == BinaryOperator::Add || op == BinaryOperator::Sub || op == BinaryOperator::Mul || op == BinaryOperator::Div
}

/// The type of an expression, or why it has none.
pub open spec fn expr_spec(st: AState, n: Node) -> Result<Ty, SErr>
    decreases n, 0int,
{
    match n {
        Node::IntLit(_) => Ok(Ty::Int),
        Node::BoolLit(_) => Ok(Ty::Bool),
        Node::FloatLit(_) => Ok(Ty::Float),
        Node::StringLit(_) => Ok(Ty::Str),
        Node::Variable(name) => match lookup(st.scopes, name) {
            None => Err(SErr::UndefinedVariable { name, line: 0, column: 0 }),
            Some(m) => Ok(m.typ),
        },
        Node::Binary { left, right, op, line, column } => match expr_spec(st, *left) {
            Err(e) => Err(e),
            Ok(lt) => match expr_spec(st, *right) {
                Err(e) => Err(e),
                Ok(rt) => if lt != rt {
                    Err(SErr::TypeMismatch {
                        expected: ty_text(lt),
                        found: ty_text(rt),
                        message: "Binary expression operands must have matching types"@,
                        line,
                        column,
                    })
                } else if is_arith(op) {
                    if lt != Ty::Int && lt != Ty::Float {
                        Err(mismatch("Int or Float"@, lt, "Arithmetic operators require int or float operands"@, line, column))
                    } else {
                        Ok(lt)
                    }
                } else {
                    Ok(Ty::Bool)
                },
            },
        },
        Node::Call { name, args, line, column } => match lookup(st.scopes, name) {
            None => Err(SErr::UndefinedFunction { name, line, column }),
            Some(m) => match m.kind {
                SKind::Function(ps) => if args.len() != ps.len() {
                    Err(SErr::InvalidReturnType {
                        message: "Function '"@ + name + "' expects "@ + dec_nat(ps.len()) + " arguments, but "@
                            + dec_nat(args.len()) + " were provided"@,
                        line,
                        column,
                    })
                } else {
                    match args_spec(st, args, ps, 0, line, column) {
                        Err(e) => Err(e),
                        Ok(_) => Ok(m.typ),
                    }
                },
                _ => Err(SErr::NotAncillaryElement { name, expected: "function"@, line, column }),
            },
        },
        Node::Member { object, member, line, column } => match expr_spec(st, *object) {
            Err(e) => Err(e),
            Ok(ot) => match ot {
                Ty::Struct(sn) => if !st.structs.contains_key(sn) {
                    Err(SErr::UndefinedStruct { name: sn, line, column })
                } else if !st.structs[sn].contains_key(member) {
                    Err(SErr::UndefinedVariable {
                        name: "Struct '"@ + sn + "' has no field named '"@ + member + "'"@,
                        line,
                        column,
                    })
                } else {
                    Ok(st.structs[sn][member])
                },
                _ => Err(SErr::InvalidReturnType {
                    message: "Member access '.' is not allowed on non-struct types"@,
                    line,
                    column,
                }),
            },
        },
        Node::Index { array, index, line, column } => match expr_spec(st, *array) {
            Err(e) => Err(e),
            Ok(at) => match expr_spec(st, *index) {
                Err(e) => Err(e),
                Ok(it) => if it != Ty::Int {
                    Err(mismatch("Int"@, it, "Array index must be of type Int"@, line, column))
                } else {
                    match at {
                        Ty::Array(inner) => Ok(*inner),
                        _ => Err(SErr::InvalidReturnType {
                            message: "Indexing not allowed on non-array type"@,
                            line,
                            column,
                        }),
                    }
                },
            },
        },
        _ => Err(SErr::NotImplemented {
            message: "Expression type not supported: "@ + node_text(n),
            line: 0,
            column: 0,
        }),
    }
}

/// Checking the arguments from the `i`-th on against the parameter types `ps`.
pub open spec fn args_spec(st: AState, args: Seq<Node>, ps: Seq<Ty>, i: int, line: int, column: int) -> Result<(), SErr>
    decreases args, args.len() - i,
{
    if i < 0 || i >= args.len() {
        Ok(())
    } else {
        match expr_spec(st, args[i]) {
            Err(e) => Err(e),
            Ok(at) => if at != ps[i] {
                Err(mismatch(ty_text(ps[i]), at, "Argument type mismtach"@, line, column))
            } else {
                args_spec(st, args, ps, i + 1, line, column)
            },
        }
    }
}

/// Defining the parameters from the `i`-th on in the innermost scope.
pub open spec fn params_spec(st: AState, ps: Seq<Field>, i: int, line: int, column: int) -> (Result<(), SErr>, AState)
    decreases ps.len() - i,
{
    if i < 0 || i >= ps.len() {
        (Ok(()), st)
    } else {
        let next = st.define(ps[i].name, SMeta { typ: ps[i].typ, kind: SKind::Parameter });
        if st.has_local(ps[i].name) {
            (Err(SErr::Redefinition {
                message: quoted("Parameter '"@, ps[i].name, "' already exists"@),
                line,
                column,
            }), next)
        } else {
            params_spec(next, ps, i + 1, line, column)
        }
    }
}

/// The field map of a struct's fields from the `i`-th on, added to `fm`.
pub open spec fn fields_spec(fs: Seq<Field>, i: int, fm: Map<Seq<char>, Ty>, line: int, column: int) -> Result<Map<Seq<char>, Ty>, SErr>
    decreases fs.len() - i,
{
    if i < 0 || i >= fs.len() {
        Ok(fm)
    } else if fm.contains_key(fs[i].name) {
        Err(SErr::Redefinition {
            message: quoted("Field '"@, fs[i].name, "' is already defined in struct"@),
            line,
            column,
        })
    } else {
        fields_spec(fs, i + 1, fm.insert(fs[i].name, fs[i].typ), line, column)
    }
}

/// Analyzing the nodes from the `i`-th on, in order, up to the first failure.
pub open spec fn seq_spec(st: AState, ns: Seq<Node>, i: int) -> (Result<(), SErr>, AState)
    decreases ns, ns.len() - i,
{
    if i < 0 || i >= ns.len() {
        (Ok(()), st)
    } else {
        match analyze_spec(st, ns[i]) {
            (Err(e), s) => (Err(e), s),
            (Ok(_), s) => seq_spec(s, ns, i + 1),
        }
    }
}

/// Analyzing a node: the outcome and the state reached, also on failure.
pub open spec fn analyze_spec(st: AState, n: Node) -> (Result<(), SErr>, AState)
    decreases n, 0int,
{
    match n {
        Node::Program(ns) => seq_spec(st, ns, 0),
        Node::Function { name, return_type, params, body, line, column } => {
            let meta = SMeta { typ: return_type, kind: SKind::Function(params.map_values(|f: Field| f.typ)) };
            let st1 = st.define(name, meta);
            if st.has_local(name) {
                (Err(SErr::Redefinition { message: quoted("Function '"@, name, "' already exists"@), line, column }), st1)
            } else {
                match params_spec(st1.with_ret(Some(return_type)).enter(), params, 0, line, column) {
                    (Err(e), s) => (Err(e), s),
                    (Ok(_), s) => match analyze_spec(s, *body) {
                        (Err(e), s2) => (Err(e), s2),
                        (Ok(_), s2) => (Ok(()), s2.exit().with_ret(st.ret)),
                    },
                }
            }
        },
        Node::VarDecl { name, typ, init, line, column } => {
            let checked = match init {
                None => Ok(()),
                Some(e) => match expr_spec(st, *e) {
                    Err(x) => Err(x),
                    Ok(t) => if t != typ {
                        Err(SErr::TypeMismatch {
                            expected: ty_text(typ),
                            found: ty_text(t),
                            message: quoted("Variable '"@, name, "' type mismatch"@),
                            line,
                            column,
                        })
                    } else {
                        Ok(())
                    },
                },
            };
            match checked {
                Err(x) => (Err(x), st),
                Ok(_) => {
                    let st1 = st.define(name, SMeta { typ, kind: SKind::Variable });
                    if st.has_local(name) {
                        (Err(SErr::Redefinition {
                            message: quoted("Variable '"@, name, "' already defined in this scope"@),
                            line,
                            column,
                        }), st1)
                    } else {
                        (Ok(()), st1)
                    }
                },
            }
        },
        Node::Assign { target, value, line, column } => match expr_spec(st, *target) {
            Err(e) => (Err(e), st),
            Ok(tt) => match expr_spec(st, *value) {
                Err(e) => (Err(e), st),
                Ok(vt) => if vt != tt {
                    (Err(mismatch(ty_text(tt), vt, "Assignment type mismatch"@, line, column)), st)
                } else {
                    (Ok(()), st)
                },
            },
        },
        Node::Return { value, line, column } => match st.ret {
            None => (Err(SErr::InvalidReturnType { message: "Return statement outside of function"@, line, column }), st),
            Some(rt) => match value {
                None => (Ok(()), st),
                Some(v) => match expr_spec(st, *v) {
                    Err(e) => (Err(e), st),
                    Ok(et) => if et != rt {
                        (Err(mismatch(ty_text(rt), et, "Return type mismatch"@, line, column)), st)
                    } else {
                        (Ok(()), st)
                    },
                },
            },
        },
        Node::Block { statements, line, column } => match seq_spec(st.enter(), statements, 0) {
            (Err(e), s) => (Err(e), s),
            (Ok(_), s) => (Ok(()), s.exit()),
        },
        Node::IfElse { cond, then_branch, else_branch, line, column } => match expr_spec(st, *cond) {
            Err(e) => (Err(e), st),
            Ok(ct) => if ct != Ty::Bool {
                (Err(mismatch("Bool"@, ct, "If condition must be of type bool"@, line, column)), st)
            } else {
                match analyze_spec(st, *then_branch) {
                    (Err(e), s) => (Err(e), s),
                    (Ok(_), s) => match else_branch {
                        None => (Ok(()), s),
                        Some(eb) => analyze_spec(s, *eb),
                    },
                }
            },
        },
        Node::While { cond, body, line, column } => match expr_spec(st, *cond) {
            Err(e) => (Err(e), st),
            Ok(ct) => if ct != Ty::Bool {
                (Err(mismatch("Bool"@, ct, "While condition must be of type bool"@, line, column)), st)
            } else {
                analyze_spec(st, *body)
            },
        },
        Node::StructDecl { name, fields, line, column } => if st.structs.contains_key(name) {
            (Err(SErr::Redefinition { message: quoted("Struct '"@, name, "' is already defined"@), line, column }), st)
        } else {
            match fields_spec(fields, 0, Map::empty(), line, column) {
                Err(e) => (Err(e), st),
                Ok(fm) => (Ok(()), AState { scopes: st.scopes, ret: st.ret, structs: st.structs.insert(name, fm) }),
            }
        },
        Node::Print(e) => match expr_spec(st, *e) {
            Err(x) => (Err(x), st),
            Ok(_) => (Ok(()), st),
        },
        Node::IntLit(_) | Node::BoolLit(_) | Node::FloatLit(_) | Node::StringLit(_) => (Ok(()), st),
        _ => (Err(SErr::NotImplemented {
            message: "Statement not implemented for "@ + node_text(n),
            line: 0,
            column: 0,
        }), st),
    }
}

// ---------------------------------------------------------------------------
// Typing rules

/// Law (member access): if `obj` has type `Struct(S)` and struct `S` is known with a
/// field `f`, then `obj.f` has the type recorded for that field.
pub proof fn law_member_type(st: AState, object: Node, member: Seq<char>, line: int, column: int, sn: Seq<char>)
    requires
        expr_spec(st, object) == Ok::<Ty, SErr>(Ty::Struct(sn)),
        st.structs.contains_key(sn),
        st.structs[sn].contains_key(member),
    ensures
        expr_spec(st, Node::Member { object: Box::new(object), member, line, column }) == Ok::<Ty, SErr>(
            st.structs[sn][member],
        ),
{
}

proof fn lemma_fields_recorded(fs: Seq<Field>, i: int, fm: Map<Seq<char>, Ty>, line: int, column: int)
    requires
        0 <= i,
    ensures
        fields_spec(fs, i, fm, line, column) matches Ok(out) ==> {
            &&& forall|k: int| i <= k < fs.len() ==> out.contains_key(#[trigger] fs[k].name) && out[fs[k].name] == fs[k].typ
            &&& forall|key: Seq<char>| #[trigger] fm.contains_key(key) ==> out.contains_key(key) && out[key] == fm[key]
        },
    decreases fs.len() - i,
{
    if i < fs.len() && !fm.contains_key(fs[i].name) {
        let fm2 = fm.insert(fs[i].name, fs[i].typ);
        lemma_fields_recorded(fs, i + 1, fm2, line, column);
        assert(fm2.contains_key(fs[i].name));
        assert forall|key: Seq<char>| #[trigger] fm.contains_key(key) implies fm2.contains_key(key) && fm2[key] == fm[key] by {
            assert(key != fs[i].name);
        }
    }
}

/// Law (struct declarations): a struct declaration that the analysis accepts
/// records every field with its declared type, so that a later member access on a
/// value of that struct type has the declared field type (`law_member_type`).
pub proof fn law_struct_fields(st: AState, name: Seq<char>, fields: Seq<Field>, line: int, column: int)
    ensures
        analyze_spec(st, Node::StructDecl { name, fields, line, column }) matches (Ok(_), s) ==> {
            &&& s.structs.contains_key(name)
            &&& forall|k: int| 0 <= k < fields.len() ==> s.structs[name].contains_key(#[trigger] fields[k].name)
                && s.structs[name][fields[k].name] == fields[k].typ
        },
{
    lemma_fields_recorded(fields, 0, Map::empty(), line, column);
}

/// Law (operator typing): when both operands have the same type `t`, an
/// arithmetic operator (`+`, `-`, `*`, `/`) gives `t` if `t` is `Int` or `Float`
/// and fails otherwise, and a comparison (`==`, `<`, `<=`, `>`, `>=`) gives `Bool`;
/// operands of different types always fail.
pub proof fn law_operator_types(st: AState, left: Node, right: Node, op: BinaryOperator, line: int, column: int, t: Ty, u: Ty)
    requires
        expr_spec(st, left) == Ok::<Ty, SErr>(t),
        expr_spec(st, right) == Ok::<Ty, SErr>(u),
    ensures
        ({
            let e = expr_spec(st, Node::Binary { left: Box::new(left), right: Box::new(right), op, line, column });
            let arith = op == BinaryOperator::Add || op == BinaryOperator::Sub || op == BinaryOperator::Mul
                || op == BinaryOperator::Div;
            &&& t == u && arith && (t == Ty::Int || t == Ty::Float) ==> e == Ok::<Ty, SErr>(t)
            &&& t == u && arith && !(t == Ty::Int || t == Ty::Float) ==> e is Err
            &&& t == u && !arith ==> e == Ok::<Ty, SErr>(Ty::Bool)
            &&& t != u ==> e is Err
        }),
{
}

proof fn lemma_lookup_absent(scopes: Seq<Map<Seq<char>, SMeta>>, k: Seq<char>)
    requires
        forall|j: int| 0 <= j < scopes.len() ==> !(#[trigger] scopes[j]).contains_key(k),
    ensures
        lookup(scopes, k) is None,
    decreases scopes.len(),
{
    if scopes.len() > 0 {
        assert forall|j: int| 0 <= j < scopes.drop_last().len() implies !(#[trigger] scopes.drop_last()[j]).contains_key(k) by {
            assert(scopes.drop_last()[j] == scopes[j]);
        }
        lemma_lookup_absent(scopes.drop_last(), k);
    }
}

/// Law (names and indexing): a name defined in the innermost scope has the type
/// it was defined with there; a name defined in no scope is an undefined variable;
/// indexing an array of `inner` with an `Int` gives `inner`, and with an index of
/// any other type fails; literals have their own types.
pub proof fn law_expression_types(
    st: AState,
    name: Seq<char>,
    array: Node,
    index: Node,
    line: int,
    column: int,
    v: i16,
    b: bool,
    inner: Ty,
    it: Ty,
)
    ensures
        st.scopes.len() >= 1 && st.scopes.last().contains_key(name) ==> expr_spec(st, Node::Variable(name)) == Ok::<Ty, SErr>(
            st.scopes.last()[name].typ,
        ),
        (forall|j: int| 0 <= j < st.scopes.len() ==> !(#[trigger] st.scopes[j]).contains_key(name)) ==> expr_spec(
            st,
            Node::Variable(name),
        ) is Err,
        expr_spec(st, array) == Ok::<Ty, SErr>(Ty::Array(Box::new(inner))) && expr_spec(st, index) == Ok::<Ty, SErr>(it) ==> {
            &&& it == Ty::Int ==> expr_spec(st, Node::Index { array: Box::new(array), index: Box::new(index), line, column })
                == Ok::<Ty, SErr>(inner)
            &&& it != Ty::Int ==> expr_spec(st, Node::Index { array: Box::new(array), index: Box::new(index), line, column }) is Err
        },
        expr_spec(st, Node::IntLit(v)) == Ok::<Ty, SErr>(Ty::Int),
        expr_spec(st, Node::BoolLit(b)) == Ok::<Ty, SErr>(Ty::Bool),
{
    if forall|j: int| 0 <= j < st.scopes.len() ==> !(#[trigger] st.scopes[j]).contains_key(name) {
        lemma_lookup_absent(st.scopes, name);
    }
}

proof fn lemma_args_ok(st: AState, args: Seq<Node>, ps: Seq<Ty>, i: int, line: int, column: int)
    requires
        0 <= i <= args.len(),
        args.len() == ps.len(),
    ensures
        (args_spec(st, args, ps, i, line, column) is Ok) <==> (forall|k: int| i <= k < args.len() ==> #[trigger] expr_spec(st, args[k]) == Ok::<Ty, SErr>(ps[k])),
    decreases args.len() - i,
{
    if i < args.len() {
        lemma_args_ok(st, args, ps, i + 1, line, column);
        if expr_spec(st, args[i]) != Ok::<Ty, SErr>(ps[i]) {
            assert(!(forall|k: int| i <= k < args.len() ==> #[trigger] expr_spec(st, args[k]) == Ok::<Ty, SErr>(ps[k])));
        }
    }
}

/// Law (calls): a call of a name that no scope defines fails, as does a call of a
/// name that is not a function; a call of a function with parameter types `ps`
/// and result type `rt` has type `rt` exactly when it passes as many arguments as
/// there are parameters and each argument has its parameter's type, and fails
/// otherwise.
pub proof fn law_call_types(st: AState, name: Seq<char>, args: Seq<Node>, line: int, column: int)
    ensures
        lookup(st.scopes, name) is None ==> expr_spec(st, Node::Call { name, args, line, column }) is Err,
        lookup(st.scopes, name) matches Some(m) ==> {
            &&& !(m.kind is Function) ==> expr_spec(st, Node::Call { name, args, line, column }) is Err
            &&& m.kind is Function ==> {
                let ps = m.kind->Function_0;
                (expr_spec(st, Node::Call { name, args, line, column }) == Ok::<Ty, SErr>(m.typ)) == (args.len() == ps.len()
                    && forall|k: int| 0 <= k < args.len() ==> #[trigger] expr_spec(st, args[k]) == Ok::<Ty, SErr>(ps[k]))
                && (expr_spec(st, Node::Call { name, args, line, column }) is Err || expr_spec(st, Node::Call { name, args, line, column })
                    == Ok::<Ty, SErr>(m.typ))
            }
        },
{
    if let Some(m) = lookup(st.scopes, name) {
        if let SKind::Function(ps) = m.kind {
            if args.len() == ps.len() {
                lemma_args_ok(st, args, ps, 0, line, column);
            }
        }
    }
}

/// Law (statement checks): an `if` or `while` whose condition is not a `Bool`
/// fails; a `return` outside a function fails, and inside a function returning `rt`
/// succeeds, changing nothing, exactly when its value has type `rt`; a declaration
/// whose initial value's type differs from the declared type fails; an assignment
/// succeeds exactly when target and value have the same type, and changes nothing.
pub proof fn law_statement_checks(
    st: AState,
    cond: Node,
    then_branch: Node,
    else_branch: Option<Box<Node>>,
    value: Node,
    target: Node,
    name: Seq<char>,
    typ: Ty,
    line: int,
    column: int,
    ct: Ty,
    t: Ty,
    tt: Ty,
)
    ensures
        expr_spec(st, cond) == Ok::<Ty, SErr>(ct) && ct != Ty::Bool ==> {
            &&& analyze_spec(st, Node::IfElse { cond: Box::new(cond), then_branch: Box::new(then_branch), else_branch, line, column }).0 is Err
            &&& analyze_spec(st, Node::While { cond: Box::new(cond), body: Box::new(then_branch), line, column }).0 is Err
        },
        st.ret is None ==> analyze_spec(st, Node::Return { value: Some(Box::new(value)), line, column }).0 is Err,
        st.ret is Some && expr_spec(st, value) == Ok::<Ty, SErr>(t) ==> {
            &&& (analyze_spec(st, Node::Return { value: Some(Box::new(value)), line, column }).0 is Ok) == (t == st.ret->Some_0)
            &&& analyze_spec(st, Node::Return { value: Some(Box::new(value)), line, column }).1 == st
        },
        expr_spec(st, value) == Ok::<Ty, SErr>(t) && t != typ ==> analyze_spec(
            st,
            Node::VarDecl { name, typ, init: Some(Box::new(value)), line, column },
        ).0 is Err,
        expr_spec(st, target) == Ok::<Ty, SErr>(tt) && expr_spec(st, value) == Ok::<Ty, SErr>(t) ==> {
            &&& (analyze_spec(st, Node::Assign { target: Box::new(target), value: Box::new(value), line, column }).0 is Ok)
                == (tt == t)
            &&& analyze_spec(st, Node::Assign { target: Box::new(target), value: Box::new(value), line, column }).1 == st
        },
{
}

// ---------------------------------------------------------------------------
// Scoping

/// Whether `b` has as many scopes as `a`, equal to those of `a` except perhaps the
/// innermost, the same return type, and every struct definition of `a`.
pub open spec fn keeps_outer(a: AState, b: AState) -> bool {
    &&& b.scopes.len() == a.scopes.len()
    &&& forall|k: int| 0 <= k < a.scopes.len() - 1 ==> #[trigger] b.scopes[k] == a.scopes[k]
    &&& b.ret == a.ret
    &&& forall|k: Seq<char>| #[trigger] a.structs.contains_key(k) ==> b.structs.contains_key(k) && b.structs[k] == a.structs[k]
}

proof fn lemma_params_keeps(st: AState, ps: Seq<Field>, i: int, line: int, column: int)
    requires
        st.scopes.len() >= 1,
    ensures
        params_spec(st, ps, i, line, column).0 is Ok ==> keeps_outer(st, params_spec(st, ps, i, line, column).1),
    decreases ps.len() - i,
{
    if 0 <= i < ps.len() && !st.has_local(ps[i].name) {
        let next = st.define(ps[i].name, SMeta { typ: ps[i].typ, kind: SKind::Parameter });
        lemma_params_keeps(next, ps, i + 1, line, column);
    }
}

proof fn lemma_seq_keeps(st: AState, ns: Seq<Node>, i: int)
    requires
        st.scopes.len() >= 1,
    ensures
        seq_spec(st, ns, i).0 is Ok ==> keeps_outer(st, seq_spec(st, ns, i).1),
    decreases ns, ns.len() - i,
{
    if 0 <= i < ns.len() {
        lemma_analyze_keeps(st, ns[i]);
        if let (Ok(_), s) = analyze_spec(st, ns[i]) {
            lemma_seq_keeps(s, ns, i + 1);
        }
    }
}

proof fn lemma_stmt_keeps(st: AState, n: Node)
    requires
        st.scopes.len() >= 1,
        !(n is Program || n is Function || n is Block || n is IfElse || n is While),
    ensures
        analyze_spec(st, n).0 is Ok ==> keeps_outer(st, analyze_spec(st, n).1),
{
}

proof fn lemma_function_keeps(st: AState, n: Node)
    requires
        st.scopes.len() >= 1,
        n is Function,
    ensures
        analyze_spec(st, n).0 is Ok ==> keeps_outer(st, analyze_spec(st, n).1),
    decreases n, 1int,
{
    if let Node::Function { name, return_type, params, body, line, column } = n {
        let meta = SMeta { typ: return_type, kind: SKind::Function(params.map_values(|f: Field| f.typ)) };
        let st1 = st.define(name, meta);
        let inner = st1.with_ret(Some(return_type)).enter();
        lemma_params_keeps(inner, params, 0, line, column);
        if let (Ok(_), s) = params_spec(inner, params, 0, line, column) {
            lemma_analyze_keeps(s, *body);
            if let (Ok(_), s2) = analyze_spec(s, *body) {
                let fin = s2.exit().with_ret(st.ret);
                assert forall|k: int| 0 <= k < st.scopes.len() - 1 implies #[trigger] fin.scopes[k] == st.scopes[k] by {
                    assert(s2.scopes[k] == s.scopes[k]);
                    assert(s.scopes[k] == inner.scopes[k]);
                }
            }
        }
    }
}

proof fn lemma_block_keeps(st: AState, n: Node)
    requires
        st.scopes.len() >= 1,
        n is Block,
    ensures
        analyze_spec(st, n).0 is Ok ==> keeps_outer(st, analyze_spec(st, n).1),
        analyze_spec(st, n).0 is Ok ==> analyze_spec(st, n).1.scopes == st.scopes,
    decreases n, 1int,
{
    if let Node::Block { statements, .. } = n {
        lemma_seq_keeps(st.enter(), statements, 0);
        if let (Ok(_), s) = seq_spec(st.enter(), statements, 0) {
            assert forall|k: int| 0 <= k < st.scopes.len() implies #[trigger] s.exit().scopes[k] == st.scopes[k] by {
                assert(s.scopes[k] == st.enter().scopes[k]);
            }
            assert(s.exit().scopes =~= st.scopes);
            assert forall|k: Seq<char>| #[trigger] st.structs.contains_key(k) implies s.structs.contains_key(k)
                && s.structs[k] == st.structs[k] by {
                assert(st.enter().structs.contains_key(k));
            }
        }
    }
}

proof fn lemma_branch_keeps(st: AState, n: Node)
    requires
        st.scopes.len() >= 1,
        n is IfElse || n is While,
    ensures
        analyze_spec(st, n).0 is Ok ==> keeps_outer(st, analyze_spec(st, n).1),
    decreases n, 1int,
{
    match n {
        Node::IfElse { then_branch, else_branch, .. } => {
            lemma_analyze_keeps(st, *then_branch);
            if let (Ok(_), s) = analyze_spec(st, *then_branch) {
                if let Some(eb) = else_branch {
                    lemma_analyze_keeps(s, *eb);
                }
            }
        },
        Node::While { body, .. } => lemma_analyze_keeps(st, *body),
        _ => {},
    }
}

proof fn lemma_analyze_keeps(st: AState, n: Node)
    requires
        st.scopes.len() >= 1,
    ensures
        analyze_spec(st, n).0 is Ok ==> keeps_outer(st, analyze_spec(st, n).1),
        analyze_spec(st, n).0 is Ok && n is Block ==> analyze_spec(st, n).1.scopes == st.scopes,
    decreases n, 2int,
{
    if let Node::Program(ns) = n {
        lemma_seq_keeps(st, ns, 0);
    } else if n is Function {
        lemma_function_keeps(st, n);
    } else if n is Block {
        lemma_block_keeps(st, n);
    } else if n is IfElse || n is While {
        lemma_branch_keeps(st, n);
    } else {
        lemma_stmt_keeps(st, n);
    }
}

proof fn lemma_seq_shift(st: AState, xs: Seq<Node>, ys: Seq<Node>, j: int)
    requires
        0 <= j <= ys.len(),
    ensures
        seq_spec(st, xs + ys, xs.len() + j) == seq_spec(st, ys, j),
    decreases ys.len() - j,
{
    if j < ys.len() {
        assert((xs + ys)[xs.len() + j] == ys[j]);
        if let (Ok(_), s) = analyze_spec(st, ys[j]) {
            lemma_seq_shift(s, xs, ys, j + 1);
        }
    }
}

proof fn lemma_seq_split(st: AState, xs: Seq<Node>, ys: Seq<Node>, i: int)
    requires
        0 <= i <= xs.len(),
    ensures
        seq_spec(st, xs + ys, i) == (match seq_spec(st, xs, i) {
            (Ok(_), s) => seq_spec(s, ys, 0),
            (Err(e), s) => (Err(e), s),
        }),
    decreases xs.len() - i,
{
    if i == xs.len() {
        lemma_seq_shift(st, xs, ys, 0);
    } else {
        assert((xs + ys)[i] == xs[i]);
        if let (Ok(_), s) = analyze_spec(st, xs[i]) {
            lemma_seq_split(s, xs, ys, i + 1);
        }
    }
}

/// Law: analysing the top-level nodes `xs` followed by `ys` as one program gives
/// the same outcome and state as analysing `xs` and then, if that succeeded,
/// analysing `ys` from the state that `xs` left.
pub proof fn law_analysis_in_parts(st: AState, xs: Seq<Node>, ys: Seq<Node>)
    ensures
        analyze_spec(st, Node::Program(xs + ys)) == (match analyze_spec(st, Node::Program(xs)) {
            (Ok(_), s) => analyze_spec(s, Node::Program(ys)),
            (Err(e), s) => (Err(e), s),
        }),
{
    lemma_seq_split(st, xs, ys, 0);
}

/// Law: leaving a scope just entered gives back the state before.
pub proof fn law_exit_undoes_enter(st: AState)
    ensures
        st.enter().exit() == st,
{
    assert(st.enter().exit().scopes =~= st.scopes);
}

/// Law (lexical scoping): when the analysis of any node succeeds, the number of
/// open scopes is the same as before, no scope but the innermost has changed, the
/// return type in force is the one before, and every struct definition is kept;
/// after a block, the scopes are exactly those before it, so that nothing
/// declared inside a block is visible after it.
pub proof fn law_analysis_scoping(st: AState, n: Node)
    requires
        st.scopes.len() >= 1,
    ensures
        analyze_spec(st, n).0 is Ok ==> keeps_outer(st, analyze_spec(st, n).1),
        analyze_spec(st, n).0 is Ok && n is Block ==> analyze_spec(st, n).1.scopes == st.scopes,
{
    lemma_analyze_keeps(st, n);
}

// ---------------------------------------------------------------------------
// Types at run time

/// The types of a list of parameters.
fn param_types<'a>(ps: &Vec<Parameter<'a>>) -> (v: Vec<Type<'a>>)
    ensures
        types_view(v@) == fields_view(ps@).map_values(|f: Field| f.typ),
{
    let mut v: Vec<Type<'a>> = Vec::new();
    let mut k: usize = 0;
    while k < ps.len()
        invariant
            k <= ps@.len(),
            v@.len() == k,
            forall|i: int| 0 <= i < k ==> v@[i]@ == ps@[i].param_typ@,
        decreases ps@.len() - k,
    {
        let t = copy_type(&ps[k].param_typ);
        v.push(t);
        k += 1;
    }
    assert(types_view(v@) =~= fields_view(ps@).map_values(|f: Field| f.typ));
    v
}

/// `pre`, then `mid`, then `post`.
fn text3(pre: &str, mid: &str, post: &str) -> (s: String)
    ensures
        s@ == pre@ + mid@ + post@,
{
    let mut s = String::from_str(pre);
    s.append(mid);
    s.append(post);
    s
}

/// The abstract value of an analysis outcome.
pub open spec fn unit_res(r: Result<(), SemanticError>) -> Result<(), SErr> {
    match r {
        Ok(_) => Ok(()),
        Err(e) => Err(e@),
    }
}

/// The abstract value of a typing outcome.
pub open spec fn type_res<'a>(r: Result<Type<'a>, SemanticError>) -> Result<Ty, SErr> {
    match r {
        Ok(t) => Ok(t@),
        Err(e) => Err(e@),
    }
}

/// The analyzer state: the scopes (innermost last), the return type of the
/// function being analyzed, and the struct definitions.
pub struct Analyzer<'a> {
    scope_stack: Vec<Vec<(&'a str, MetaData<'a>)>>,
    current_return_type: Option<Type<'a>>,
    struct_definitions: Vec<(&'a str, FieldTable<'a>)>,
}

impl<'a> Analyzer<'a> {
    /// The abstract state.
    pub closed spec fn state(&self) -> AState {
        AState {
            scopes: self.scope_stack@.map_values(|sc: Vec<(&'a str, MetaData<'a>)>| table(sc@)),
            ret: match self.current_return_type {
                Some(t) => Some(t@),
                None => None,
            },
            structs: table(self.struct_definitions@),
        }
    }

    /// There is always a scope to define names in.
    pub closed spec fn wf(&self) -> bool {
        self.scope_stack@.len() >= 1
    }

    /// A fresh analyzer: one empty scope, no function, no structs.
    pub fn new() -> (a: Self)
        ensures
            a.wf(),
            a.state() == (AState { scopes: seq![Map::<Seq<char>, SMeta>::empty()], ret: None, structs: Map::empty() }),
    {
        let mut scope_stack: Vec<Vec<(&'a str, MetaData<'a>)>> = Vec::new();
        scope_stack.push(Vec::new());
        let a = Analyzer { scope_stack, current_return_type: None, struct_definitions: Vec::new() };
        assert(a.state().scopes =~= seq![Map::<Seq<char>, SMeta>::empty()]);
        assert(a.state().structs =~= Map::<Seq<char>, Map<Seq<char>, Ty>>::empty());
        a
    }

    /// Defines `name` in the innermost scope; tells whether it was defined there already.
    fn insert_local(&mut self, name: &'a str, meta: MetaData<'a>) -> (existed: bool)
        requires
            old(self).wf(),
        ensures
            final(self).wf(),
            existed == old(self).state().has_local(name@),
            final(self).state() == old(self).state().define(name@, meta@),
            final(self).scope_stack@.len() == old(self).scope_stack@.len(),
    {
        let ghost st = self.state();
        let mut top = match self.scope_stack.pop() {
            Some(t) => t,
            None => Vec::new(),
        };
        let existed = match find_key(&top, name) {
            Some(_) => true,
            None => false,
        };
        let ghost mv = meta@;
        push_entry(&mut top, name, meta);
        self.scope_stack.push(top);
        assert(self.state().scopes =~= st.scopes.update(st.scopes.len() - 1, st.scopes.last().insert(name@, mv)));
        existed
    }

    /// Opens a new innermost scope.
    fn enter_scope(&mut self)
        ensures
            final(self).state() == old(self).state().enter(),
            final(self).scope_stack@.len() == old(self).scope_stack@.len() + 1,
    {
        let ghost st = self.state();
        self.scope_stack.push(Vec::new());
        assert(self.state().scopes =~= st.scopes.push(Map::empty()));
    }

    /// Closes the innermost scope.
    fn exit_scope(&mut self)
        requires
            old(self).scope_stack@.len() >= 1,
        ensures
            final(self).state() == old(self).state().exit(),
            final(self).scope_stack@.len() == old(self).scope_stack@.len() - 1,
    {
        let ghost st = self.state();
        self.scope_stack.pop();
        assert(self.state().scopes =~= st.scopes.drop_last());
    }

    /// The symbol `name` denotes, looked up from the innermost scope outwards.
    fn lookup_variable(&self, name: &str) -> (r: Option<&MetaData<'a>>)
        ensures
            match r {
                Some(m) => lookup(self.state().scopes, name@) == Some(m@),
                None => lookup(self.state().scopes, name@) is None,
            },
    {
        let ghost scs = self.state().scopes;
        let mut s = self.scope_stack.len();
        assert(scs.take(s as int) =~= scs);
        while s > 0
            invariant
                s <= self.scope_stack@.len(),
                scs == self.state().scopes,
                lookup(scs, name@) == lookup(scs.take(s as int), name@),
            decreases s,
        {
            let sc = &self.scope_stack[s - 1];
            assert(scs.take(s as int).last() == table(sc@));
            assert(scs.take(s as int).drop_last() =~= scs.take(s - 1));
            match find_key(sc, name) {
                Some(j) => {
                    return Some(&sc[j].1);
                },
                None => {},
            }
            s -= 1;
        }
        None
    }

    /// The type of an expression, or why it has none.
    #[verifier::loop_isolation(false)]
    fn analyze_expr(&self, node: &AstNode<'a>) -> (r: Result<Type<'a>, SemanticError>)
        ensures
            type_res(r) == expr_spec(self.state(), node@),
        decreases node,
    {
        match node {
            AstNode::IntLiteralExpr(_) => Ok(Type::Int),
            AstNode::BoolLiteralExpr(_) => Ok(Type::Bool),
            AstNode::FloatLiteralExpr(_) => Ok(Type::Float),
            AstNode::StringLiteralExpr(_) => Ok(Type::String),
            AstNode::VariableExpr(name) => match self.lookup_variable(name) {
                None => Err(SemanticError::UndefinedVariable { name: String::from_str(name), line: 0, column: 0 }),
                Some(meta) => Ok(copy_type(&meta.typ)),
            },
            AstNode::BinaryExpr(data) => {
                let left_type = match self.analyze_expr(&data.left) {
                    Ok(t) => t,
                    Err(e) => return Err(e),
                };
                let right_type = match self.analyze_expr(&data.right) {
                    Ok(t) => t,
                    Err(e) => return Err(e),
                };
                if !same_type(&left_type, &right_type) {
                    return Err(SemanticError::TypeMismatch {
                        expected: type_string(&left_type),
                        found: type_string(&right_type),
                        message: String::from_str("Binary expression operands must have matching types"),
                        line: data.line,
                        column: data.column,
                    });
                }
                match data.operator {
                    BinaryOperator::Add | BinaryOperator::Sub | BinaryOperator::Mul | BinaryOperator::Div => {
                        if !matches!(left_type, Type::Int) && !matches!(left_type, Type::Float) {
                            return Err(SemanticError::TypeMismatch {
                                expected: String::from_str("Int or Float"),
                                found: type_string(&left_type),
                                message: String::from_str("Arithmetic operators require int or float operands"),
                                line: data.line,
                                column: data.column,
                            });
                        }
                        Ok(left_type)
                    },
                    BinaryOperator::LessThan
                    | BinaryOperator::GreaterThan
                    | BinaryOperator::LessOrEqual
                    | BinaryOperator::GreaterOrEqual
                    | BinaryOperator::DoubleEqual => Ok(Type::Bool),
                }
            },
            AstNode::CallExpr(data) => {
                let meta = match self.lookup_variable(data.name) {
                    Some(m) => m,
                    None => {
                        return Err(SemanticError::UndefinedFunction {
                            name: String::from_str(data.name),
                            line: data.line,
                            column: data.column,
                        });
                    },
                };
                let params = match &meta.kind {
                    ElementKind::Function { parameters } => parameters,
                    _ => {
                        return Err(SemanticError::NotAncillaryElement {
                            name: String::from_str(data.name),
                            expected: String::from_str("function"),
                            line: data.line,
                            column: data.column,
                        });
                    },
                };
                assert(meta@.kind == SKind::Function(types_view(params@)));
                if data.arguments.len() != params.len() {
                    assert(nodes_view(data.arguments@).len() != types_view(params@).len());
                    let mut message = String::from_str("Function '");
                    message.append(data.name);
                    message.append("' expects ");
                    push_dec_usize(&mut message, params.len());
                    message.append(" arguments, but ");
                    push_dec_usize(&mut message, data.arguments.len());
                    message.append(" were provided");
                    assert(message@ =~= "Function '"@ + data.name@ + "' expects "@ + dec_nat(params@.len() as nat)
                        + " arguments, but "@ + dec_nat(data.arguments@.len() as nat) + " were provided"@);
                    return Err(SemanticError::InvalidReturnType { message, line: data.line, column: data.column });
                }
                let ghost st = self.state();
                let ghost args = nodes_view(data.arguments@);
                let ghost ps = types_view(params@);
                let mut k: usize = 0;
                while k < data.arguments.len()
                    invariant
                        k <= data.arguments@.len(),
                        data.arguments@.len() == params@.len(),
                        st == self.state(),
                        args == nodes_view(data.arguments@),
                        ps == types_view(params@),
                        args_spec(st, args, ps, 0, data.line as int, data.column as int)
                            == args_spec(st, args, ps, k as int, data.line as int, data.column as int),
                    decreases data.arguments@.len() - k,
                {
                    proof { assert(decreases_to!(node => data.arguments@[k as int])); }
                    let arg_type = match self.analyze_expr(&data.arguments[k]) {
                        Ok(t) => t,
                        Err(e) => return Err(e),
                    };
                    assert(args[k as int] == node_view(data.arguments@[k as int]));
                    if !same_type(&arg_type, &params[k]) {
                        return Err(SemanticError::TypeMismatch {
                            expected: type_string(&params[k]),
                            found: type_string(&arg_type),
                            message: String::from_str("Argument type mismtach"),
                            line: data.line,
                            column: data.column,
                        });
                    }
                    k += 1;
                }
                Ok(copy_type(&meta.typ))
            },
            AstNode::MemberAccessExpr(data) => {
                let object_type = match self.analyze_expr(&data.object) {
                    Ok(t) => t,
                    Err(e) => return Err(e),
                };
                let struct_name = match object_type {
                    Type::Struct(n) => n,
                    _ => {
                        return Err(SemanticError::InvalidReturnType {
                            message: String::from_str("Member access '.' is not allowed on non-struct types"),
                            line: data.line,
                            column: data.column,
                        });
                    },
                };
                let j = match find_key(&self.struct_definitions, struct_name) {
                    Some(j) => j,
                    None => {
                        return Err(SemanticError::UndefinedStruct {
                            name: String::from_str(struct_name),
                            line: data.line,
                            column: data.column,
                        });
                    },
                };
                let fields = &self.struct_definitions[j].1;
                match find_key(&fields.entries, data.member.as_str()) {
                    Some(q) => Ok(copy_type(&fields.entries[q].1)),
                    None => {
                        let mut name = String::from_str("Struct '");
                        name.append(struct_name);
                        name.append("' has no field named '");
                        name.append(data.member.as_str());
                        name.append("'");
                        Err(SemanticError::UndefinedVariable { name, line: data.line, column: data.column })
                    },
                }
            },
            AstNode::ArrayIndexExpr(data) => {
                let array_type = match self.analyze_expr(&data.array) {
                    Ok(t) => t,
                    Err(e) => return Err(e),
                };
                let index_type = match self.analyze_expr(&data.index) {
                    Ok(t) => t,
                    Err(e) => return Err(e),
                };
                if !matches!(index_type, Type::Int) {
                    return Err(SemanticError::TypeMismatch {
                        expected: String::from_str("Int"),
                        found: type_string(&index_type),
                        message: String::from_str("Array index must be of type Int"),
                        line: data.line,
                        column: data.column,
                    });
                }
                match array_type {
                    Type::Array(inner) => Ok(*inner),
                    _ => Err(SemanticError::InvalidReturnType {
                        message: String::from_str("Indexing not allowed on non-array type"),
                        line: data.line,
                        column: data.column,
                    }),
                }
            },
            _ => {
                let mut message = String::from_str("Expression type not supported: ");
                write_node(&mut message, node);
                Err(SemanticError::NotImplemented { message, line: 0, column: 0 })
            },
        }
    }
}

impl<'a> Analyzer<'a> {
    /// The number of open scopes.
    pub closed spec fn depth(&self) -> nat {
        self.scope_stack@.len()
    }

    /// A well-formed analyzer has at least one open scope, and its depth is the
    /// number of scopes of its abstract state.
    pub proof fn lemma_scopes(&self)
        requires
            self.wf(),
        ensures
            self.depth() >= 1,
            self.depth() == self.state().scopes.len(),
    {
    }

    /// Analyzes a node, updating the symbol tables; on failure the state is left
    /// as it was when the failure was found.
    #[verifier::loop_isolation(false)]
    #[verifier::spinoff_prover]
    #[verifier::rlimit(60)]
    pub fn analyze(&mut self, ast: &AstNode<'a>) -> (r: Result<(), SemanticError>)
        requires
            old(self).wf(),
        ensures
            final(self).wf(),
            analyze_spec(old(self).state(), ast@) == (unit_res(r), final(self).state()),
            r is Ok ==> final(self).depth() == old(self).depth(),
            r is Ok ==> keeps_outer(old(self).state(), final(self).state()),
            final(self).depth() >= old(self).depth(),
        decreases ast,
    {
        proof {
            law_analysis_scoping(self.state(), ast@);
        }
        let ghost st = self.state();
        match ast {
            AstNode::Programm(nodes) => {
                let ghost ns = nodes_view(nodes@);
                let mut k: usize = 0;
                while k < nodes.len()
                    invariant
                        k <= nodes@.len(),
                        self.wf(),
                        self.depth() == old(self).depth(),
                        ns == nodes_view(nodes@),
                        seq_spec(st, ns, 0) == seq_spec(self.state(), ns, k as int),
                    decreases nodes@.len() - k,
                {
                    proof { assert(decreases_to!(ast => nodes@[k as int])); }
                    assert(ns[k as int] == node_view(nodes@[k as int]));
                    match self.analyze(&nodes[k]) {
                        Ok(_) => {},
                        Err(e) => return Err(e),
                    }
                    k += 1;
                }
                Ok(())
            },
            AstNode::FunctionDecl(data) => {
                let param_types = param_types(&data.parameter);
                let func_meta = MetaData {
                    typ: copy_type(&data.return_type),
                    kind: ElementKind::Function { parameters: param_types },
                };
                if self.insert_local(data.name, func_meta) {
                    return Err(SemanticError::Redefinition {
                        message: text3("Function '", data.name, "' already exists"),
                        line: data.line,
                        column: data.column,
                    });
                }
                let previous_return_type = self.current_return_type.take();
                self.current_return_type = Some(copy_type(&data.return_type));
                self.enter_scope();
                let ghost ps = fields_view(data.parameter@);
                let ghost st2 = self.state();
                let mut k: usize = 0;
                while k < data.parameter.len()
                    invariant
                        k <= data.parameter@.len(),
                        self.wf(),
                        self.depth() == old(self).depth() + 1,
                        ps == fields_view(data.parameter@),
                        params_spec(st2, ps, 0, data.line as int, data.column as int)
                            == params_spec(self.state(), ps, k as int, data.line as int, data.column as int),
                    decreases data.parameter@.len() - k,
                {
                    let param = &data.parameter[k];
                    let param_meta = MetaData { typ: copy_type(&param.param_typ), kind: ElementKind::Parameter };
                    if self.insert_local(param.name, param_meta) {
                        return Err(SemanticError::Redefinition {
                            message: text3("Parameter '", param.name, "' already exists"),
                            line: data.line,
                            column: data.column,
                        });
                    }
                    k += 1;
                }
                match self.analyze(&data.body) {
                    Ok(_) => {},
                    Err(e) => return Err(e),
                }
                self.exit_scope();
                self.current_return_type = previous_return_type;
                Ok(())
            },
            AstNode::VarDeclStatement(data) => {
                match &data.initializer {
                    Some(init) => {
                        assert(opt_view(data.initializer) == Some(Box::new(node_view(**init))));
                        let init_type = match self.analyze_expr(init) {
                            Ok(t) => t,
                            Err(e) => return Err(e),
                        };
                        if !same_type(&init_type, &data.var_typ) {
                            return Err(SemanticError::TypeMismatch {
                                expected: type_string(&data.var_typ),
                                found: type_string(&init_type),
                                message: text3("Variable '", data.name, "' type mismatch"),
                                line: data.line,
                                column: data.column,
                            });
                        }
                    },
                    None => {},
                }
                let var_meta = MetaData { typ: copy_type(&data.var_typ), kind: ElementKind::Variable };
                if self.insert_local(data.name, var_meta) {
                    return Err(SemanticError::Redefinition {
                        message: text3("Variable '", data.name, "' already defined in this scope"),
                        line: data.line,
                        column: data.column,
                    });
                }
                Ok(())
            },
            AstNode::AssignmentStatement(data) => {
                let target_type = match self.analyze_expr(&data.target) {
                    Ok(t) => t,
                    Err(e) => return Err(e),
                };
                let val_type = match self.analyze_expr(&data.value) {
                    Ok(t) => t,
                    Err(e) => return Err(e),
                };
                if !same_type(&val_type, &target_type) {
                    return Err(SemanticError::TypeMismatch {
                        expected: type_string(&target_type),
                        found: type_string(&val_type),
                        message: String::from_str("Assignment type mismatch"),
                        line: data.line,
                        column: data.column,
                    });
                }
                Ok(())
            },
            AstNode::ReturnStatement(data) => {
                let return_type = match &self.current_return_type {
                    Some(t) => copy_type(t),
                    None => {
                        return Err(SemanticError::InvalidReturnType {
                            message: String::from_str("Return statement outside of function"),
                            line: data.line,
                            column: data.column,
                        });
                    },
                };
                match &data.value {
                    Some(val) => {
                        assert(opt_view(data.value) == Some(Box::new(node_view(**val))));
                        let expr_type = match self.analyze_expr(val) {
                            Ok(t) => t,
                            Err(e) => return Err(e),
                        };
                        if !same_type(&expr_type, &return_type) {
                            return Err(SemanticError::TypeMismatch {
                                expected: type_string(&return_type),
                                found: type_string(&expr_type),
                                message: String::from_str("Return type mismatch"),
                                line: data.line,
                                column: data.column,
                            });
                        }
                    },
                    None => {},
                }
                Ok(())
            },
            AstNode::BlockStatement(data) => {
                self.enter_scope();
                let ghost ns = nodes_view(data.statements@);
                let ghost st1 = self.state();
                let mut k: usize = 0;
                while k < data.statements.len()
                    invariant
                        k <= data.statements@.len(),
                        self.wf(),
                        self.depth() == old(self).depth() + 1,
                        ns == nodes_view(data.statements@),
                        seq_spec(st1, ns, 0) == seq_spec(self.state(), ns, k as int),
                    decreases data.statements@.len() - k,
                {
                    proof { assert(decreases_to!(ast => data.statements@[k as int])); }
                    assert(ns[k as int] == node_view(data.statements@[k as int]));
                    match self.analyze(&data.statements[k]) {
                        Ok(_) => {},
                        Err(e) => return Err(e),
                    }
                    k += 1;
                }
                self.exit_scope();
                Ok(())
            },
            AstNode::IfElseStatement(data) => {
                let cond_type = match self.analyze_expr(&data.condition_expr) {
                    Ok(t) => t,
                    Err(e) => return Err(e),
                };
                if !matches!(cond_type, Type::Bool) {
                    return Err(SemanticError::TypeMismatch {
                        expected: String::from_str("Bool"),
                        found: type_string(&cond_type),
                        message: String::from_str("If condition must be of type bool"),
                        line: data.line,
                        column: data.column,
                    });
                }
                match self.analyze(&data.if_branch) {
                    Ok(_) => {},
                    Err(e) => return Err(e),
                }
                match &data.else_branch {
                    Some(else_branch) => {
                        assert(opt_view(data.else_branch) == Some(Box::new(node_view(**else_branch))));
                        self.analyze(else_branch)
                    },
                    None => Ok(()),
                }
            },
            AstNode::WhileStatement(data) => {
                let cond_type = match self.analyze_expr(&data.condition_expr) {
                    Ok(t) => t,
                    Err(e) => return Err(e),
                };
                if !matches!(cond_type, Type::Bool) {
                    return Err(SemanticError::TypeMismatch {
                        expected: String::from_str("Bool"),
                        found: type_string(&cond_type),
                        message: String::from_str("While condition must be of type bool"),
                        line: data.line,
                        column: data.column,
                    });
                }
                self.analyze(&data.body)
            },
            AstNode::StructDecl(data) => {
                match find_key(&self.struct_definitions, data.name) {
                    Some(_) => {
                        return Err(SemanticError::Redefinition {
                            message: text3("Struct '", data.name, "' is already defined"),
                            line: data.line,
                            column: data.column,
                        });
                    },
                    None => {},
                }
                let ghost fs = fields_view(data.fields@);
                let mut fields_map = FieldTable { entries: Vec::new() };
                assert(pairs_view(fields_map.entries@) =~= Seq::<(Seq<char>, Ty)>::empty());
                assert(fields_map@ =~= Map::<Seq<char>, Ty>::empty());
                let mut k: usize = 0;
                while k < data.fields.len()
                    invariant
                        k <= data.fields@.len(),
                        fs == fields_view(data.fields@),
                        fields_spec(fs, 0, Map::empty(), data.line as int, data.column as int)
                            == fields_spec(fs, k as int, fields_map@, data.line as int, data.column as int),
                    decreases data.fields@.len() - k,
                {
                    let field = &data.fields[k];
                    match find_key(&fields_map.entries, field.name) {
                        Some(_) => {
                            return Err(SemanticError::Redefinition {
                                message: text3("Field '", field.name, "' is already defined in struct"),
                                line: data.line,
                                column: data.column,
                            });
                        },
                        None => {},
                    }
                    push_entry(&mut fields_map.entries, field.name, copy_type(&field.param_typ));
                    k += 1;
                }
                let ghost fmv = fields_map@;
                push_entry(&mut self.struct_definitions, data.name, fields_map);
                assert(self.state().scopes == st.scopes);
                Ok(())
            },
            AstNode::PrintStatement(expr) => {
                match self.analyze_expr(expr) {
                    Ok(_) => Ok(()),
                    Err(e) => Err(e),
                }
            },
            AstNode::IntLiteralExpr(_)
            | AstNode::BoolLiteralExpr(_)
            | AstNode::FloatLiteralExpr(_)
            | AstNode::StringLiteralExpr(_) => Ok(()),
            _ => {
                let mut message = String::from_str("Statement not implemented for ");
                write_node(&mut message, ast);
                Err(SemanticError::NotImplemented { message, line: 0, column: 0 })
            },
        }
    }
}

} // verus!
