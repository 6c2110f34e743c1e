//! Code generation for the basic dialect: ARM64 assembly for Apple platforms,
//! written into a text buffer. Generation covers programs, functions, returns,
//! integer literals, blocks, binary operations on integers, variable declarations,
//! assignments, variables and `if`/`else`; for other nodes, and for a variable
//! that was never declared, the specification gives `None` (generation stops).

use vstd::prelude::*;
use crate::assoc::{find_owned_key, owned_table, push_owned_entry};
use crate::basic::parser::{node_view, nodes_view, opt_view, AstNode, BinaryExpData, BinaryOperator, FunctionDeclData, IfElseData, Node, VarDeclData, AssignmentData};
use crate::text::{dec_int, dec_nat, push_dec_i64, push_dec_usize};

verus! {

/// A failure while producing an executable.
#[derive(Debug, PartialEq)]
pub enum GeneratorError {
    GeneralError(String),
}

/// The abstract generator state.
pub struct GState {
    /// The assembly text produced so far.
    pub buffer: Seq<char>,
    /// The stack offset (from the frame pointer) of each local variable.
    pub locals: Map<Seq<char>, i32>,
    /// The offset of the next stack slot.
    pub stack_offset: int,
    /// The number of labels handed out.
    pub labels: int,
}

impl GState {
    /// The state with `s` appended to the buffer.
    pub open spec fn emit(self, s: Seq<char>) -> GState {
        GState { buffer: self.buffer + s, ..self }
    }
}

/// The instructions computing a binary operation on `x1` and `x0`.
pub open spec fn op_text(op: BinaryOperator) -> Seq<char> {
    match op {
        BinaryOperator::Add => "\tadd x0, x1, x0\n"@,
        BinaryOperator::Sub => "\tsub x0, x1, x0\n"@,
        BinaryOperator::Mul => "\tmul x0, x1, x0\n"@,
        BinaryOperator::Div => "\tsdiv x0, x1, x0\n"@,
        BinaryOperator::DoubleEqual => "\tcmp x1, x0\n"@ + "\tcset x0, eq\n"@,
        BinaryOperator::LessThan => "\tcmp x1, x0\n"@ + "\tcset x0, lt\n"@,
        BinaryOperator::GreaterThan => "\tcmp x1, x0\n"@ + "\tcset x0, gt\n"@,
        BinaryOperator::LessOrEqual => "\tcmp x1, x0\n"@ + "\tcset x0, le\n"@,
        BinaryOperator::GreaterOrEqual => "\tcmp x1, x0\n"@ + "\tcset x0, ge\n"@,
    }
}

/// `[x29, #off]\n`.
pub open spec fn slot(off: int) -> Seq<char> {
    "[x29, #"@ + dec_int(off) + "]\n"@
}

/// Generating the nodes from the `i`-th on, in order.
pub open spec fn seq_gen(st: GState, ns: Seq<Node>, i: int) -> Option<GState>
    decreases ns, ns.len() - i,
{
    if i < 0 || i >= ns.len() {
        Some(st)
    } else {
        match gen_spec(st, ns[i]) {
            None => None,
            Some(s) => seq_gen(s, ns, i + 1),
        }
    }
}

/// Generating the code of a node: the state afterwards, or `None` where generation stops.
pub open spec fn gen_spec(st: GState, n: Node) -> Option<GState>
    decreases n, 0int,
{
    match n {
        Node::Program(ns) => seq_gen(st.emit(".global _main\n.text\n\n"@), ns, 0),
        Node::Function { name, body, .. } => gen_spec(
            GState { locals: Map::empty(), stack_offset: -8, ..st }.emit("_"@ + name + ":\n"@)
                .emit("\tstp x29, x30, [sp, #-16]!\n\tmov x29, sp\n"@).emit("\tsub sp, sp, #128\n"@),
            *body,
        ),
        Node::Return(e) => match gen_spec(st, *e) {
            None => None,
            Some(s) => Some(s.emit("\tmov sp, x29\n"@).emit("\tldp x29, x30, [sp], #16\n\tret\n"@)),
        },
        Node::IntLit(v) => Some(st.emit("\tmov x0, #"@ + dec_int(v as int) + "\n"@)),
        Node::Block(ns) => seq_gen(st, ns, 0),
        Node::Binary { left, right, op } => match gen_spec(st, *left) {
            None => None,
            Some(s1) => match gen_spec(s1.emit("\tstr x0, [sp, #-16]!\n"@), *right) {
                None => None,
                Some(s2) => Some(s2.emit("\tldr x1, [sp], #16\n"@).emit(op_text(op))),
            },
        },
        Node::VarDecl { name, init, .. } => {
            let s1 = match init {
                Some(e) => gen_spec(st, *e),
                None => Some(st.emit("\tmov x0, #0\n"@)),
            };
            match s1 {
                None => None,
                Some(s1) => {
                    let off = s1.stack_offset;
                    if off - 8 < i32::MIN {
                        None
                    } else {
                        Some(GState { locals: s1.locals.insert(name, off as i32), stack_offset: off - 8, ..s1 }
                            .emit("\tstr x0, "@ + slot(off)))
                    }
                },
            }
        },
        Node::Assign { name, value } => match gen_spec(st, *value) {
            None => None,
            Some(s) => if s.locals.contains_key(name) {
                Some(s.emit("\tstr x0, "@ + slot(s.locals[name] as int)))
            } else {
                None
            },
        },
        Node::Variable(name) => if st.locals.contains_key(name) {
            Some(st.emit("\tldr x0, "@ + slot(st.locals[name] as int)))
        } else {
            None
        },
        Node::IfElse { cond, then_branch, else_branch } => if st.labels + 1 > usize::MAX {
            None
        } else {
            let i = dec_nat(st.labels as nat);
            let jump = if else_branch is Some { "\tcbz x0, .L_else_"@ } else { "\tcbz x0, .L_end_"@ };
            match gen_spec(GState { labels: st.labels + 1, ..st }, *cond) {
                None => None,
                Some(s1) => match gen_spec(s1.emit(jump + i + "\n"@), *then_branch) {
                    None => None,
                    Some(s2) => {
                        let s3 = match else_branch {
                            Some(eb) => gen_spec(s2.emit("\tb .L_end_"@ + i + "\n"@).emit(".L_else_"@ + i + ":\n"@), *eb),
                            None => Some(s2),
                        };
                        match s3 {
                            None => None,
                            Some(s3) => Some(s3.emit(".L_end_"@ + i + ":\n"@)),
                        }
                    },
                },
            }
        },
        _ => None,
    }
}

/// Whether `b` begins with the whole text of `a` and has handed out at least as many labels.
pub open spec fn extends(a: GState, b: GState) -> bool {
    &&& a.buffer.len() <= b.buffer.len()
    &&& forall|k: int| 0 <= k < a.buffer.len() ==> #[trigger] b.buffer[k] == a.buffer[k]
    &&& a.labels <= b.labels
}

proof fn lemma_seq_extends(st: GState, ns: Seq<Node>, i: int)
    ensures
        seq_gen(st, ns, i) matches Some(s) ==> extends(st, s),
    decreases ns, ns.len() - i,
{
    if 0 <= i < ns.len() {
        lemma_gen_extends(st, ns[i]);
        if let Some(s) = gen_spec(st, ns[i]) {
            lemma_seq_extends(s, ns, i + 1);
        }
    }
}

proof fn lemma_gen_extends(st: GState, n: Node)
    ensures
        gen_spec(st, n) matches Some(s) ==> extends(st, s),
    decreases n, 0int,
{
    match n {
        Node::Program(ns) => lemma_seq_extends(st.emit(".global _main\n.text\n\n"@), ns, 0),
        Node::Function { name, body, .. } => lemma_gen_extends(
            GState { locals: Map::empty(), stack_offset: -8, ..st }.emit("_"@ + name + ":\n"@)
                .emit("\tstp x29, x30, [sp, #-16]!\n\tmov x29, sp\n"@).emit("\tsub sp, sp, #128\n"@),
            *body,
        ),
        Node::Return(e) => lemma_gen_extends(st, *e),
        Node::Block(ns) => lemma_seq_extends(st, ns, 0),
        Node::Binary { left, right, .. } => {
            lemma_gen_extends(st, *left);
            if let Some(s1) = gen_spec(st, *left) {
                lemma_gen_extends(s1.emit("\tstr x0, [sp, #-16]!\n"@), *right);
            }
        },
        Node::VarDecl { init, .. } => {
            if let Some(e) = init {
                lemma_gen_extends(st, *e);
            }
        },
        Node::Assign { value, .. } => lemma_gen_extends(st, *value),
        Node::IfElse { cond, then_branch, else_branch } => {
            let i = dec_nat(st.labels as nat);
            let jump = if else_branch is Some { "\tcbz x0, .L_else_"@ } else { "\tcbz x0, .L_end_"@ };
            let t0 = GState { labels: st.labels + 1, ..st };
            lemma_gen_extends(t0, *cond);
            if let Some(s1) = gen_spec(t0, *cond) {
                lemma_gen_extends(s1.emit(jump + i + "\n"@), *then_branch);
                if let Some(s2) = gen_spec(s1.emit(jump + i + "\n"@), *then_branch) {
                    if let Some(eb) = else_branch {
                        lemma_gen_extends(s2.emit("\tb .L_end_"@ + i + "\n"@).emit(".L_else_"@ + i + ":\n"@), *eb);
                    }
                }
            }
        },
        _ => {},
    }
}

/// Law (binary operators): a binary operation generates its left operand first,
/// pushes it, generates the right operand into `x0`, pops the left operand into
/// `x1`, and then computes `left op right` with the ARM64 instruction that takes
/// the left operand as its first source: `add`/`sub`/`mul`/`sdiv x0, x1, x0`, and for
/// a comparison `cmp x1, x0` followed by `cset x0` with `eq`, `lt`, `gt`, `le` or `ge`.
pub proof fn law_binary_operator_code(st: GState, left: Node, right: Node, op: BinaryOperator)
    ensures
        gen_spec(st, Node::Binary { left: Box::new(left), right: Box::new(right), op }) matches Some(s) ==> {
            let s1 = gen_spec(st, left)->Some_0;
            let s2 = gen_spec(s1.emit("\tstr x0, [sp, #-16]!\n"@), right)->Some_0;
            &&& gen_spec(st, left) is Some
            &&& s.buffer == s2.buffer + "\tldr x1, [sp], #16\n"@ + match op {
                BinaryOperator::Add => "\tadd x0, x1, x0\n"@,
                BinaryOperator::Sub => "\tsub x0, x1, x0\n"@,
                BinaryOperator::Mul => "\tmul x0, x1, x0\n"@,
                BinaryOperator::Div => "\tsdiv x0, x1, x0\n"@,
                BinaryOperator::DoubleEqual => "\tcmp x1, x0\n\tcset x0, eq\n"@,
                BinaryOperator::LessThan => "\tcmp x1, x0\n\tcset x0, lt\n"@,
                BinaryOperator::GreaterThan => "\tcmp x1, x0\n\tcset x0, gt\n"@,
                BinaryOperator::LessOrEqual => "\tcmp x1, x0\n\tcset x0, le\n"@,
                BinaryOperator::GreaterOrEqual => "\tcmp x1, x0\n\tcset x0, ge\n"@,
            }
        },
{
    if let Some(s) = gen_spec(st, Node::Binary { left: Box::new(left), right: Box::new(right), op }) {
        let s1 = gen_spec(st, left)->Some_0;
        let s2 = gen_spec(s1.emit("\tstr x0, [sp, #-16]!\n"@), right)->Some_0;
        assert(s.buffer =~= s2.buffer + "\tldr x1, [sp], #16\n"@ + op_text(op));
        reveal_strlit("\tcmp x1, x0\n");
        reveal_strlit("\tcset x0, eq\n");
        reveal_strlit("\tcset x0, lt\n");
        reveal_strlit("\tcset x0, gt\n");
        reveal_strlit("\tcset x0, le\n");
        reveal_strlit("\tcset x0, ge\n");
        reveal_strlit("\tcmp x1, x0\n\tcset x0, eq\n");
        reveal_strlit("\tcmp x1, x0\n\tcset x0, lt\n");
        reveal_strlit("\tcmp x1, x0\n\tcset x0, gt\n");
        reveal_strlit("\tcmp x1, x0\n\tcset x0, le\n");
        reveal_strlit("\tcmp x1, x0\n\tcset x0, ge\n");
    }
}

/// Law (simple nodes): an integer literal loads its decimal value into `x0` with
/// `mov x0, #v`; a variable at stack offset `off` is loaded with
/// `ldr x0, [x29, #off]`, and an assignment to it stores `x0` there with
/// `str x0, [x29, #off]` after generating the value; an unknown variable stops
/// generation; a `return` generates its value and then restores the frame and returns.
pub proof fn law_simple_node_code(st: GState, v: i16, name: Seq<char>, value: Node)
    ensures
        gen_spec(st, Node::IntLit(v)) == Some(st.emit("\tmov x0, #"@ + dec_int(v as int) + "\n"@)),
        st.locals.contains_key(name) ==> gen_spec(st, Node::Variable(name)) == Some(
            st.emit("\tldr x0, [x29, #"@ + dec_int(st.locals[name] as int) + "]\n"@),
        ),
        !st.locals.contains_key(name) ==> gen_spec(st, Node::Variable(name)) is None,
        gen_spec(st, Node::Assign { name, value: Box::new(value) }) matches Some(s) ==> {
            let sv = gen_spec(st, value)->Some_0;
            &&& gen_spec(st, value) is Some
            &&& sv.locals.contains_key(name)
            &&& s == sv.emit("\tstr x0, [x29, #"@ + dec_int(sv.locals[name] as int) + "]\n"@)
        },
        gen_spec(st, Node::Return(Box::new(value))) matches Some(s) ==> {
            &&& gen_spec(st, value) is Some
            &&& s == gen_spec(st, value)->Some_0.emit("\tmov sp, x29\n\tldp x29, x30, [sp], #16\n\tret\n"@)
        },
{
    reveal_strlit("\tldr x0, ");
    reveal_strlit("\tstr x0, ");
    reveal_strlit("[x29, #");
    reveal_strlit("\tldr x0, [x29, #");
    reveal_strlit("\tstr x0, [x29, #");
    reveal_strlit("\tmov sp, x29\n");
    reveal_strlit("\tldp x29, x30, [sp], #16\n\tret\n");
    reveal_strlit("\tmov sp, x29\n\tldp x29, x30, [sp], #16\n\tret\n");
    if st.locals.contains_key(name) {
        let off = st.locals[name] as int;
        assert("\tldr x0, "@ + slot(off) =~= "\tldr x0, [x29, #"@ + dec_int(off) + "]\n"@);
    }
    if let Some(s) = gen_spec(st, Node::Assign { name, value: Box::new(value) }) {
        let sv = gen_spec(st, value)->Some_0;
        let off = sv.locals[name] as int;
        assert("\tstr x0, "@ + slot(off) =~= "\tstr x0, [x29, #"@ + dec_int(off) + "]\n"@);
    }
    if let Some(s) = gen_spec(st, Node::Return(Box::new(value))) {
        let g = gen_spec(st, value)->Some_0;
        assert(g.emit("\tmov sp, x29\n"@).emit("\tldp x29, x30, [sp], #16\n\tret\n"@).buffer
            =~= g.emit("\tmov sp, x29\n\tldp x29, x30, [sp], #16\n\tret\n"@).buffer);
    }
}

/// Law (`if` code): an `if` takes a fresh label number `i`; after its condition it
/// branches with `cbz x0` (on false) to `.L_else_i` when there is an `else` branch
/// and to `.L_end_i` otherwise; with an `else` branch, the `then` branch is followed
/// by `b .L_end_i` and the label `.L_else_i:`; the code ends with `.L_end_i:`.
pub proof fn law_if_code(st: GState, cond: Node, then_branch: Node, else_branch: Option<Box<Node>>)
    ensures
        gen_spec(st, Node::IfElse { cond: Box::new(cond), then_branch: Box::new(then_branch), else_branch }) matches Some(s) ==> {
            let i = dec_nat(st.labels as nat);
            let s1 = gen_spec(GState { labels: st.labels + 1, ..st }, cond)->Some_0;
            let t1 = s1.emit(if else_branch is Some { "\tcbz x0, .L_else_"@ + i + "\n"@ } else { "\tcbz x0, .L_end_"@ + i + "\n"@ });
            let s2 = gen_spec(t1, then_branch)->Some_0;
            &&& gen_spec(GState { labels: st.labels + 1, ..st }, cond) is Some
            &&& gen_spec(t1, then_branch) is Some
            &&& else_branch is None ==> s == s2.emit(".L_end_"@ + i + ":\n"@)
            &&& else_branch is Some ==> {
                let t2 = s2.emit("\tb .L_end_"@ + i + "\n"@ + ".L_else_"@ + i + ":\n"@);
                &&& gen_spec(t2, *else_branch->Some_0) is Some
                &&& s == gen_spec(t2, *else_branch->Some_0)->Some_0.emit(".L_end_"@ + i + ":\n"@)
            }
        },
{
    if let Some(s) = gen_spec(st, Node::IfElse { cond: Box::new(cond), then_branch: Box::new(then_branch), else_branch }) {
        let i = dec_nat(st.labels as nat);
        let s1 = gen_spec(GState { labels: st.labels + 1, ..st }, cond)->Some_0;
        let t1 = s1.emit(if else_branch is Some { "\tcbz x0, .L_else_"@ + i + "\n"@ } else { "\tcbz x0, .L_end_"@ + i + "\n"@ });
        let s2 = gen_spec(t1, then_branch)->Some_0;
        if let Some(eb) = else_branch {
            let b2 = s2.emit("\tb .L_end_"@ + i + "\n"@).emit(".L_else_"@ + i + ":\n"@);
            let t2 = s2.emit("\tb .L_end_"@ + i + "\n"@ + ".L_else_"@ + i + ":\n"@);
            assert(b2.buffer =~= t2.buffer);
            assert(b2 == t2);
        }
    }
}

/// The number of `if` statements that generating `n` meets.
pub open spec fn label_uses(n: Node) -> nat
    decreases n, 0int,
{
    match n {
        Node::Program(ns) => label_uses_from(ns, 0),
        Node::Function { body, .. } => label_uses(*body),
        Node::Return(e) => label_uses(*e),
        Node::Block(ns) => label_uses_from(ns, 0),
        Node::Binary { left, right, .. } => label_uses(*left) + label_uses(*right),
        Node::IfElse { cond, then_branch, else_branch } => 1 + label_uses(*cond) + label_uses(*then_branch)
            + match else_branch {
            Some(eb) => label_uses(*eb),
            None => 0,
        },
        Node::VarDecl { init, .. } => match init {
            Some(e) => label_uses(*e),
            None => 0,
        },
        Node::Assign { value, .. } => label_uses(*value),
        _ => 0,
    }
}

/// The `if` statements in the nodes from the `i`-th on.
pub open spec fn label_uses_from(ns: Seq<Node>, i: int) -> nat
    decreases ns, ns.len() - i,
{
    if i < 0 || i >= ns.len() {
        0
    } else {
        label_uses(ns[i]) + label_uses_from(ns, i + 1)
    }
}

proof fn lemma_seq_labels(st: GState, ns: Seq<Node>, i: int)
    ensures
        seq_gen(st, ns, i) matches Some(s) ==> s.labels == st.labels + label_uses_from(ns, i),
    decreases ns, ns.len() - i,
{
    if 0 <= i < ns.len() {
        lemma_gen_labels(st, ns[i]);
        if let Some(s) = gen_spec(st, ns[i]) {
            lemma_seq_labels(s, ns, i + 1);
        }
    }
}

proof fn lemma_gen_labels(st: GState, n: Node)
    ensures
        gen_spec(st, n) matches Some(s) ==> s.labels == st.labels + label_uses(n),
    decreases n, 0int,
{
    match n {
        Node::Program(ns) => lemma_seq_labels(st.emit(".global _main\n.text\n\n"@), ns, 0),
        Node::Function { name, body, .. } => lemma_gen_labels(
            GState { locals: Map::empty(), stack_offset: -8, ..st }.emit("_"@ + name + ":\n"@)
                .emit("\tstp x29, x30, [sp, #-16]!\n\tmov x29, sp\n"@).emit("\tsub sp, sp, #128\n"@),
            *body,
        ),
        Node::Return(e) => lemma_gen_labels(st, *e),
        Node::Block(ns) => lemma_seq_labels(st, ns, 0),
        Node::Binary { left, right, .. } => {
            lemma_gen_labels(st, *left);
            if let Some(s1) = gen_spec(st, *left) {
                lemma_gen_labels(s1.emit("\tstr x0, [sp, #-16]!\n"@), *right);
            }
        },
        Node::VarDecl { init, .. } => {
            if let Some(e) = init {
                lemma_gen_labels(st, *e);
            }
        },
        Node::Assign { value, .. } => lemma_gen_labels(st, *value),
        Node::IfElse { cond, then_branch, else_branch } => {
            let i = dec_nat(st.labels as nat);
            let jump = if else_branch is Some { "\tcbz x0, .L_else_"@ } else { "\tcbz x0, .L_end_"@ };
            let t0 = GState { labels: st.labels + 1, ..st };
            lemma_gen_labels(t0, *cond);
            if let Some(s1) = gen_spec(t0, *cond) {
                lemma_gen_labels(s1.emit(jump + i + "\n"@), *then_branch);
                if let Some(s2) = gen_spec(s1.emit(jump + i + "\n"@), *then_branch) {
                    if let Some(eb) = else_branch {
                        lemma_gen_labels(s2.emit("\tb .L_end_"@ + i + "\n"@).emit(".L_else_"@ + i + ":\n"@), *eb);
                    }
                }
            }
        },
        _ => {},
    }
}

/// Law (fresh labels): generating a node advances the label counter by exactly
/// the number of `if` statements in it. Each names its labels with the counter's
/// value when it is met (see `gen_spec`) and then advances it by one, so no two
/// share a label number.
pub proof fn law_one_label_per_construct(st: GState, n: Node)
    ensures
        gen_spec(st, n) matches Some(s) ==> s.labels == st.labels + label_uses(n),
{
    lemma_gen_labels(st, n);
}

/// Whether the next free stack offset is at or below the frame pointer and every
/// local variable's 8-byte slot lies above it.
pub open spec fn slots_below(st: GState) -> bool {
    &&& st.stack_offset <= 0
    &&& forall|k: Seq<char>| #[trigger] st.locals.contains_key(k) ==> st.locals[k] >= st.stack_offset + 8
}

proof fn lemma_seq_slots(st: GState, ns: Seq<Node>, i: int)
    ensures
        seq_gen(st, ns, i) matches Some(s) ==> (slots_below(st) ==> slots_below(s)),
    decreases ns, ns.len() - i,
{
    if 0 <= i < ns.len() {
        lemma_gen_slots(st, ns[i]);
        if let Some(s) = gen_spec(st, ns[i]) {
            lemma_seq_slots(s, ns, i + 1);
        }
    }
}

proof fn lemma_gen_slots(st: GState, n: Node)
    ensures
        gen_spec(st, n) matches Some(s) ==> (slots_below(st) ==> slots_below(s)),
        gen_spec(st, n) matches Some(s) ==> (n matches Node::VarDecl { name, .. } ==> {
            &&& s.locals.contains_key(name)
            &&& (slots_below(st) ==> forall|k: Seq<char>| #[trigger] s.locals.contains_key(k) && k != name
                ==> s.locals[k] >= s.locals[name] + 8)
        }),
    decreases n, 0int,
{
    match n {
        Node::Program(ns) => {
            let t = st.emit(".global _main\n.text\n\n"@);
            assert(t.locals == st.locals && t.stack_offset == st.stack_offset);
            lemma_seq_slots(t, ns, 0);
        },
        Node::Function { name, body, .. } => lemma_gen_slots(
            GState { locals: Map::empty(), stack_offset: -8, ..st }.emit("_"@ + name + ":\n"@)
                .emit("\tstp x29, x30, [sp, #-16]!\n\tmov x29, sp\n"@).emit("\tsub sp, sp, #128\n"@),
            *body,
        ),
        Node::Return(e) => lemma_gen_slots(st, *e),
        Node::Block(ns) => lemma_seq_slots(st, ns, 0),
        Node::Binary { left, right, .. } => {
            lemma_gen_slots(st, *left);
            if let Some(s1) = gen_spec(st, *left) {
                lemma_gen_slots(s1.emit("\tstr x0, [sp, #-16]!\n"@), *right);
            }
        },
        Node::VarDecl { init, .. } => {
            if let Some(e) = init {
                lemma_gen_slots(st, *e);
            }
        },
        Node::Assign { value, .. } => lemma_gen_slots(st, *value),
        Node::IfElse { cond, then_branch, else_branch } => {
            let i = dec_nat(st.labels as nat);
            let jump = if else_branch is Some { "\tcbz x0, .L_else_"@ } else { "\tcbz x0, .L_end_"@ };
            let t0 = GState { labels: st.labels + 1, ..st };
            lemma_gen_slots(t0, *cond);
            if let Some(s1) = gen_spec(t0, *cond) {
                lemma_gen_slots(s1.emit(jump + i + "\n"@), *then_branch);
                if let Some(s2) = gen_spec(s1.emit(jump + i + "\n"@), *then_branch) {
                    if let Some(eb) = else_branch {
                        lemma_gen_slots(s2.emit("\tb .L_end_"@ + i + "\n"@).emit(".L_else_"@ + i + ":\n"@), *eb);
                    }
                }
            }
        },
        _ => {},
    }
}

/// Law: stack slots of local variables never overlap. If the next free stack offset
/// is at or below the frame pointer and every local's 8-byte slot lies above it
/// before generating a node, the same holds
/// after it; and a variable declaration gives the new variable a slot that ends at
/// or below the start of every other local's slot.
pub proof fn law_slots_disjoint(st: GState, n: Node)
    ensures
        gen_spec(st, n) matches Some(s) ==> (slots_below(st) ==> slots_below(s)),
        gen_spec(st, n) matches Some(s) ==> (n matches Node::VarDecl { name, .. } ==> {
            &&& s.locals.contains_key(name)
            &&& (slots_below(st) ==> forall|k: Seq<char>| #[trigger] s.locals.contains_key(k) && k != name
                ==> s.locals[k] >= s.locals[name] + 8)
        }),
{
    lemma_gen_slots(st, n);
}

/// Law: generating any node, from any state, keeps the assembly text produced
/// so far as the beginning of the new text, and never hands out fewer labels
/// than before, so that no label number is used twice.
pub proof fn law_generation_appends(st: GState, n: Node)
    ensures
        gen_spec(st, n) matches Some(s) ==> extends(st, s),
{
    lemma_gen_extends(st, n);
}

/// The failure for a node that the generator produces no code for; the contracts of
/// the generating functions exclude such nodes, so it is reached only by callers
/// that do not meet them.
fn unsupported(message: &str) -> (r: Result<(), GeneratorError>)
    ensures
        r is Err,
{
    Err(GeneratorError::GeneralError(String::from_str(message)))
}

/// A generator with an empty buffer and no variables or labels.
pub struct Generator {
    buffer: String,
    local_vars: Vec<(String, i32)>,
    stack_offset: i32,
    label_count: usize,
}

impl Generator {
    /// The abstract state.
    pub closed spec fn state(&self) -> GState {
        GState {
            buffer: self.buffer@,
            locals: owned_table(self.local_vars@),
            stack_offset: self.stack_offset as int,
            labels: self.label_count as int,
        }
    }

    /// A generator with an empty buffer and no variables or labels.
    pub fn new() -> (g: Generator)
        ensures
            g.state() == (GState { buffer: Seq::empty(), locals: Map::empty(), stack_offset: -8, labels: 0 }),
    {
        let g = Generator { buffer: String::new(), local_vars: Vec::new(), stack_offset: -8, label_count: 0 };
        assert(g.state().locals =~= Map::<Seq<char>, i32>::empty());
        g
    }

    /// The assembly text produced so far.
    pub fn assembly(&self) -> (s: &str)
        ensures
            s@ == self.state().buffer,
    {
        self.buffer.as_str()
    }

    /// Appends `s` to the buffer.
    fn emit(&mut self, s: &str)
        ensures
            final(self).state() == old(self).state().emit(s@),
    {
        self.buffer.append(s);
    }

    /// Appends `pre`, the decimal `v`, then `post`.
    fn emit_num(&mut self, pre: &str, v: i64, post: &str)
        ensures
            final(self).state() == old(self).state().emit(pre@ + dec_int(v as int) + post@),
    {
        let ghost b = self.buffer@;
        self.buffer.append(pre);
        push_dec_i64(&mut self.buffer, v);
        self.buffer.append(post);
        assert(self.buffer@ =~= b + (pre@ + dec_int(v as int) + post@));
    }

    /// Appends `pre`, the decimal label index `v`, then `post`.
    fn emit_label(&mut self, pre: &str, v: usize, post: &str)
        ensures
            final(self).state() == old(self).state().emit(pre@ + dec_nat(v as nat) + post@),
    {
        let ghost b = self.buffer@;
        self.buffer.append(pre);
        push_dec_usize(&mut self.buffer, v);
        self.buffer.append(post);
        assert(self.buffer@ =~= b + (pre@ + dec_nat(v as nat) + post@));
    }

    /// Appends a store or load `inst` of `x0` to or from the slot at `off`.
    fn emit_slot(&mut self, inst: &str, off: i32)
        ensures
            final(self).state() == old(self).state().emit(inst@ + slot(off as int)),
    {
        let ghost b = self.buffer@;
        self.buffer.append(inst);
        self.buffer.append("[x29, #");
        push_dec_i64(&mut self.buffer, off as i64);
        self.buffer.append("]\n");
        assert(self.buffer@ =~= b + (inst@ + slot(off as int)));
    }

    /// Generates the nodes of a list, in order.
    #[verifier::loop_isolation(false)]
    fn gen_nodes(&mut self, nodes: Vec<AstNode>) -> (r: Result<(), GeneratorError>)
        requires
            seq_gen(old(self).state(), nodes_view(nodes@), 0) is Some,
        ensures
            r is Ok,
            seq_gen(old(self).state(), nodes_view(nodes@), 0) == Some(final(self).state()),
        decreases nodes, 0int,
    {
        let ghost orig = nodes@;
        let ghost ns = nodes_view(orig);
        let total = nodes.len();
        let mut rest = nodes;
        let mut k: usize = 0;
        while rest.len() > 0
            invariant
                total == orig.len(),
                k + rest@.len() == orig.len(),
                ns == nodes_view(orig),
                rest@ == orig.subrange(k as int, orig.len() as int),
                seq_gen(old(self).state(), ns, 0) == seq_gen(self.state(), ns, k as int),
                seq_gen(self.state(), ns, k as int) is Some,
            decreases rest@.len(),
        {
            let node = rest.remove(0);
            assert(node == orig[k as int]);
            assert(ns[k as int] == node_view(node));
            proof { assert(decreases_to!(nodes => orig[k as int])); }
            match self.generate(node) {
                Ok(_) => {},
                Err(e) => return Err(e),
            }
            k += 1;
        }
        Ok(())
    }

    /// Generates the code of a node into the buffer.
    #[verifier::spinoff_prover]
    #[verifier::rlimit(60)]
    pub fn generate(&mut self, ast: AstNode) -> (r: Result<(), GeneratorError>)
        requires
            gen_spec(old(self).state(), ast@) is Some,
        ensures
            r is Ok,
            gen_spec(old(self).state(), ast@) == Some(final(self).state()),
        decreases ast, 1int,
    {
        match ast {
            AstNode::Programm(nodes) => {
                self.emit(".global _main\n.text\n\n");
                self.gen_nodes(nodes)
            },
            AstNode::FunctionDecl(func_data) => {
                self.local_vars = Vec::new();
                self.stack_offset = -8;
                assert(owned_table(self.local_vars@) =~= Map::<Seq<char>, i32>::empty());
                let ghost b = self.buffer@;
                self.buffer.append("_");
                self.buffer.append(func_data.name.as_str());
                self.buffer.append(":\n");
                assert(self.buffer@ =~= b + ("_"@ + func_data.name@ + ":\n"@));
                self.emit("\tstp x29, x30, [sp, #-16]!\n\tmov x29, sp\n");
                self.emit("\tsub sp, sp, #128\n");
                self.generate(*func_data.body)
            },
            AstNode::ReturnStatement(node) => {
                match self.generate(*node) {
                    Ok(_) => {},
                    Err(e) => return Err(e),
                }
                self.emit("\tmov sp, x29\n");
                self.emit("\tldp x29, x30, [sp], #16\n\tret\n");
                Ok(())
            },
            AstNode::IntLiteralExpr(num) => {
                self.emit_num("\tmov x0, #", num as i64, "\n");
                Ok(())
            },
            AstNode::BlockStatement(nodes) => self.gen_nodes(nodes),
            AstNode::BinaryExpr(bin_data) => {
                match self.generate(*bin_data.left) {
                    Ok(_) => {},
                    Err(e) => return Err(e),
                }
                self.emit("\tstr x0, [sp, #-16]!\n");
                match self.generate(*bin_data.right) {
                    Ok(_) => {},
                    Err(e) => return Err(e),
                }
                self.emit("\tldr x1, [sp], #16\n");
                let ghost before = self.state();
                match bin_data.operator {
                    BinaryOperator::Add => self.emit("\tadd x0, x1, x0\n"),
                    BinaryOperator::Sub => self.emit("\tsub x0, x1, x0\n"),
                    BinaryOperator::Mul => self.emit("\tmul x0, x1, x0\n"),
                    BinaryOperator::Div => self.emit("\tsdiv x0, x1, x0\n"),
                    BinaryOperator::DoubleEqual => {
                        self.emit("\tcmp x1, x0\n");
                        self.emit("\tcset x0, eq\n");
                    },
                    BinaryOperator::LessThan => {
                        self.emit("\tcmp x1, x0\n");
                        self.emit("\tcset x0, lt\n");
                    },
                    BinaryOperator::GreaterThan => {
                        self.emit("\tcmp x1, x0\n");
                        self.emit("\tcset x0, gt\n");
                    },
                    BinaryOperator::LessOrEqual => {
                        self.emit("\tcmp x1, x0\n");
                        self.emit("\tcset x0, le\n");
                    },
                    BinaryOperator::GreaterOrEqual => {
                        self.emit("\tcmp x1, x0\n");
                        self.emit("\tcset x0, ge\n");
                    },
                }
                assert(self.state().buffer =~= before.buffer + op_text(bin_data.operator));
                Ok(())
            },
            AstNode::VarDeclStatement(var_data) => {
                match var_data.initializer {
                    Some(init) => {
                        assert(opt_view(var_data.initializer) == Some(Box::new(node_view(*init))));
                        match self.generate(*init) {
                            Ok(_) => {},
                            Err(e) => return Err(e),
                        }
                    },
                    None => self.emit("\tmov x0, #0\n"),
                }
                let offset = self.stack_offset;
                push_owned_entry(&mut self.local_vars, var_data.name, offset);
                self.stack_offset = self.stack_offset - 8;
                self.emit_slot("\tstr x0, ", offset);
                Ok(())
            },
            AstNode::AssignmentStatement(assign_data) => {
                match self.generate(*assign_data.value) {
                    Ok(_) => {},
                    Err(e) => return Err(e),
                }
                let offset = match find_owned_key(&self.local_vars, assign_data.name.as_str()) {
                    Some(j) => self.local_vars[j].1,
                    None => return unsupported("Undefined variable in code generator"),
                };
                self.emit_slot("\tstr x0, ", offset);
                Ok(())
            },
            AstNode::VariableExpr(name) => {
                let offset = match find_owned_key(&self.local_vars, name.as_str()) {
                    Some(j) => self.local_vars[j].1,
                    None => return unsupported("Undefined variable in code generator"),
                };
                self.emit_slot("\tldr x0, ", offset);
                Ok(())
            },
            AstNode::IfElseStatement(data) => {
                let label_idx = self.label_count;
                self.label_count = self.label_count + 1;
                match self.generate(*data.condition_expr) {
                    Ok(_) => {},
                    Err(e) => return Err(e),
                }
                if data.else_branch.is_some() {
                    self.emit_label("\tcbz x0, .L_else_", label_idx, "\n");
                } else {
                    self.emit_label("\tcbz x0, .L_end_", label_idx, "\n");
                }
                match self.generate(*data.if_branch) {
                    Ok(_) => {},
                    Err(e) => return Err(e),
                }
                match data.else_branch {
                    Some(else_node) => {
                        assert(opt_view(data.else_branch) == Some(Box::new(node_view(*else_node))));
                        self.emit_label("\tb .L_end_", label_idx, "\n");
                        self.emit_label(".L_else_", label_idx, ":\n");
                        match self.generate(*else_node) {
                            Ok(_) => {},
                            Err(e) => return Err(e),
                        }
                    },
                    None => {},
                }
                self.emit_label(".L_end_", label_idx, ":\n");
                Ok(())
            },
            _ => unsupported("Node not supported by the code generator"),
        }
    }
}

} // verus!
