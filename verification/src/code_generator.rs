//! Code generation: ARM64 assembly for Apple platforms, written into a text buffer.
//!
//! The generator keeps the stack slot and type of each local variable, the
//! offset of the next stack slot, a counter for fresh labels, and the field
//! layouts of the structs declared so far. Generation fails (in the sense of a
//! program that would stop) exactly where its specification gives `None`: an
//! unknown variable, struct or field, an access that does not fit the type, an
//! arithmetic overflow of a size or an offset, or struct layouts that refer to
//! each other without end.

use vstd::prelude::*;
use crate::ast::{
    copy_type, fields_view, node_view, nodes_view, opt_view, ArrayIndexData, AssignmentData, AstNode, BinaryExpData,
    BinaryOperator, BlockStatementData, CallData, Field, FunctionDeclData, IfElseData, MemberAccessData, Node, Parameter,
    ReturnData, StructDeclData, Ty, Type, VarDeclData, WhileLoopData,
};
use crate::assoc::{assoc, find_key, pairs_view, push_entry, table};
use crate::literal::law_dec_nat_injective;
use crate::text::{dec_int, dec_nat, push_dec_i64, push_dec_usize, str_equals};

verus! {

/// A failure while producing an executable.
#[derive(Debug, PartialEq)]
pub enum GeneratorError {
    GeneralError(String),
}

/// A field of a struct layout: its name, and its offset and type.
pub type SlotSpec = (Seq<char>, (int, Ty));

/// The abstract generator state.
pub struct GState {
    /// The assembly text produced so far.
    pub buffer: Seq<char>,
    /// Stack offset (from the frame pointer) and type of each local variable.
    pub locals: Map<Seq<char>, (int, Ty)>,
    /// The offset of the next stack slot.
    pub stack_offset: int,
    /// The number of labels handed out.
    pub labels: int,
    /// The struct layouts in declaration order; a later one of the same name overrides.
    pub layouts: Seq<(Seq<char>, Seq<SlotSpec>)>,
}

impl GState {
    /// The state with `s` appended to the buffer.
    pub open spec fn emit(self, s: Seq<char>) -> GState {
        GState { buffer: self.buffer + s, ..self }
    }

    /// The state with `k` recorded as a local at `off` with type `t`.
    pub open spec fn bind(self, k: Seq<char>, off: int, t: Ty) -> GState {
        GState { locals: self.locals.insert(k, (off, t)), ..self }
    }

    /// The state with the next stack slot offset set to `o`.
    pub open spec fn at_offset(self, o: int) -> GState {
        GState { stack_offset: o, ..self }
    }

    /// The state with one more label handed out.
    pub open spec fn next_label(self) -> GState {
        GState { labels: self.labels + 1, ..self }
    }
}

/// Whether a value fits in an `i32`.
pub open spec fn fits_i32(v: int) -> bool {
    i32::MIN <= v <= i32::MAX
}

/// The value of the last entry named `k` in a list of named entries, if any.
pub open spec fn named<V>(es: Seq<(Seq<char>, V)>, k: Seq<char>) -> Option<V> {
    if assoc(es).contains_key(k) {
        Some(assoc(es)[k])
    } else {
        None
    }
}

/// Whether a field named `k` occurs among the fields from the `i`-th on.
pub open spec fn named_from(fs: Seq<SlotSpec>, i: int, k: Seq<char>) -> bool {
    exists|j: int| i <= j < fs.len() && #[trigger] fs[j].0 == k
}

/// The nesting depth of array types.
pub open spec fn ty_depth(t: Ty) -> nat
    decreases t,
{
    match t {
        Ty::Array(inner) => 1 + ty_depth(*inner),
        _ => 0,
    }
}

/// The size of a type in bytes, with `fuel` bounding the nesting of struct lookups.
/// A struct's size is the sum of the sizes of its distinct fields (the last of
/// equally named fields counts); an array holds ten elements; an unknown struct
/// takes eight bytes. `None` when a size overflows `i32` or the fuel runs out.
pub open spec fn size_of(lay: Seq<(Seq<char>, Seq<SlotSpec>)>, t: Ty, fuel: nat) -> Option<int>
    decreases fuel, 0int, ty_depth(t),
{
    match t {
        Ty::Struct(n) => match named(lay, n) {
            None => Some(8),
            Some(fs) => if fuel == 0 {
                None
            } else {
                fields_size(lay, fs, 0, (fuel - 1) as nat)
            },
        },
        Ty::Array(inner) => match size_of(lay, *inner, fuel) {
            Some(s) => if fits_i32(s * 10) {
                Some(s * 10)
            } else {
                None
            },
            None => None,
        },
        _ => Some(8),
    }
}

/// The sum of the sizes of the fields from the `i`-th on that no later field shadows.
pub open spec fn fields_size(lay: Seq<(Seq<char>, Seq<SlotSpec>)>, fs: Seq<SlotSpec>, i: int, fuel: nat) -> Option<int>
    decreases fuel, fs.len() - i + 1, 0int,
{
    if i < 0 || i >= fs.len() {
        Some(0)
    } else {
        match fields_size(lay, fs, i + 1, fuel) {
            None => None,
            Some(rest) => if named_from(fs, i + 1, fs[i].0) {
                Some(rest)
            } else {
                match size_of(lay, fs[i].1.1, fuel) {
                    None => None,
                    Some(s) => if fits_i32(s + rest) {
                        Some(s + rest)
                    } else {
                        None
                    },
                }
            },
        }
    }
}

/// The size of a type with the layouts of `st`; enough fuel for every chain of
/// struct lookups that visits no struct twice.
pub open spec fn size_in(st: GState, t: Ty) -> Option<int> {
    size_of(st.layouts, t, st.layouts.len() + 1)
}

/// The static type of an expression as the generator sees it; `None` where it stops.
pub open spec fn expr_type(st: GState, n: Node) -> Option<Ty>
    decreases n,
{
    match n {
        Node::IntLit(_) => Some(Ty::Int),
        Node::BoolLit(_) => Some(Ty::Bool),
        Node::FloatLit(_) => Some(Ty::Float),
        Node::StringLit(_) => Some(Ty::Str),
        Node::Variable(name) => if st.locals.contains_key(name) {
            Some(st.locals[name].1)
        } else {
            None
        },
        Node::Member { object, member, .. } => match expr_type(st, *object) {
            None => None,
            Some(ot) => match ot {
                Ty::Struct(sn) => match named(st.layouts, sn) {
                    Some(fs) => match named(fs, member) {
                        Some(slot) => Some(slot.1),
                        None => Some(Ty::Int),
                    },
                    None => Some(Ty::Int),
                },
                _ => Some(Ty::Int),
            },
        },
        Node::Binary { left, op, .. } => if op == BinaryOperator::Add || op == BinaryOperator::Sub
            || op == BinaryOperator::Mul || op == BinaryOperator::Div {
            expr_type(st, *left)
        } else {
            Some(Ty::Bool)
        },
        Node::Index { array, .. } => match expr_type(st, *array) {
            Some(Ty::Array(inner)) => Some(*inner),
            _ => None,
        },
        _ => Some(Ty::Int),
    }
}

/// `off` as an immediate: `#` and the number.
pub open spec fn imm(off: int) -> Seq<char> {
    "#"@ + dec_int(off)
}

/// The instructions computing a binary operation on integers in `x1` and `x0`.
pub open spec fn int_op_text(op: BinaryOperator) -> Seq<char> {
    match op {
        BinaryOperator::Add => "\tadd x0, x1, x0\n"@,
        BinaryOperator::Sub => "\tsub x0, x1, x0\n"@,
        BinaryOperator::Mul => "\tmul x0, x1, x0\n"@,
        BinaryOperator::Div => "\tsdiv x0, x1, x0\n"@,
        BinaryOperator::DoubleEqual => "\tcmp x1, x0\n\tcset x0, eq\n"@,
        BinaryOperator::LessThan => "\tcmp x1, x0\n\tcset x0, lt\n"@,
        BinaryOperator::GreaterThan => "\tcmp x1, x0\n\tcset x0, gt\n"@,
        BinaryOperator::LessOrEqual => "\tcmp x1, x0\n\tcset x0, le\n"@,
        BinaryOperator::GreaterOrEqual => "\tcmp x1, x0\n\tcset x0, ge\n"@,
    }
}

/// The instructions computing a binary operation on floats in `d1` and `d0`.
pub open spec fn float_op_text(op: BinaryOperator) -> Seq<char> {
    match op {
        BinaryOperator::Add => "\tfadd d0, d1, d0\n"@,
        BinaryOperator::Sub => "\tfsub d0, d1, d0\n"@,
        BinaryOperator::Mul => "\tfmul d0, d1, d0\n"@,
        BinaryOperator::Div => "\tfdiv d0, d1, d0\n"@,
        BinaryOperator::DoubleEqual => "\tfcmp d1, d0\n\tcset x0, eq\n"@,
        BinaryOperator::LessThan => "\tfcmp d1, d0\n\tcset x0, lt\n"@,
        BinaryOperator::GreaterThan => "\tfcmp d1, d0\n\tcset x0, gt\n"@,
        BinaryOperator::LessOrEqual => "\tfcmp d1, d0\n\tcset x0, le\n"@,
        BinaryOperator::GreaterOrEqual => "\tfcmp d1, d0\n\tcset x0, ge\n"@,
    }
}

/// A fresh label index, or `None` when the counter is exhausted.
pub open spec fn label_ok(st: GState) -> bool {
    st.labels + 1 <= usize::MAX
}

/// The function epilogue.
pub open spec fn epilogue() -> Seq<char> {
    "\tmov sp, x29\n"@ + "\tldp x29, x30, [sp], #16\n\tret\n"@
}

/// Generating the code of the parameters from the `i`-th on: each is stored in
/// a new stack slot from its argument register.
pub open spec fn params_gen(st: GState, ps: Seq<Field>, i: int) -> Option<GState>
    decreases ps.len() - i,
{
    if i < 0 || i >= ps.len() {
        Some(st)
    } else {
        let off = st.stack_offset;
        let reg = if ps[i].typ == Ty::Float { "\tstr d"@ } else { "\tstr x"@ };
        let st1 = st.emit(reg).emit(dec_nat(i as nat)).emit(", [x29, "@).emit(imm(off)).emit("]\n"@)
            .bind(ps[i].name, off, ps[i].typ);
        if !fits_i32(off - 8) {
            None
        } else {
            params_gen(st1.at_offset(off - 8), ps, i + 1)
        }
    }
}

/// The layout of struct fields from the `i`-th on, starting at offset `off`.
pub open spec fn layout_gen(st: GState, fs: Seq<Field>, i: int, off: int, acc: Seq<SlotSpec>) -> Option<Seq<SlotSpec>>
    decreases fs.len() - i,
{
    if i < 0 || i >= fs.len() {
        Some(acc)
    } else {
        match size_in(st, fs[i].typ) {
            None => None,
            Some(size) => if !fits_i32(off + size) {
                None
            } else {
                layout_gen(st, fs, i + 1, off + size, acc.push((fs[i].name, (off, fs[i].typ))))
            },
        }
    }
}

/// Pushing the call arguments from the `i`-th on.
pub open spec fn args_gen(st: GState, args: Seq<Node>, i: int) -> Option<GState>
    decreases args, args.len() - i,
{
    if i < 0 || i >= args.len() {
        Some(st)
    } else {
        match expr_type(st, args[i]) {
            None => None,
            Some(t) => match gen_spec(st, args[i]) {
                None => None,
                Some(s) => args_gen(
                    s.emit(if t == Ty::Float { "\tstr d0, [sp, #-16]!\n"@ } else { "\tstr x0, [sp, #-16]!\n"@ }),
                    args,
                    i + 1,
                ),
            },
        }
    }
}

/// Popping `k` arguments into the registers `x(k-1)` down to `x0`.
pub open spec fn pops_gen(st: GState, k: int) -> GState
    decreases k,
{
    if k <= 0 {
        st
    } else {
        pops_gen(st.emit("\tldr x"@).emit(dec_nat((k - 1) as nat)).emit(", [sp], #16\n"@), k - 1)
    }
}

/// Generating the nodes from the `i`-th on, in order.
pub open spec fn seq_gen(st: GState, ns: Seq<Node>, i: int) -> Option<GState>
    decreases ns, ns.len() - i,
{
    if i < 0 || i >= ns.len() {
        Some(st)
    } else {
        match gen_spec(st, ns[i]) {
            None => None,
            Some(s) => seq_gen(s, ns, i + 1),
        }
    }
}

/// The layout of struct `sn`'s field `member`, if both exist.
pub open spec fn member_slot(st: GState, sn: Seq<char>, member: Seq<char>) -> Option<(int, Ty)> {
    match named(st.layouts, sn) {
        None => None,
        Some(fs) => named(fs, member),
    }
}

/// Generating the code of a node: the state afterwards, or `None` where generation stops.
pub open spec fn gen_spec(st: GState, n: Node) -> Option<GState>
    decreases n, 0int,
{
    match n {
        Node::Program(ns) => seq_gen(st.emit(".global _main\n.text\n\n"@), ns, 0),
        Node::Function { name, params, body, .. } => {
            let st1 = GState { locals: Map::empty(), stack_offset: -8, ..st }.emit("_"@).emit(name)
                .emit(":\n"@).emit("\tstp x29, x30, [sp, #-16]!\n\tmov x29, sp\n"@).emit("\tsub sp, sp, #256\n"@);
            match params_gen(st1, params, 0) {
                None => None,
                Some(st2) => gen_spec(st2, *body),
            }
        },
        Node::Return { value, .. } => match value {
            Some(v) => match gen_spec(st, *v) {
                None => None,
                Some(s) => Some(s.emit("\tmov sp, x29\n"@).emit("\tldp x29, x30, [sp], #16\n\tret\n"@)),
            },
            None => Some(st.emit("\tmov x0, #0\n"@).emit("\tmov sp, x29\n"@).emit("\tldp x29, x30, [sp], #16\n\tret\n"@)),
        },
        Node::IntLit(v) => Some(st.emit("\tmov x0, #"@).emit(dec_int(v as int)).emit("\n"@)),
        Node::BoolLit(b) => Some(st.emit(if b { "\tmov x0, #1\n"@ } else { "\tmov x0, #0\n"@ })),
        Node::FloatLit(text) => if !label_ok(st) {
            None
        } else {
            let i = dec_nat(st.labels as nat);
            Some(st.next_label().emit("\t.section __TEXT,__const\n"@).emit("\t.align 3\n"@).emit("L_float_"@).emit(i)
                .emit(":\n"@).emit("\t.double "@).emit(text).emit("\n"@).emit("\t.text\n"@).emit("\tadrp x16, L_float_"@)
                .emit(i).emit("@PAGE\n"@).emit("\tldr d0, [x16, L_float_"@).emit(i).emit("@PAGEOFF]\n"@))
        },
        Node::StringLit(v) => if !label_ok(st) {
            None
        } else {
            let i = dec_nat(st.labels as nat);
            Some(st.next_label().emit("\t.section __TEXT,__cstring\n"@).emit("L_str_"@).emit(i).emit(":\n"@)
                .emit("\t.asciz \""@).emit(v).emit("\"\n"@).emit("\t.text\n"@).emit("\tadrp x0, L_str_"@).emit(i)
                .emit("@PAGE\n"@).emit("\tadd x0, x0, L_str_"@).emit(i).emit("@PAGEOFF\n"@))
        },
        Node::Block { statements, .. } => seq_gen(st, statements, 0),
        Node::Binary { left, right, op, .. } => match expr_type(st, *left) {
            None => None,
            Some(lt) => {
                let float = lt == Ty::Float;
                match gen_spec(st, *left) {
                    None => None,
                    Some(s1) => match gen_spec(
                        s1.emit(if float { "\tstr d0, [sp, #-16]!\n"@ } else { "\tstr x0, [sp, #-16]!\n"@ }),
                        *right,
                    ) {
                        None => None,
                        Some(s2) => Some(s2.emit(if float { "\tldr d1, [sp], #16\n"@ } else { "\tldr x1, [sp], #16\n"@ })
                            .emit(if float { float_op_text(op) } else { int_op_text(op) })),
                    },
                }
            },
        },
        Node::VarDecl { name, typ, init, .. } => {
            let float = typ == Ty::Float;
            let s1 = match init {
                Some(e) => gen_spec(st, *e),
                None => Some(st.emit(if float { "\tfmov d0, #0.0\n"@ } else { "\tmov x0, #0\n"@ })),
            };
            match s1 {
                None => None,
                Some(s1) => match size_in(s1, typ) {
                    None => None,
                    Some(size) => {
                        let off = s1.stack_offset - size;
                        if !fits_i32(off) || !fits_i32(off - size) {
                            None
                        } else {
                            let s2 = s1.bind(name, off, typ).at_offset(off - size);
                            if float {
                                Some(s2.emit("\tstr d0, [x29, "@).emit(imm(off)).emit("]\n"@))
                            } else if typ is Struct || typ is Array {
                                Some(s2)
                            } else {
                                Some(s2.emit("\tstr x0, [x29, "@).emit(imm(off)).emit("]\n"@))
                            }
                        }
                    },
                },
            }
        },
        Node::Variable(name) => if !st.locals.contains_key(name) {
            None
        } else {
            let (off, t) = st.locals[name];
            if t is Struct || t is Array {
                Some(st.emit("\tadd x0, x29, "@).emit(imm(off)).emit("\n"@))
            } else if t == Ty::Float {
                Some(st.emit("\tldr d0, [x29, "@).emit(imm(off)).emit("]\n"@))
            } else {
                Some(st.emit("\tldr x0, [x29, "@).emit(imm(off)).emit("]\n"@))
            }
        },
        Node::Assign { target, value, .. } => match *target {
            Node::Variable(name) => if !st.locals.contains_key(name) {
                None
            } else {
                let (off, t) = st.locals[name];
                match gen_spec(st, *value) {
                    None => None,
                    Some(s) => Some(s.emit(if t == Ty::Float { "\tstr d0, [x29, "@ } else { "\tstr x0, [x29, "@ })
                        .emit(imm(off)).emit("]\n"@)),
                }
            },
            Node::Member { object, member, .. } => match expr_type(st, *object) {
                Some(Ty::Struct(sn)) => match member_slot(st, sn, member) {
                    None => None,
                    Some((off, ft)) => match gen_spec(st, *object) {
                        None => None,
                        Some(s1) => match gen_spec(s1.emit("\tstr x0, [sp, #-16]!\n"@), *value) {
                            None => None,
                            Some(s2) => Some(s2.emit("\tldr x1, [sp], #16\n"@)
                                .emit(if ft == Ty::Float { "\tstr d0, [x1, "@ } else { "\tstr x0, [x1, "@ })
                                .emit(imm(off)).emit("]\n"@)),
                        },
                    },
                },
                _ => None,
            },
            Node::Index { array, index, .. } => match expr_type(st, *array) {
                Some(Ty::Array(inner)) => match gen_spec(st, *array) {
                    None => None,
                    Some(s1) => match gen_spec(s1.emit("\tstr x0, [sp, #-16]!\n"@), *index) {
                        None => None,
                        Some(s2) => match gen_spec(
                            s2.emit("\tldr x1, [sp], #16\n"@).emit("\tmov x2, #8\n"@).emit("\tmul x0, x0, x2\n"@)
                                .emit("\tadd x0, x1, x0\n"@).emit("\tstr x0, [sp, #-16]!\n"@),
                            *value,
                        ) {
                            None => None,
                            Some(s3) => Some(s3.emit("\tldr x1, [sp], #16\n"@)
                                .emit(if *inner == Ty::Float { "\tstr d0, [x1]\n"@ } else { "\tstr x0, [x1]\n"@ })),
                        },
                    },
                },
                _ => None,
            },
            _ => None,
        },
        Node::IfElse { cond, then_branch, else_branch, .. } => if !label_ok(st) {
            None
        } else {
            let i = dec_nat(st.labels as nat);
            match gen_spec(st.next_label(), *cond) {
                None => None,
                Some(s1) => {
                    let target = if else_branch is Some { ".L_else_"@ } else { ".L_end_"@ };
                    match gen_spec(s1.emit("\tcbz x0, "@).emit(target).emit(i).emit("\n"@), *then_branch) {
                        None => None,
                        Some(s2) => {
                            let s3 = match else_branch {
                                Some(eb) => gen_spec(
                                    s2.emit("\tb .L_end_"@).emit(i).emit("\n"@).emit(".L_else_"@).emit(i).emit(":\n"@),
                                    *eb,
                                ),
                                None => Some(s2),
                            };
                            match s3 {
                                None => None,
                                Some(s3) => Some(s3.emit(".L_end_"@).emit(i).emit(":\n"@)),
                            }
                        },
                    }
                },
            }
        },
        Node::Call { name, args, .. } => match args_gen(st, args, 0) {
            None => None,
            Some(s) => Some(pops_gen(s, args.len() as int).emit("\tbl _"@).emit(name).emit("\n"@)),
        },
        Node::StructDecl { name, fields, .. } => match layout_gen(st, fields, 0, 0, Seq::empty()) {
            None => None,
            Some(l) => Some(GState { layouts: st.layouts.push((name, l)), ..st }),
        },
        Node::Member { object, member, .. } => match expr_type(st, *object) {
            Some(Ty::Struct(sn)) => match member_slot(st, sn, member) {
                None => None,
                Some((off, ft)) => match gen_spec(st, *object) {
                    None => None,
                    Some(s) => Some(s.emit(if ft == Ty::Float { "\tldr d0, [x0, "@ } else { "\tldr x0, [x0, "@ })
                        .emit(imm(off)).emit("]\n"@)),
                },
            },
            _ => None,
        },
        Node::Index { array, index, .. } => match expr_type(st, *array) {
            Some(Ty::Array(inner)) => match gen_spec(st, *array) {
                None => None,
                Some(s1) => match gen_spec(s1.emit("\tstr x0, [sp, #-16]!\n"@), *index) {
                    None => None,
                    Some(s2) => Some(s2.emit("\tldr x1, [sp], #16\n"@).emit("\tmov x2, #8\n"@).emit("\tmul x0, x0, x2\n"@)
                        .emit("\tadd x0, x1, x0\n"@)
                        .emit(if *inner == Ty::Float { "\tldr d0, [x0]\n"@ } else { "\tldr x0, [x0]\n"@ })),
                },
            },
            _ => None,
        },
        Node::While { cond, body, .. } => if !label_ok(st) {
            None
        } else {
            let i = dec_nat(st.labels as nat);
            match gen_spec(st.next_label().emit(".L_while_start_"@).emit(i).emit(":\n"@), *cond) {
                None => None,
                Some(s1) => match gen_spec(s1.emit("\tcbz x0, .L_while_end_"@).emit(i).emit("\n"@), *body) {
                    None => None,
                    Some(s2) => Some(s2.emit("\tb .L_while_start_"@).emit(i).emit("\n"@).emit(".L_while_end_"@).emit(i)
                        .emit(":\n"@)),
                },
            }
        },
        Node::Print(e) => match expr_type(st, *e) {
            None => None,
            Some(t) => match gen_spec(st, *e) {
                None => None,
                Some(s1) => if !label_ok(s1) {
                    None
                } else {
                    let i = dec_nat(s1.labels as nat);
                    let fmt = if t == Ty::Str { "%s\\n"@ } else if t == Ty::Float { "%f\\n"@ } else { "%d\\n"@ };
                    Some(s1.next_label().emit("\t.section __TEXT,__cstring\n"@).emit("L_fmt_"@).emit(i).emit(":\n"@)
                        .emit("\t.asciz \""@).emit(fmt).emit("\"\n"@).emit("\t.text\n"@).emit("\tsub sp, sp, #16\n"@)
                        .emit(if t == Ty::Float { "\tstr d0, [sp]\n"@ } else { "\tstr x0, [sp]\n"@ })
                        .emit("\tadrp x0, L_fmt_"@).emit(i).emit("@PAGE\n"@).emit("\tadd x0, x0, L_fmt_"@).emit(i)
                        .emit("@PAGEOFF\n"@).emit("\tbl _printf\n"@).emit("\tadd sp, sp, #16\n"@))
                },
            },
        },
    }
}

/// Whether `b` begins with the whole text of `a` and has handed out at least as many labels.
pub open spec fn extends(a: GState, b: GState) -> bool {
    &&& a.buffer.len() <= b.buffer.len()
    &&& forall|k: int| 0 <= k < a.buffer.len() ==> #[trigger] b.buffer[k] == a.buffer[k]
    &&& a.labels <= b.labels
}

proof fn lemma_params_extends(st: GState, ps: Seq<Field>, i: int)
    ensures
        params_gen(st, ps, i) matches Some(s) ==> extends(st, s),
    decreases ps.len() - i,
{
    if 0 <= i < ps.len() {
        let off = st.stack_offset;
        let reg = if ps[i].typ == Ty::Float { "\tstr d"@ } else { "\tstr x"@ };
        let st1 = st.emit(reg).emit(dec_nat(i as nat)).emit(", [x29, "@).emit(imm(off)).emit("]\n"@)
            .bind(ps[i].name, off, ps[i].typ);
        lemma_params_extends(st1.at_offset(off - 8), ps, i + 1);
    }
}

proof fn lemma_pops_extends(st: GState, k: int)
    ensures
        extends(st, pops_gen(st, k)),
    decreases k,
{
    if k > 0 {
        lemma_pops_extends(st.emit("\tldr x"@).emit(dec_nat((k - 1) as nat)).emit(", [sp], #16\n"@), k - 1);
    }
}

proof fn lemma_seq_extends(st: GState, ns: Seq<Node>, i: int)
    ensures
        seq_gen(st, ns, i) matches Some(s) ==> extends(st, s),
    decreases ns, ns.len() - i,
{
    if 0 <= i < ns.len() {
        lemma_gen_extends(st, ns[i]);
        if let Some(s) = gen_spec(st, ns[i]) {
            lemma_seq_extends(s, ns, i + 1);
        }
    }
}

proof fn lemma_args_extends(st: GState, args: Seq<Node>, i: int)
    ensures
        args_gen(st, args, i) matches Some(s) ==> extends(st, s),
    decreases args, args.len() - i,
{
    if 0 <= i < args.len() {
        if let Some(t) = expr_type(st, args[i]) {
            lemma_gen_extends(st, args[i]);
            if let Some(s) = gen_spec(st, args[i]) {
                let push = if t == Ty::Float { "\tstr d0, [sp, #-16]!\n"@ } else { "\tstr x0, [sp, #-16]!\n"@ };
                lemma_args_extends(s.emit(push), args, i + 1);
            }
        }
    }
}

#[verifier::rlimit(40)]
proof fn lemma_gen_extends(st: GState, n: Node)
    ensures
        gen_spec(st, n) matches Some(s) ==> extends(st, s),
    decreases n, 0int,
{
    match n {
        Node::Program(ns) => lemma_seq_extends(st.emit(".global _main\n.text\n\n"@), ns, 0),
        Node::Function { name, params, body, .. } => {
            let st1 = GState { locals: Map::empty(), stack_offset: -8, ..st }.emit("_"@).emit(name)
                .emit(":\n"@).emit("\tstp x29, x30, [sp, #-16]!\n\tmov x29, sp\n"@).emit("\tsub sp, sp, #256\n"@);
            lemma_params_extends(st1, params, 0);
            if let Some(st2) = params_gen(st1, params, 0) {
                lemma_gen_extends(st2, *body);
            }
        },
        Node::Return { value, .. } => {
            if let Some(v) = value {
                lemma_gen_extends(st, *v);
            }
        },
        Node::Block { statements, .. } => lemma_seq_extends(st, statements, 0),
        Node::Binary { left, right, .. } => {
            lemma_gen_extends(st, *left);
            if let Some(s1) = gen_spec(st, *left) {
                lemma_gen_extends(s1.emit("\tstr d0, [sp, #-16]!\n"@), *right);
                lemma_gen_extends(s1.emit("\tstr x0, [sp, #-16]!\n"@), *right);
            }
        },
        Node::VarDecl { init, .. } => {
            if let Some(e) = init {
                lemma_gen_extends(st, *e);
            }
        },
        Node::Assign { target, value, .. } => match *target {
            Node::Variable(_) => lemma_gen_extends(st, *value),
            Node::Member { object, .. } => {
                lemma_gen_extends(st, *object);
                if let Some(s1) = gen_spec(st, *object) {
                    lemma_gen_extends(s1.emit("\tstr x0, [sp, #-16]!\n"@), *value);
                }
            },
            Node::Index { array, index, .. } => {
                lemma_gen_extends(st, *array);
                if let Some(s1) = gen_spec(st, *array) {
                    lemma_gen_extends(s1.emit("\tstr x0, [sp, #-16]!\n"@), *index);
                    if let Some(s2) = gen_spec(s1.emit("\tstr x0, [sp, #-16]!\n"@), *index) {
                        lemma_gen_extends(
                            s2.emit("\tldr x1, [sp], #16\n"@).emit("\tmov x2, #8\n"@).emit("\tmul x0, x0, x2\n"@)
                                .emit("\tadd x0, x1, x0\n"@).emit("\tstr x0, [sp, #-16]!\n"@),
                            *value,
                        );
                    }
                }
            },
            _ => {},
        },
        Node::IfElse { cond, then_branch, else_branch, .. } => {
            let i = dec_nat(st.labels as nat);
            lemma_gen_extends(st.next_label(), *cond);
            if let Some(s1) = gen_spec(st.next_label(), *cond) {
                let target = if else_branch is Some { ".L_else_"@ } else { ".L_end_"@ };
                let t1 = s1.emit("\tcbz x0, "@).emit(target).emit(i).emit("\n"@);
                lemma_gen_extends(t1, *then_branch);
                if let Some(s2) = gen_spec(t1, *then_branch) {
                    if let Some(eb) = else_branch {
                        lemma_gen_extends(
                            s2.emit("\tb .L_end_"@).emit(i).emit("\n"@).emit(".L_else_"@).emit(i).emit(":\n"@),
                            *eb,
                        );
                    }
                }
            }
        },
        Node::Call { args, .. } => {
            lemma_args_extends(st, args, 0);
            if let Some(s) = args_gen(st, args, 0) {
                lemma_pops_extends(s, args.len() as int);
            }
        },
        Node::Member { object, .. } => lemma_gen_extends(st, *object),
        Node::Index { array, index, .. } => {
            lemma_gen_extends(st, *array);
            if let Some(s1) = gen_spec(st, *array) {
                lemma_gen_extends(s1.emit("\tstr x0, [sp, #-16]!\n"@), *index);
            }
        },
        Node::While { cond, body, .. } => {
            let i = dec_nat(st.labels as nat);
            let t0 = st.next_label().emit(".L_while_start_"@).emit(i).emit(":\n"@);
            lemma_gen_extends(t0, *cond);
            if let Some(s1) = gen_spec(t0, *cond) {
                lemma_gen_extends(s1.emit("\tcbz x0, .L_while_end_"@).emit(i).emit("\n"@), *body);
            }
        },
        Node::Print(e) => lemma_gen_extends(st, *e),
        _ => {},
    }
}

/// Law: generating any node, from any state, keeps the assembly text produced
/// so far as the beginning of the new text, and never hands out fewer labels
/// than before, so that no label number is used twice.
pub proof fn law_generation_appends(st: GState, n: Node)
    ensures
        gen_spec(st, n) matches Some(s) ==> extends(st, s),
{
    lemma_gen_extends(st, n);
}

/// The number of label-taking constructs (`if`, `while`, float and string
/// literals, `print`) that generating `n` meets, each counted once.
pub open spec fn label_uses(n: Node) -> nat
    decreases n, 0int,
{
    match n {
        Node::Program(ns) => label_uses_from(ns, 0),
        Node::Function { body, .. } => label_uses(*body),
        Node::Return { value, .. } => match value {
            Some(v) => label_uses(*v),
            None => 0,
        },
        Node::Block { statements, .. } => label_uses_from(statements, 0),
        Node::Binary { left, right, .. } => label_uses(*left) + label_uses(*right),
        Node::IfElse { cond, then_branch, else_branch, .. } => 1 + label_uses(*cond) + label_uses(*then_branch)
            + match else_branch {
            Some(eb) => label_uses(*eb),
            None => 0,
        },
        Node::VarDecl { init, .. } => match init {
            Some(e) => label_uses(*e),
            None => 0,
        },
        Node::Assign { target, value, .. } => match *target {
            Node::Variable(_) => label_uses(*value),
            Node::Member { object, .. } => label_uses(*object) + label_uses(*value),
            Node::Index { array, index, .. } => label_uses(*array) + label_uses(*index) + label_uses(*value),
            _ => 0,
        },
        Node::Call { args, .. } => label_uses_from(args, 0),
        Node::FloatLit(_) => 1,
        Node::StringLit(_) => 1,
        Node::Member { object, .. } => label_uses(*object),
        Node::Index { array, index, .. } => label_uses(*array) + label_uses(*index),
        Node::While { cond, body, .. } => 1 + label_uses(*cond) + label_uses(*body),
        Node::Print(e) => 1 + label_uses(*e),
        _ => 0,
    }
}

/// The label-taking constructs in the nodes from the `i`-th on.
pub open spec fn label_uses_from(ns: Seq<Node>, i: int) -> nat
    decreases ns, ns.len() - i,
{
    if i < 0 || i >= ns.len() {
        0
    } else {
        label_uses(ns[i]) + label_uses_from(ns, i + 1)
    }
}

proof fn lemma_params_labels(st: GState, ps: Seq<Field>, i: int)
    ensures
        params_gen(st, ps, i) matches Some(s) ==> s.labels == st.labels,
    decreases ps.len() - i,
{
    if 0 <= i < ps.len() {
        let off = st.stack_offset;
        let reg = if ps[i].typ == Ty::Float { "\tstr d"@ } else { "\tstr x"@ };
        let st1 = st.emit(reg).emit(dec_nat(i as nat)).emit(", [x29, "@).emit(imm(off)).emit("]\n"@)
            .bind(ps[i].name, off, ps[i].typ);
        lemma_params_labels(st1.at_offset(off - 8), ps, i + 1);
    }
}

proof fn lemma_seq_labels(st: GState, ns: Seq<Node>, i: int)
    ensures
        seq_gen(st, ns, i) matches Some(s) ==> s.labels == st.labels + label_uses_from(ns, i),
    decreases ns, ns.len() - i,
{
    if 0 <= i < ns.len() {
        lemma_gen_labels(st, ns[i]);
        if let Some(s) = gen_spec(st, ns[i]) {
            lemma_seq_labels(s, ns, i + 1);
        }
    }
}

proof fn lemma_args_labels(st: GState, args: Seq<Node>, i: int)
    ensures
        args_gen(st, args, i) matches Some(s) ==> s.labels == st.labels + label_uses_from(args, i),
    decreases args, args.len() - i,
{
    if 0 <= i < args.len() {
        if let Some(t) = expr_type(st, args[i]) {
            lemma_gen_labels(st, args[i]);
            if let Some(s) = gen_spec(st, args[i]) {
                let push = if t == Ty::Float { "\tstr d0, [sp, #-16]!\n"@ } else { "\tstr x0, [sp, #-16]!\n"@ };
                lemma_args_labels(s.emit(push), args, i + 1);
            }
        }
    }
}

proof fn lemma_pops_labels(st: GState, k: int)
    ensures
        pops_gen(st, k).labels == st.labels,
    decreases k,
{
    if k > 0 {
        lemma_pops_labels(st.emit("\tldr x"@).emit(dec_nat((k - 1) as nat)).emit(", [sp], #16\n"@), k - 1);
    }
}

#[verifier::rlimit(40)]
proof fn lemma_gen_labels(st: GState, n: Node)
    ensures
        gen_spec(st, n) matches Some(s) ==> s.labels == st.labels + label_uses(n),
    decreases n, 0int,
{
    match n {
        Node::Program(ns) => lemma_seq_labels(st.emit(".global _main\n.text\n\n"@), ns, 0),
        Node::Function { name, params, body, .. } => {
            let st1 = GState { locals: Map::empty(), stack_offset: -8, ..st }.emit("_"@).emit(name)
                .emit(":\n"@).emit("\tstp x29, x30, [sp, #-16]!\n\tmov x29, sp\n"@).emit("\tsub sp, sp, #256\n"@);
            lemma_params_labels(st1, params, 0);
            if let Some(st2) = params_gen(st1, params, 0) {
                lemma_gen_labels(st2, *body);
            }
        },
        Node::Return { value, .. } => {
            if let Some(v) = value {
                lemma_gen_labels(st, *v);
            }
        },
        Node::Block { statements, .. } => lemma_seq_labels(st, statements, 0),
        Node::Binary { left, right, .. } => {
            lemma_gen_labels(st, *left);
            if let Some(s1) = gen_spec(st, *left) {
                lemma_gen_labels(s1.emit("\tstr d0, [sp, #-16]!\n"@), *right);
                lemma_gen_labels(s1.emit("\tstr x0, [sp, #-16]!\n"@), *right);
            }
        },
        Node::VarDecl { init, .. } => {
            if let Some(e) = init {
                lemma_gen_labels(st, *e);
            }
        },
        Node::Assign { target, value, .. } => match *target {
            Node::Variable(_) => lemma_gen_labels(st, *value),
            Node::Member { object, .. } => {
                lemma_gen_labels(st, *object);
                if let Some(s1) = gen_spec(st, *object) {
                    lemma_gen_labels(s1.emit("\tstr x0, [sp, #-16]!\n"@), *value);
                }
            },
            Node::Index { array, index, .. } => {
                lemma_gen_labels(st, *array);
                if let Some(s1) = gen_spec(st, *array) {
                    lemma_gen_labels(s1.emit("\tstr x0, [sp, #-16]!\n"@), *index);
                    if let Some(s2) = gen_spec(s1.emit("\tstr x0, [sp, #-16]!\n"@), *index) {
                        lemma_gen_labels(
                            s2.emit("\tldr x1, [sp], #16\n"@).emit("\tmov x2, #8\n"@).emit("\tmul x0, x0, x2\n"@)
                                .emit("\tadd x0, x1, x0\n"@).emit("\tstr x0, [sp, #-16]!\n"@),
                            *value,
                        );
                    }
                }
            },
            _ => {},
        },
        Node::IfElse { cond, then_branch, else_branch, .. } => {
            let i = dec_nat(st.labels as nat);
            lemma_gen_labels(st.next_label(), *cond);
            if let Some(s1) = gen_spec(st.next_label(), *cond) {
                let target = if else_branch is Some { ".L_else_"@ } else { ".L_end_"@ };
                let t1 = s1.emit("\tcbz x0, "@).emit(target).emit(i).emit("\n"@);
                lemma_gen_labels(t1, *then_branch);
                if let Some(s2) = gen_spec(t1, *then_branch) {
                    if let Some(eb) = else_branch {
                        lemma_gen_labels(
                            s2.emit("\tb .L_end_"@).emit(i).emit("\n"@).emit(".L_else_"@).emit(i).emit(":\n"@),
                            *eb,
                        );
                    }
                }
            }
        },
        Node::Call { args, .. } => {
            lemma_args_labels(st, args, 0);
            if let Some(s) = args_gen(st, args, 0) {
                lemma_pops_labels(s, args.len() as int);
            }
        },
        Node::Member { object, .. } => lemma_gen_labels(st, *object),
        Node::Index { array, index, .. } => {
            lemma_gen_labels(st, *array);
            if let Some(s1) = gen_spec(st, *array) {
                lemma_gen_labels(s1.emit("\tstr x0, [sp, #-16]!\n"@), *index);
            }
        },
        Node::While { cond, body, .. } => {
            let i = dec_nat(st.labels as nat);
            let t0 = st.next_label().emit(".L_while_start_"@).emit(i).emit(":\n"@);
            lemma_gen_labels(t0, *cond);
            if let Some(s1) = gen_spec(t0, *cond) {
                lemma_gen_labels(s1.emit("\tcbz x0, .L_while_end_"@).emit(i).emit("\n"@), *body);
            }
        },
        Node::Print(e) => lemma_gen_labels(st, *e),
        _ => {},
    }
}

/// Law (fresh labels): generating a node advances the label counter by exactly
/// the number of label-taking constructs in it. Each such construct names its
/// labels with the counter's value when it is met (see `gen_spec`) and then
/// advances it by one, so no two constructs share a label number.
pub proof fn law_one_label_per_construct(st: GState, n: Node)
    ensures
        gen_spec(st, n) matches Some(s) ==> s.labels == st.labels + label_uses(n),
{
    lemma_gen_labels(st, n);
}

/// The label numbers that generating `n` from `st` takes, in the order in which
/// `gen_spec` takes them (each from the counter of the state at that moment).
pub open spec fn labels_taken(st: GState, n: Node) -> Seq<int>
    decreases n, 0int,
{
    match n {
        Node::Program(ns) => labels_taken_from(st.emit(".global _main\n.text\n\n"@), ns, 0),
        Node::Function { name, params, body, .. } => {
            let st1 = GState { locals: Map::empty(), stack_offset: -8, ..st }.emit("_"@).emit(name)
                .emit(":\n"@).emit("\tstp x29, x30, [sp, #-16]!\n\tmov x29, sp\n"@).emit("\tsub sp, sp, #256\n"@);
            match params_gen(st1, params, 0) {
                None => Seq::empty(),
                Some(st2) => labels_taken(st2, *body),
            }
        },
        Node::Return { value, .. } => match value {
            Some(v) => labels_taken(st, *v),
            None => Seq::empty(),
        },
        Node::FloatLit(_) => seq![st.labels],
        Node::StringLit(_) => seq![st.labels],
        Node::Block { statements, .. } => labels_taken_from(st, statements, 0),
        Node::Binary { left, right, .. } => {
            let float = expr_type(st, *left) == Some(Ty::Float);
            match gen_spec(st, *left) {
                None => Seq::empty(),
                Some(s1) => labels_taken(st, *left) + labels_taken(
                    s1.emit(if float { "\tstr d0, [sp, #-16]!\n"@ } else { "\tstr x0, [sp, #-16]!\n"@ }),
                    *right,
                ),
            }
        },
        Node::VarDecl { init, .. } => match init {
            Some(e) => labels_taken(st, *e),
            None => Seq::empty(),
        },
        Node::Assign { target, value, .. } => match *target {
            Node::Variable(_) => labels_taken(st, *value),
            Node::Member { object, .. } => match gen_spec(st, *object) {
                None => Seq::empty(),
                Some(s1) => labels_taken(st, *object) + labels_taken(s1.emit("\tstr x0, [sp, #-16]!\n"@), *value),
            },
            Node::Index { array, index, .. } => match gen_spec(st, *array) {
                None => Seq::empty(),
                Some(s1) => match gen_spec(s1.emit("\tstr x0, [sp, #-16]!\n"@), *index) {
                    None => Seq::empty(),
                    Some(s2) => labels_taken(st, *array) + labels_taken(s1.emit("\tstr x0, [sp, #-16]!\n"@), *index)
                        + labels_taken(
                        s2.emit("\tldr x1, [sp], #16\n"@).emit("\tmov x2, #8\n"@).emit("\tmul x0, x0, x2\n"@)
                            .emit("\tadd x0, x1, x0\n"@).emit("\tstr x0, [sp, #-16]!\n"@),
                        *value,
                    ),
                },
            },
            _ => Seq::empty(),
        },
        Node::IfElse { cond, then_branch, else_branch, .. } => {
            let i = dec_nat(st.labels as nat);
            match gen_spec(st.next_label(), *cond) {
                None => Seq::empty(),
                Some(s1) => {
                    let target = if else_branch is Some { ".L_else_"@ } else { ".L_end_"@ };
                    let t1 = s1.emit("\tcbz x0, "@).emit(target).emit(i).emit("\n"@);
                    match gen_spec(t1, *then_branch) {
                        None => Seq::empty(),
                        Some(s2) => seq![st.labels] + labels_taken(st.next_label(), *cond) + labels_taken(t1, *then_branch)
                            + match else_branch {
                            Some(eb) => labels_taken(
                                s2.emit("\tb .L_end_"@).emit(i).emit("\n"@).emit(".L_else_"@).emit(i).emit(":\n"@),
                                *eb,
                            ),
                            None => Seq::empty(),
                        },
                    }
                },
            }
        },
        Node::Call { args, .. } => labels_taken_args(st, args, 0),
        Node::Member { object, .. } => labels_taken(st, *object),
        Node::Index { array, index, .. } => match gen_spec(st, *array) {
            None => Seq::empty(),
            Some(s1) => labels_taken(st, *array) + labels_taken(s1.emit("\tstr x0, [sp, #-16]!\n"@), *index),
        },
        Node::While { cond, body, .. } => {
            let i = dec_nat(st.labels as nat);
            let t0 = st.next_label().emit(".L_while_start_"@).emit(i).emit(":\n"@);
            match gen_spec(t0, *cond) {
                None => Seq::empty(),
                Some(s1) => seq![st.labels] + labels_taken(t0, *cond) + labels_taken(
                    s1.emit("\tcbz x0, .L_while_end_"@).emit(i).emit("\n"@),
                    *body,
                ),
            }
        },
        Node::Print(e) => match gen_spec(st, *e) {
            None => Seq::empty(),
            Some(s1) => labels_taken(st, *e) + seq![s1.labels],
        },
        _ => Seq::empty(),
    }
}

/// The label numbers taken by generating the nodes from the `i`-th on.
pub open spec fn labels_taken_from(st: GState, ns: Seq<Node>, i: int) -> Seq<int>
    decreases ns, ns.len() - i,
{
    if i < 0 || i >= ns.len() {
        Seq::empty()
    } else {
        match gen_spec(st, ns[i]) {
            None => Seq::empty(),
            Some(s) => labels_taken(st, ns[i]) + labels_taken_from(s, ns, i + 1),
        }
    }
}

/// The label numbers taken by generating the call arguments from the `i`-th on.
pub open spec fn labels_taken_args(st: GState, args: Seq<Node>, i: int) -> Seq<int>
    decreases args, args.len() - i,
{
    if i < 0 || i >= args.len() {
        Seq::empty()
    } else {
        match expr_type(st, args[i]) {
            None => Seq::empty(),
            Some(t) => match gen_spec(st, args[i]) {
                None => Seq::empty(),
                Some(s) => labels_taken(st, args[i]) + labels_taken_args(
                    s.emit(if t == Ty::Float { "\tstr d0, [sp, #-16]!\n"@ } else { "\tstr x0, [sp, #-16]!\n"@ }),
                    args,
                    i + 1,
                ),
            },
        }
    }
}

/// The numbers `from`, `from + 1`, ..., `from + k - 1`.
pub open spec fn counting(from: int, k: nat) -> Seq<int> {
    Seq::new(k, |j: int| from + j)
}

proof fn lemma_counting_join(from: int, a: nat, b: nat)
    ensures
        counting(from, a) + counting(from + a, b) == counting(from, a + b),
{
    assert(counting(from, a) + counting(from + a, b) =~= counting(from, a + b));
}

proof fn lemma_taken_from(st: GState, ns: Seq<Node>, i: int)
    ensures
        seq_gen(st, ns, i) is Some ==> labels_taken_from(st, ns, i) == counting(st.labels, label_uses_from(ns, i)),
    decreases ns, ns.len() - i,
{
    if 0 <= i < ns.len() {
        lemma_taken(st, ns[i]);
        lemma_gen_labels(st, ns[i]);
        if let Some(s) = gen_spec(st, ns[i]) {
            lemma_taken_from(s, ns, i + 1);
            lemma_counting_join(st.labels, label_uses(ns[i]), label_uses_from(ns, i + 1));
        }
    } else {
        assert(counting(st.labels, 0) =~= Seq::<int>::empty());
    }
}

proof fn lemma_taken_args(st: GState, args: Seq<Node>, i: int)
    ensures
        args_gen(st, args, i) is Some ==> labels_taken_args(st, args, i) == counting(st.labels, label_uses_from(args, i)),
    decreases args, args.len() - i,
{
    if 0 <= i < args.len() {
        if let Some(t) = expr_type(st, args[i]) {
            lemma_taken(st, args[i]);
            lemma_gen_labels(st, args[i]);
            if let Some(s) = gen_spec(st, args[i]) {
                let push = if t == Ty::Float { "\tstr d0, [sp, #-16]!\n"@ } else { "\tstr x0, [sp, #-16]!\n"@ };
                lemma_taken_args(s.emit(push), args, i + 1);
                lemma_counting_join(st.labels, label_uses(args[i]), label_uses_from(args, i + 1));
            }
        }
    } else {
        assert(counting(st.labels, 0) =~= Seq::<int>::empty());
    }
}

#[verifier::rlimit(60)]
#[verifier::spinoff_prover]
proof fn lemma_taken(st: GState, n: Node)
    ensures
        gen_spec(st, n) is Some ==> labels_taken(st, n) == counting(st.labels, label_uses(n)),
    decreases n, 0int,
{
    assert(counting(st.labels, 0) =~= Seq::<int>::empty());
    assert(counting(st.labels, 1) =~= seq![st.labels]);
    match n {
        Node::Program(ns) => lemma_taken_from(st.emit(".global _main\n.text\n\n"@), ns, 0),
        Node::Function { name, params, body, .. } => {
            let st1 = GState { locals: Map::empty(), stack_offset: -8, ..st }.emit("_"@).emit(name)
                .emit(":\n"@).emit("\tstp x29, x30, [sp, #-16]!\n\tmov x29, sp\n"@).emit("\tsub sp, sp, #256\n"@);
            lemma_params_labels(st1, params, 0);
            if let Some(st2) = params_gen(st1, params, 0) {
                lemma_taken(st2, *body);
            }
        },
        Node::Return { value, .. } => {
            if let Some(v) = value {
                lemma_taken(st, *v);
            }
        },
        Node::Block { statements, .. } => lemma_taken_from(st, statements, 0),
        Node::Binary { left, right, .. } => {
            lemma_taken(st, *left);
            lemma_gen_labels(st, *left);
            if let Some(s1) = gen_spec(st, *left) {
                let float = expr_type(st, *left) == Some(Ty::Float);
                let t = s1.emit(if float { "\tstr d0, [sp, #-16]!\n"@ } else { "\tstr x0, [sp, #-16]!\n"@ });
                lemma_taken(t, *right);
                lemma_counting_join(st.labels, label_uses(*left), label_uses(*right));
            }
        },
        Node::VarDecl { init, .. } => {
            if let Some(e) = init {
                lemma_taken(st, *e);
            }
        },
        Node::Assign { target, value, .. } => match *target {
            Node::Variable(_) => lemma_taken(st, *value),
            Node::Member { object, .. } => {
                lemma_taken(st, *object);
                lemma_gen_labels(st, *object);
                if let Some(s1) = gen_spec(st, *object) {
                    lemma_taken(s1.emit("\tstr x0, [sp, #-16]!\n"@), *value);
                    lemma_counting_join(st.labels, label_uses(*object), label_uses(*value));
                }
            },
            Node::Index { array, index, .. } => {
                lemma_taken(st, *array);
                lemma_gen_labels(st, *array);
                if let Some(s1) = gen_spec(st, *array) {
                    let t1 = s1.emit("\tstr x0, [sp, #-16]!\n"@);
                    lemma_taken(t1, *index);
                    lemma_gen_labels(t1, *index);
                    if let Some(s2) = gen_spec(t1, *index) {
                        let t2 = s2.emit("\tldr x1, [sp], #16\n"@).emit("\tmov x2, #8\n"@).emit("\tmul x0, x0, x2\n"@)
                            .emit("\tadd x0, x1, x0\n"@).emit("\tstr x0, [sp, #-16]!\n"@);
                        lemma_taken(t2, *value);
                        lemma_counting_join(st.labels, label_uses(*array), label_uses(*index));
                        lemma_counting_join(
                            st.labels,
                            label_uses(*array) + label_uses(*index),
                            label_uses(*value),
                        );
                    }
                }
            },
            _ => {},
        },
        Node::IfElse { cond, then_branch, else_branch, .. } => {
            let i = dec_nat(st.labels as nat);
            lemma_taken(st.next_label(), *cond);
            lemma_gen_labels(st.next_label(), *cond);
            if let Some(s1) = gen_spec(st.next_label(), *cond) {
                let target = if else_branch is Some { ".L_else_"@ } else { ".L_end_"@ };
                let t1 = s1.emit("\tcbz x0, "@).emit(target).emit(i).emit("\n"@);
                lemma_taken(t1, *then_branch);
                lemma_gen_labels(t1, *then_branch);
                lemma_counting_join(st.labels, 1, label_uses(*cond));
                lemma_counting_join(st.labels, 1 + label_uses(*cond), label_uses(*then_branch));
                if let Some(s2) = gen_spec(t1, *then_branch) {
                    if let Some(eb) = else_branch {
                        let t2 = s2.emit("\tb .L_end_"@).emit(i).emit("\n"@).emit(".L_else_"@).emit(i).emit(":\n"@);
                        lemma_taken(t2, *eb);
                        lemma_counting_join(
                            st.labels,
                            1 + label_uses(*cond) + label_uses(*then_branch),
                            label_uses(*eb),
                        );
                    } else {
                        assert(counting(st.labels, 1 + label_uses(*cond) + label_uses(*then_branch)) + Seq::<int>::empty()
                            =~= counting(st.labels, 1 + label_uses(*cond) + label_uses(*then_branch)));
                    }
                }
            }
        },
        Node::Call { args, .. } => lemma_taken_args(st, args, 0),
        Node::Member { object, .. } => lemma_taken(st, *object),
        Node::Index { array, index, .. } => {
            lemma_taken(st, *array);
            lemma_gen_labels(st, *array);
            if let Some(s1) = gen_spec(st, *array) {
                lemma_taken(s1.emit("\tstr x0, [sp, #-16]!\n"@), *index);
                lemma_counting_join(st.labels, label_uses(*array), label_uses(*index));
            }
        },
        Node::While { cond, body, .. } => {
            let i = dec_nat(st.labels as nat);
            let t0 = st.next_label().emit(".L_while_start_"@).emit(i).emit(":\n"@);
            lemma_taken(t0, *cond);
            lemma_gen_labels(t0, *cond);
            if let Some(s1) = gen_spec(t0, *cond) {
                lemma_taken(s1.emit("\tcbz x0, .L_while_end_"@).emit(i).emit("\n"@), *body);
                lemma_counting_join(st.labels, 1, label_uses(*cond));
                lemma_counting_join(st.labels, 1 + label_uses(*cond), label_uses(*body));
            }
        },
        Node::Print(e) => {
            lemma_taken(st, *e);
            lemma_gen_labels(st, *e);
            lemma_counting_join(st.labels, label_uses(*e), 1);
        },
        _ => {},
    }
}

/// Law (each label number once): the label numbers that generating a node takes,
/// in order, are the counter's value before and the ones following it, one per
/// label-taking construct; so no two constructs, in this node or in any node
/// generated later from the state it leaves, take the same number. Each construct
/// names its labels by its kind and the decimal text of its number, and different
/// numbers have different decimal texts, so no two constructs define the same label.
pub proof fn law_labels_taken_once(st: GState, n: Node)
    requires
        st.labels >= 0,
    ensures
        gen_spec(st, n) matches Some(s) ==> {
            &&& labels_taken(st, n) == counting(st.labels, label_uses(n))
            &&& labels_taken(st, n).no_duplicates()
            &&& forall|k: int| 0 <= k < labels_taken(st, n).len() ==> st.labels <= #[trigger] labels_taken(st, n)[k] < s.labels
            &&& forall|j: int, k: int|
                0 <= j < labels_taken(st, n).len() && 0 <= k < labels_taken(st, n).len() && j != k ==> #[trigger] dec_nat(
                    labels_taken(st, n)[j] as nat,
                ) != #[trigger] dec_nat(labels_taken(st, n)[k] as nat)
        },
{
    lemma_taken(st, n);
    lemma_gen_labels(st, n);
    if gen_spec(st, n) is Some {
        let ts = labels_taken(st, n);
        assert forall|j: int, k: int| 0 <= j < ts.len() && 0 <= k < ts.len() && j != k implies #[trigger] dec_nat(
            ts[j] as nat,
        ) != #[trigger] dec_nat(ts[k] as nat) by {
            law_dec_nat_injective(ts[j] as nat, ts[k] as nat);
        }
    }
}

/// Law (binary operators): a binary operation generates its left operand first,
/// pushes it, generates the right operand (into `x0`, or `d0` for floats), pops the
/// left operand into `x1` (`d1`), and then computes `left op right` with the
/// instruction of ARM64 that takes the left operand as its first source:
/// `add`/`sub`/`mul`/`sdiv x0, x1, x0` on integers, `fadd`/`fsub`/`fmul`/`fdiv d0, d1, d0`
/// on floats, and for a comparison `cmp x1, x0` (`fcmp d1, d0`) followed by
/// `cset x0` with the condition `eq`, `lt`, `gt`, `le` or `ge`.
pub proof fn law_binary_operator_code(st: GState, left: Node, right: Node, op: BinaryOperator, line: int, column: int)
    ensures
        gen_spec(st, Node::Binary { left: Box::new(left), right: Box::new(right), op, line, column }) matches Some(s) ==> {
            let float = expr_type(st, left) == Some(Ty::Float);
            let s1 = gen_spec(st, left)->Some_0;
            let s2 = gen_spec(s1.emit(if float { "\tstr d0, [sp, #-16]!\n"@ } else { "\tstr x0, [sp, #-16]!\n"@ }), right)->Some_0;
            &&& gen_spec(st, left) is Some
            &&& !float ==> s.buffer == s2.buffer + "\tldr x1, [sp], #16\n"@ + match op {
                BinaryOperator::Add => "\tadd x0, x1, x0\n"@,
                BinaryOperator::Sub => "\tsub x0, x1, x0\n"@,
                BinaryOperator::Mul => "\tmul x0, x1, x0\n"@,
                BinaryOperator::Div => "\tsdiv x0, x1, x0\n"@,
                BinaryOperator::DoubleEqual => "\tcmp x1, x0\n\tcset x0, eq\n"@,
                BinaryOperator::LessThan => "\tcmp x1, x0\n\tcset x0, lt\n"@,
                BinaryOperator::GreaterThan => "\tcmp x1, x0\n\tcset x0, gt\n"@,
                BinaryOperator::LessOrEqual => "\tcmp x1, x0\n\tcset x0, le\n"@,
                BinaryOperator::GreaterOrEqual => "\tcmp x1, x0\n\tcset x0, ge\n"@,
            }
            &&& float ==> s.buffer == s2.buffer + "\tldr d1, [sp], #16\n"@ + match op {
                BinaryOperator::Add => "\tfadd d0, d1, d0\n"@,
                BinaryOperator::Sub => "\tfsub d0, d1, d0\n"@,
                BinaryOperator::Mul => "\tfmul d0, d1, d0\n"@,
                BinaryOperator::Div => "\tfdiv d0, d1, d0\n"@,
                BinaryOperator::DoubleEqual => "\tfcmp d1, d0\n\tcset x0, eq\n"@,
                BinaryOperator::LessThan => "\tfcmp d1, d0\n\tcset x0, lt\n"@,
                BinaryOperator::GreaterThan => "\tfcmp d1, d0\n\tcset x0, gt\n"@,
                BinaryOperator::LessOrEqual => "\tfcmp d1, d0\n\tcset x0, le\n"@,
                BinaryOperator::GreaterOrEqual => "\tfcmp d1, d0\n\tcset x0, ge\n"@,
            }
        },
{
}

/// Law (simple nodes): an integer literal loads its decimal value into `x0` with
/// `mov x0, #v`; `true` and `false` load 1 and 0; an integer or boolean variable at
/// stack offset `off` is loaded with `ldr x0, [x29, #off]`; a `return` of a value
/// generates the value and then restores the frame and returns.
pub proof fn law_simple_node_code(st: GState, v: i16, b: bool, name: Seq<char>, value: Node, line: int, column: int)
    ensures
        gen_spec(st, Node::IntLit(v)) == Some(st.emit("\tmov x0, #"@ + dec_int(v as int) + "\n"@)),
        gen_spec(st, Node::BoolLit(true)) == Some(st.emit("\tmov x0, #1\n"@)),
        gen_spec(st, Node::BoolLit(false)) == Some(st.emit("\tmov x0, #0\n"@)),
        st.locals.contains_key(name) && (st.locals[name].1 == Ty::Int || st.locals[name].1 == Ty::Bool) ==> gen_spec(
            st,
            Node::Variable(name),
        ) == Some(st.emit("\tldr x0, [x29, #"@ + dec_int(st.locals[name].0) + "]\n"@)),
        !st.locals.contains_key(name) ==> gen_spec(st, Node::Variable(name)) is None,
        gen_spec(st, Node::Return { value: Some(Box::new(value)), line, column }) matches Some(s) ==> {
            &&& gen_spec(st, value) is Some
            &&& s == gen_spec(st, value)->Some_0.emit("\tmov sp, x29\n\tldp x29, x30, [sp], #16\n\tret\n"@)
        },
{
    let e = st.emit("\tmov x0, #"@).emit(dec_int(v as int)).emit("\n"@);
    assert(e.buffer =~= st.buffer + ("\tmov x0, #"@ + dec_int(v as int) + "\n"@));
    if st.locals.contains_key(name) {
        let off = st.locals[name].0;
        let l = st.emit("\tldr x0, [x29, "@).emit(imm(off)).emit("]\n"@);
        reveal_strlit("\tldr x0, [x29, ");
        reveal_strlit("\tldr x0, [x29, #");
        reveal_strlit("#");
        assert(l.buffer =~= st.buffer + ("\tldr x0, [x29, #"@ + dec_int(off) + "]\n"@));
    }
    if let Some(s) = gen_spec(st, Node::Return { value: Some(Box::new(value)), line, column }) {
        let g = gen_spec(st, value)->Some_0;
        reveal_strlit("\tmov sp, x29\n");
        reveal_strlit("\tldp x29, x30, [sp], #16\n\tret\n");
        reveal_strlit("\tmov sp, x29\n\tldp x29, x30, [sp], #16\n\tret\n");
        assert(g.emit("\tmov sp, x29\n"@).emit("\tldp x29, x30, [sp], #16\n\tret\n"@).buffer
            =~= g.emit("\tmov sp, x29\n\tldp x29, x30, [sp], #16\n\tret\n"@).buffer);
    }
}

/// Law (declarations): a declaration of an `Int` or `Bool` variable generates its
/// initial value (or `mov x0, #0` without one), binds the name to a new slot just
/// below the next free offset (by the type's size), and stores `x0` there with
/// `str x0, [x29, #off]`; the next free offset moves below the slot.
#[verifier::spinoff_prover]
#[verifier::rlimit(40)]
pub proof fn law_declaration_code(st: GState, name: Seq<char>, typ: Ty, init: Option<Box<Node>>, line: int, column: int)
    requires
        typ == Ty::Int || typ == Ty::Bool,
    ensures
        gen_spec(st, Node::VarDecl { name, typ, init, line, column }) matches Some(s) ==> {
            let sv = match init {
                Some(e) => gen_spec(st, *e)->Some_0,
                None => st.emit("\tmov x0, #0\n"@),
            };
            let off = sv.stack_offset - 8;
            &&& init matches Some(e) ==> gen_spec(st, *e) is Some
            &&& s.locals == sv.locals.insert(name, (off, typ))
            &&& s.stack_offset == off - 8
            &&& s.buffer == sv.buffer + "\tstr x0, [x29, #"@ + dec_int(off) + "]\n"@
            &&& s.labels == sv.labels
        },
{
    reveal_strlit("\tstr x0, [x29, ");
    reveal_strlit("\tstr x0, [x29, #");
    reveal_strlit("#");
    if let Some(s) = gen_spec(st, Node::VarDecl { name, typ, init, line, column }) {
        let sv = match init {
            Some(e) => gen_spec(st, *e)->Some_0,
            None => st.emit("\tmov x0, #0\n"@),
        };
        let off = sv.stack_offset - 8;
        assert(size_in(sv, typ) == Some(8int));
        let s2 = sv.bind(name, off, typ).at_offset(off - 8);
        assert(s2.emit("\tstr x0, [x29, "@).emit(imm(off)).emit("]\n"@).buffer =~= sv.buffer + ("\tstr x0, [x29, #"@ + dec_int(off)
            + "]\n"@));
    }
}

/// Law (assignments): assigning to an `Int` or `Bool` variable at offset `off`
/// generates the value and stores `x0` with `str x0, [x29, #off]`; assigning to a
/// `Float` variable stores `d0` the same way; assigning to an unknown variable
/// stops generation.
#[verifier::spinoff_prover]
#[verifier::rlimit(40)]
pub proof fn law_assignment_code(st: GState, name: Seq<char>, value: Node, line: int, column: int)
    ensures
        !st.locals.contains_key(name) ==> gen_spec(
            st,
            Node::Assign { target: Box::new(Node::Variable(name)), value: Box::new(value), line, column },
        ) is None,
        gen_spec(st, Node::Assign { target: Box::new(Node::Variable(name)), value: Box::new(value), line, column }) matches Some(s) ==> {
            let sv = gen_spec(st, value)->Some_0;
            let off = st.locals[name].0;
            &&& st.locals.contains_key(name)
            &&& gen_spec(st, value) is Some
            &&& st.locals[name].1 != Ty::Float ==> s == sv.emit("\tstr x0, [x29, #"@ + dec_int(off) + "]\n"@)
            &&& st.locals[name].1 == Ty::Float ==> s == sv.emit("\tstr d0, [x29, #"@ + dec_int(off) + "]\n"@)
        },
{
    reveal_strlit("\tstr x0, [x29, ");
    reveal_strlit("\tstr x0, [x29, #");
    reveal_strlit("\tstr d0, [x29, ");
    reveal_strlit("\tstr d0, [x29, #");
    reveal_strlit("#");
    if let Some(s) = gen_spec(st, Node::Assign { target: Box::new(Node::Variable(name)), value: Box::new(value), line, column }) {
        let sv = gen_spec(st, value)->Some_0;
        let off = st.locals[name].0;
        let x = sv.emit("\tstr x0, [x29, "@).emit(imm(off)).emit("]\n"@);
        assert(x.buffer =~= sv.emit("\tstr x0, [x29, #"@ + dec_int(off) + "]\n"@).buffer);
        let d = sv.emit("\tstr d0, [x29, "@).emit(imm(off)).emit("]\n"@);
        assert(d.buffer =~= sv.emit("\tstr d0, [x29, #"@ + dec_int(off) + "]\n"@).buffer);
    }
}

/// Law (`if` code): an `if` takes a fresh label number `i`; after its condition it
/// branches with `cbz x0` (on false) to `.L_else_i` when there is an `else` branch
/// and to `.L_end_i` otherwise; with an `else` branch, the `then` branch is followed
/// by `b .L_end_i` and the label `.L_else_i:`; the code ends with `.L_end_i:`.
#[verifier::spinoff_prover]
#[verifier::rlimit(60)]
pub proof fn law_if_code(st: GState, cond: Node, then_branch: Node, else_branch: Option<Box<Node>>, line: int, column: int)
    ensures
        gen_spec(st, Node::IfElse { cond: Box::new(cond), then_branch: Box::new(then_branch), else_branch, line, column }) matches Some(s) ==> {
            let i = dec_nat(st.labels as nat);
            let s1 = gen_spec(st.next_label(), cond)->Some_0;
            let t1 = s1.emit(if else_branch is Some { "\tcbz x0, .L_else_"@ + i + "\n"@ } else { "\tcbz x0, .L_end_"@ + i + "\n"@ });
            let s2 = gen_spec(t1, then_branch)->Some_0;
            &&& gen_spec(st.next_label(), cond) is Some
            &&& gen_spec(t1, then_branch) is Some
            &&& else_branch is None ==> s == s2.emit(".L_end_"@ + i + ":\n"@)
            &&& else_branch is Some ==> {
                let t2 = s2.emit("\tb .L_end_"@ + i + "\n"@ + ".L_else_"@ + i + ":\n"@);
                &&& gen_spec(t2, *else_branch->Some_0) is Some
                &&& s == gen_spec(t2, *else_branch->Some_0)->Some_0.emit(".L_end_"@ + i + ":\n"@)
            }
        },
{
    reveal_strlit("\tcbz x0, ");
    reveal_strlit(".L_else_");
    reveal_strlit(".L_end_");
    reveal_strlit("\tcbz x0, .L_else_");
    reveal_strlit("\tcbz x0, .L_end_");
    reveal_strlit("\tb .L_end_");
    let i = dec_nat(st.labels as nat);
    if let Some(s) = gen_spec(st, Node::IfElse { cond: Box::new(cond), then_branch: Box::new(then_branch), else_branch, line, column }) {
        let s1 = gen_spec(st.next_label(), cond)->Some_0;
        let target = if else_branch is Some { ".L_else_"@ } else { ".L_end_"@ };
        let a = s1.emit("\tcbz x0, "@).emit(target).emit(i).emit("\n"@);
        let t1 = s1.emit(if else_branch is Some { "\tcbz x0, .L_else_"@ + i + "\n"@ } else { "\tcbz x0, .L_end_"@ + i + "\n"@ });
        assert(a.buffer =~= t1.buffer);
        assert(a == t1);
        let s2 = gen_spec(t1, then_branch)->Some_0;
        assert(s2.emit(".L_end_"@).emit(i).emit(":\n"@) == s2.emit(".L_end_"@ + i + ":\n"@)) by {
            assert(s2.emit(".L_end_"@).emit(i).emit(":\n"@).buffer =~= s2.emit(".L_end_"@ + i + ":\n"@).buffer);
        }
        if let Some(eb) = else_branch {
            let b2 = s2.emit("\tb .L_end_"@).emit(i).emit("\n"@).emit(".L_else_"@).emit(i).emit(":\n"@);
            let t2 = s2.emit("\tb .L_end_"@ + i + "\n"@ + ".L_else_"@ + i + ":\n"@);
            assert(b2.buffer =~= t2.buffer);
            assert(b2 == t2);
            let s3 = gen_spec(t2, *eb)->Some_0;
            assert(s3.emit(".L_end_"@).emit(i).emit(":\n"@) == s3.emit(".L_end_"@ + i + ":\n"@)) by {
                assert(s3.emit(".L_end_"@).emit(i).emit(":\n"@).buffer =~= s3.emit(".L_end_"@ + i + ":\n"@).buffer);
            }
        }
    }
}

/// Law (`while` code): a `while` takes a fresh label number `i`, starts with
/// `.L_while_start_i:`, branches with `cbz x0` (on false) to `.L_while_end_i` after
/// its condition, and ends its body with `b .L_while_start_i` and `.L_while_end_i:`.
#[verifier::spinoff_prover]
#[verifier::rlimit(60)]
pub proof fn law_while_code(st: GState, cond: Node, body: Node, line: int, column: int)
    ensures
        gen_spec(st, Node::While { cond: Box::new(cond), body: Box::new(body), line, column }) matches Some(s) ==> {
            let i = dec_nat(st.labels as nat);
            let t0 = st.next_label().emit(".L_while_start_"@ + i + ":\n"@);
            let s1 = gen_spec(t0, cond)->Some_0;
            let t1 = s1.emit("\tcbz x0, .L_while_end_"@ + i + "\n"@);
            &&& gen_spec(t0, cond) is Some
            &&& gen_spec(t1, body) is Some
            &&& s == gen_spec(t1, body)->Some_0.emit("\tb .L_while_start_"@ + i + "\n"@ + ".L_while_end_"@ + i + ":\n"@)
        },
{
    let i = dec_nat(st.labels as nat);
    if let Some(s) = gen_spec(st, Node::While { cond: Box::new(cond), body: Box::new(body), line, column }) {
        let a0 = st.next_label().emit(".L_while_start_"@).emit(i).emit(":\n"@);
        let t0 = st.next_label().emit(".L_while_start_"@ + i + ":\n"@);
        assert(a0.buffer =~= t0.buffer);
        assert(a0 == t0);
        let s1 = gen_spec(t0, cond)->Some_0;
        let a1 = s1.emit("\tcbz x0, .L_while_end_"@).emit(i).emit("\n"@);
        let t1 = s1.emit("\tcbz x0, .L_while_end_"@ + i + "\n"@);
        assert(a1.buffer =~= t1.buffer);
        assert(a1 == t1);
        let s2 = gen_spec(t1, body)->Some_0;
        let a2 = s2.emit("\tb .L_while_start_"@).emit(i).emit("\n"@).emit(".L_while_end_"@).emit(i).emit(":\n"@);
        let t2 = s2.emit("\tb .L_while_start_"@ + i + "\n"@ + ".L_while_end_"@ + i + ":\n"@);
        assert(a2.buffer =~= t2.buffer);
        assert(a2 == t2);
    }
}

/// Whether every local variable's slot starts at or above the next free stack offset.
pub open spec fn slots_below(st: GState) -> bool {
    forall|k: Seq<char>| #[trigger] st.locals.contains_key(k) ==> st.locals[k].0 >= st.stack_offset
}

proof fn lemma_size_nonneg(lay: Seq<(Seq<char>, Seq<SlotSpec>)>, t: Ty, fuel: nat)
    ensures
        size_of(lay, t, fuel) matches Some(v) ==> v >= 0,
    decreases fuel, 0int, ty_depth(t),
{
    match t {
        Ty::Struct(n) => {
            if let Some(fs) = named(lay, n) {
                if fuel > 0 {
                    lemma_fields_size_nonneg(lay, fs, 0, (fuel - 1) as nat);
                }
            }
        },
        Ty::Array(inner) => lemma_size_nonneg(lay, *inner, fuel),
        _ => {},
    }
}

proof fn lemma_fields_size_nonneg(lay: Seq<(Seq<char>, Seq<SlotSpec>)>, fs: Seq<SlotSpec>, i: int, fuel: nat)
    ensures
        fields_size(lay, fs, i, fuel) matches Some(v) ==> v >= 0,
    decreases fuel, fs.len() - i + 1, 0int,
{
    if 0 <= i < fs.len() {
        lemma_fields_size_nonneg(lay, fs, i + 1, fuel);
        lemma_size_nonneg(lay, fs[i].1.1, fuel);
    }
}

proof fn lemma_params_slots(st: GState, ps: Seq<Field>, i: int)
    ensures
        params_gen(st, ps, i) matches Some(s) ==> (slots_below(st) ==> slots_below(s)),
    decreases ps.len() - i,
{
    if 0 <= i < ps.len() {
        let off = st.stack_offset;
        let reg = if ps[i].typ == Ty::Float { "\tstr d"@ } else { "\tstr x"@ };
        let st1 = st.emit(reg).emit(dec_nat(i as nat)).emit(", [x29, "@).emit(imm(off)).emit("]\n"@)
            .bind(ps[i].name, off, ps[i].typ);
        lemma_params_slots(st1.at_offset(off - 8), ps, i + 1);
    }
}

proof fn lemma_pops_frame(st: GState, k: int)
    ensures
        pops_gen(st, k).locals == st.locals,
        pops_gen(st, k).stack_offset == st.stack_offset,
    decreases k,
{
    if k > 0 {
        lemma_pops_frame(st.emit("\tldr x"@).emit(dec_nat((k - 1) as nat)).emit(", [sp], #16\n"@), k - 1);
    }
}

proof fn lemma_seq_slots(st: GState, ns: Seq<Node>, i: int)
    ensures
        seq_gen(st, ns, i) matches Some(s) ==> (slots_below(st) ==> slots_below(s)),
    decreases ns, ns.len() - i,
{
    if 0 <= i < ns.len() {
        lemma_gen_slots(st, ns[i]);
        if let Some(s) = gen_spec(st, ns[i]) {
            lemma_seq_slots(s, ns, i + 1);
        }
    }
}

proof fn lemma_args_slots(st: GState, args: Seq<Node>, i: int)
    ensures
        args_gen(st, args, i) matches Some(s) ==> (slots_below(st) ==> slots_below(s)),
    decreases args, args.len() - i,
{
    if 0 <= i < args.len() {
        if let Some(t) = expr_type(st, args[i]) {
            lemma_gen_slots(st, args[i]);
            if let Some(s) = gen_spec(st, args[i]) {
                let push = if t == Ty::Float { "\tstr d0, [sp, #-16]!\n"@ } else { "\tstr x0, [sp, #-16]!\n"@ };
                lemma_args_slots(s.emit(push), args, i + 1);
            }
        }
    }
}

#[verifier::rlimit(40)]
proof fn lemma_gen_slots(st: GState, n: Node)
    ensures
        gen_spec(st, n) matches Some(s) ==> (slots_below(st) ==> slots_below(s)),
        gen_spec(st, n) matches Some(s) ==> (n matches Node::VarDecl { name, typ, .. } ==> {
            &&& size_in(s, typ) is Some
            &&& s.locals.contains_key(name)
            &&& (slots_below(st) ==> forall|k: Seq<char>| #[trigger] s.locals.contains_key(k) && k != name
                ==> s.locals[k].0 >= s.locals[name].0 + size_in(s, typ)->Some_0)
        }),
    decreases n, 0int,
{
    match n {
        Node::Program(ns) => lemma_seq_slots(st.emit(".global _main\n.text\n\n"@), ns, 0),
        Node::Function { name, params, body, .. } => {
            let st1 = GState { locals: Map::empty(), stack_offset: -8, ..st }.emit("_"@).emit(name)
                .emit(":\n"@).emit("\tstp x29, x30, [sp, #-16]!\n\tmov x29, sp\n"@).emit("\tsub sp, sp, #256\n"@);
            lemma_params_slots(st1, params, 0);
            if let Some(st2) = params_gen(st1, params, 0) {
                lemma_gen_slots(st2, *body);
            }
        },
        Node::Return { value, .. } => {
            if let Some(v) = value {
                lemma_gen_slots(st, *v);
            }
        },
        Node::Block { statements, .. } => lemma_seq_slots(st, statements, 0),
        Node::Binary { left, right, .. } => {
            lemma_gen_slots(st, *left);
            if let Some(s1) = gen_spec(st, *left) {
                lemma_gen_slots(s1.emit("\tstr d0, [sp, #-16]!\n"@), *right);
                lemma_gen_slots(s1.emit("\tstr x0, [sp, #-16]!\n"@), *right);
            }
        },
        Node::VarDecl { name, typ, init, .. } => {
            if let Some(e) = init {
                lemma_gen_slots(st, *e);
            }
            let float = typ == Ty::Float;
            let s1 = match init {
                Some(e) => gen_spec(st, *e),
                None => Some(st.emit(if float { "\tfmov d0, #0.0\n"@ } else { "\tmov x0, #0\n"@ })),
            };
            if let Some(s1) = s1 {
                lemma_size_nonneg(s1.layouts, typ, s1.layouts.len() + 1);
            }
        },
        Node::Assign { target, value, .. } => match *target {
            Node::Variable(_) => lemma_gen_slots(st, *value),
            Node::Member { object, .. } => {
                lemma_gen_slots(st, *object);
                if let Some(s1) = gen_spec(st, *object) {
                    lemma_gen_slots(s1.emit("\tstr x0, [sp, #-16]!\n"@), *value);
                }
            },
            Node::Index { array, index, .. } => {
                lemma_gen_slots(st, *array);
                if let Some(s1) = gen_spec(st, *array) {
                    lemma_gen_slots(s1.emit("\tstr x0, [sp, #-16]!\n"@), *index);
                    if let Some(s2) = gen_spec(s1.emit("\tstr x0, [sp, #-16]!\n"@), *index) {
                        lemma_gen_slots(
                            s2.emit("\tldr x1, [sp], #16\n"@).emit("\tmov x2, #8\n"@).emit("\tmul x0, x0, x2\n"@)
                                .emit("\tadd x0, x1, x0\n"@).emit("\tstr x0, [sp, #-16]!\n"@),
                            *value,
                        );
                    }
                }
            },
            _ => {},
        },
        Node::IfElse { cond, then_branch, else_branch, .. } => {
            let i = dec_nat(st.labels as nat);
            lemma_gen_slots(st.next_label(), *cond);
            if let Some(s1) = gen_spec(st.next_label(), *cond) {
                let target = if else_branch is Some { ".L_else_"@ } else { ".L_end_"@ };
                let t1 = s1.emit("\tcbz x0, "@).emit(target).emit(i).emit("\n"@);
                lemma_gen_slots(t1, *then_branch);
                if let Some(s2) = gen_spec(t1, *then_branch) {
                    if let Some(eb) = else_branch {
                        lemma_gen_slots(
                            s2.emit("\tb .L_end_"@).emit(i).emit("\n"@).emit(".L_else_"@).emit(i).emit(":\n"@),
                            *eb,
                        );
                    }
                }
            }
        },
        Node::Call { args, .. } => {
            lemma_args_slots(st, args, 0);
            if let Some(s) = args_gen(st, args, 0) {
                lemma_pops_frame(s, args.len() as int);
            }
        },
        Node::Member { object, .. } => lemma_gen_slots(st, *object),
        Node::Index { array, index, .. } => {
            lemma_gen_slots(st, *array);
            if let Some(s1) = gen_spec(st, *array) {
                lemma_gen_slots(s1.emit("\tstr x0, [sp, #-16]!\n"@), *index);
            }
        },
        Node::While { cond, body, .. } => {
            let i = dec_nat(st.labels as nat);
            let t0 = st.next_label().emit(".L_while_start_"@).emit(i).emit(":\n"@);
            lemma_gen_slots(t0, *cond);
            if let Some(s1) = gen_spec(t0, *cond) {
                lemma_gen_slots(s1.emit("\tcbz x0, .L_while_end_"@).emit(i).emit("\n"@), *body);
            }
        },
        Node::Print(e) => lemma_gen_slots(st, *e),
        _ => {},
    }
}

/// Law: stack slots of local variables never overlap. If every local's slot starts
/// at or above the next free stack offset before generating a node, the same holds
/// after it; and a variable declaration gives the new variable a slot that ends
/// (its offset plus its type's size) at or below the start of every other local's slot.
pub proof fn law_slots_disjoint(st: GState, n: Node)
    ensures
        gen_spec(st, n) matches Some(s) ==> (slots_below(st) ==> slots_below(s)),
        gen_spec(st, n) matches Some(s) ==> (n matches Node::VarDecl { name, typ, .. } ==> {
            &&& size_in(s, typ) is Some
            &&& s.locals.contains_key(name)
            &&& (slots_below(st) ==> forall|k: Seq<char>| #[trigger] s.locals.contains_key(k) && k != name
                ==> s.locals[k].0 >= s.locals[name].0 + size_in(s, typ)->Some_0)
        }),
{
    lemma_gen_slots(st, n);
}

// ---------------------------------------------------------------------------
// The generator

/// A stack slot of a local variable, or the place of a struct field: offset and type.
struct VarInfo<'a> {
    offset: i32,
    typ: Type<'a>,
}

impl<'a> View for VarInfo<'a> {
    type V = (int, Ty);

    closed spec fn view(&self) -> (int, Ty) {
        (self.offset as int, self.typ@)
    }
}

/// The field layout of a struct.
struct Layout<'a> {
    fields: Vec<(&'a str, VarInfo<'a>)>,
}

impl<'a> View for Layout<'a> {
    type V = Seq<SlotSpec>;

    closed spec fn view(&self) -> Seq<SlotSpec> {
        pairs_view(self.fields@)
    }
}

proof fn lemma_fields_size_tail(lay: Seq<(Seq<char>, Seq<SlotSpec>)>, fs: Seq<SlotSpec>, i: int, fuel: nat)
    requires
        0 <= i,
        fields_size(lay, fs, i, fuel) is Some,
    ensures
        forall|k: int| i <= k ==> #[trigger] fields_size(lay, fs, k, fuel) is Some,
    decreases fs.len() - i,
{
    if i < fs.len() {
        lemma_fields_size_tail(lay, fs, i + 1, fuel);
    }
    assert forall|k: int| i <= k implies #[trigger] fields_size(lay, fs, k, fuel) is Some by {
        if k > i && i < fs.len() {
        }
    }
}

/// Whether a field named `name` occurs in `fs` from index `i` on.
fn named_after<'a>(fs: &Vec<(&'a str, VarInfo<'a>)>, i: usize, name: &str) -> (r: bool)
    ensures
        r == named_from(pairs_view(fs@), i as int, name@),
{
    let ghost ps = pairs_view(fs@);
    let mut j = i;
    while j < fs.len()
        invariant
            i <= j,
            ps == pairs_view(fs@),
            forall|q: int| i <= q < j && q < ps.len() ==> ps[q].0 != name@,
        decreases fs@.len() - j,
    {
        if str_equals(fs[j].0, name) {
            assert(ps[j as int].0 == name@);
            return true;
        }
        j += 1;
    }
    false
}

/// The failure for a node that the generator produces no code for; the contracts of
/// the generating functions exclude such nodes, so it is reached only by callers
/// that do not meet them.
fn unsupported(message: &str) -> (r: Result<(), GeneratorError>)
    ensures
        r is Err,
{
    Err(GeneratorError::GeneralError(String::from_str(message)))
}

/// A generator with an empty buffer and no variables, labels or structs.
pub struct Generator<'a> {
    buffer: String,
    local_vars: Vec<(&'a str, VarInfo<'a>)>,
    stack_offset: i32,
    label_count: usize,
    struct_layouts: Vec<(&'a str, Layout<'a>)>,
}

impl<'a> Default for Generator<'a> {
    /// The same generator as `new` gives.
    fn default() -> (g: Self)
        ensures
            g.state() == (GState {
                buffer: Seq::empty(),
                locals: Map::empty(),
                stack_offset: -8,
                labels: 0,
                layouts: Seq::empty(),
            }),
    {
        Self::new()
    }
}

impl<'a> Generator<'a> {
    /// The abstract state.
    pub closed spec fn state(&self) -> GState {
        GState {
            buffer: self.buffer@,
            locals: table(self.local_vars@),
            stack_offset: self.stack_offset as int,
            labels: self.label_count as int,
            layouts: pairs_view(self.struct_layouts@),
        }
    }

    /// A generator with an empty buffer and no variables, labels or structs.
    pub fn new() -> (g: Self)
        ensures
            g.state() == (GState {
                buffer: Seq::empty(),
                locals: Map::empty(),
                stack_offset: -8,
                labels: 0,
                layouts: Seq::empty(),
            }),
    {
        let g = Generator {
            buffer: String::new(),
            local_vars: Vec::new(),
            stack_offset: -8,
            label_count: 0,
            struct_layouts: Vec::new(),
        };
        assert(g.state().locals =~= Map::<Seq<char>, (int, Ty)>::empty());
        assert(g.state().layouts =~= Seq::<(Seq<char>, Seq<SlotSpec>)>::empty());
        g
    }

    /// The assembly text produced so far.
    pub fn assembly(&self) -> (s: &str)
        ensures
            s@ == self.state().buffer,
    {
        self.buffer.as_str()
    }

    /// Appends `s` to the buffer.
    fn emit(&mut self, s: &str)
        ensures
            final(self).state() == old(self).state().emit(s@),
    {
        self.buffer.append(s);
    }

    /// Appends a number.
    fn emit_int(&mut self, v: i64)
        ensures
            final(self).state() == old(self).state().emit(dec_int(v as int)),
    {
        push_dec_i64(&mut self.buffer, v);
    }

    /// Appends a natural number.
    fn emit_nat(&mut self, v: usize)
        ensures
            final(self).state() == old(self).state().emit(dec_nat(v as nat)),
    {
        push_dec_usize(&mut self.buffer, v);
    }

    /// Appends an immediate operand `#off`.
    fn emit_imm(&mut self, off: i32)
        ensures
            final(self).state() == old(self).state().emit(imm(off as int)),
    {
        let ghost b = self.buffer@;
        self.buffer.append("#");
        push_dec_i64(&mut self.buffer, off as i64);
        assert(self.buffer@ =~= b + imm(off as int));
    }

    /// Hands out a fresh label index.
    fn fresh_label(&mut self) -> (i: usize)
        requires
            label_ok(old(self).state()),
        ensures
            i == old(self).state().labels,
            final(self).state() == old(self).state().next_label(),
    {
        let i = self.label_count;
        self.label_count = self.label_count + 1;
        i
    }

    /// The size of a type in bytes (see `size_of`).
    fn type_size(typ: &Type<'a>, layouts: &Vec<(&'a str, Layout<'a>)>, Ghost(fuel): Ghost<nat>) -> (r: i32)
        requires
            size_of(pairs_view(layouts@), typ@, fuel) is Some,
        ensures
            r as int == size_of(pairs_view(layouts@), typ@, fuel)->Some_0,
        decreases fuel, ty_depth(typ@),
    {
        let ghost lay = pairs_view(layouts@);
        match typ {
            Type::Struct(name) => match find_key(layouts, name) {
                None => 8,
                Some(j) => {
                    let fs = &layouts[j].1.fields;
                    let ghost fsv = pairs_view(fs@);
                    let ghost f: nat = (fuel - 1) as nat;
                    assert(named(lay, name@) == Some(fsv));
                    proof { lemma_fields_size_tail(lay, fsv, 0, f); }
                    let mut acc: i32 = 0;
                    let mut i = fs.len();
                    while i > 0
                        invariant
                            i <= fs@.len(),
                            fuel >= 1,
                            f == fuel - 1,
                            fsv == pairs_view(fs@),
                            lay == pairs_view(layouts@),
                            fields_size(lay, fsv, i as int, f) == Some(acc as int),
                            forall|k: int| 0 <= k ==> #[trigger] fields_size(lay, fsv, k, f) is Some,
                        decreases i,
                    {
                        i -= 1;
                        assert(fields_size(lay, fsv, i as int, f) is Some);
                        if !named_after(fs, i + 1, fs[i].0) {
                            let s = Self::type_size(&fs[i].1.typ, layouts, Ghost(f));
                            acc = acc + s;
                        }
                    }
                    acc
                },
            },
            Type::Array(inner) => {
                let s = Self::type_size(inner, layouts, Ghost(fuel));
                s * 10
            },
            _ => 8,
        }
    }

    /// The static type of an expression as the generator sees it.
    fn expr_type(&self, node: &AstNode<'a>) -> (t: Type<'a>)
        requires
            expr_type(self.state(), node@) is Some,
        ensures
            t@ == expr_type(self.state(), node@)->Some_0,
        decreases node,
    {
        match node {
            AstNode::IntLiteralExpr(_) => Type::Int,
            AstNode::BoolLiteralExpr(_) => Type::Bool,
            AstNode::FloatLiteralExpr(_) => Type::Float,
            AstNode::StringLiteralExpr(_) => Type::String,
            AstNode::VariableExpr(name) => match find_key(&self.local_vars, name) {
                Some(j) => copy_type(&self.local_vars[j].1.typ),
                None => Type::Int,
            },
            AstNode::MemberAccessExpr(data) => {
                let obj_type = self.expr_type(&data.object);
                if let Type::Struct(struct_name) = obj_type {
                    if let Some(j) = find_key(&self.struct_layouts, struct_name) {
                        let fields = &self.struct_layouts[j].1.fields;
                        if let Some(q) = find_key(fields, data.member.as_str()) {
                            return copy_type(&fields[q].1.typ);
                        }
                    }
                }
                Type::Int
            },
            AstNode::BinaryExpr(data) => match data.operator {
                BinaryOperator::LessThan
                | BinaryOperator::GreaterThan
                | BinaryOperator::LessOrEqual
                | BinaryOperator::GreaterOrEqual
                | BinaryOperator::DoubleEqual => Type::Bool,
                _ => self.expr_type(&data.left),
            },
            AstNode::ArrayIndexExpr(data) => {
                let obj_type = self.expr_type(&data.array);
                match obj_type {
                    Type::Array(inner) => *inner,
                    _ => Type::Int,
                }
            },
            _ => Type::Int,
        }
    }
}

impl<'a> Generator<'a> {
    /// Generates the code of a node into the buffer.
    pub fn generate(&mut self, ast: AstNode<'a>) -> (r: Result<(), GeneratorError>)
        requires
            gen_spec(old(self).state(), ast@) is Some,
        ensures
            r is Ok,
            gen_spec(old(self).state(), ast@) == Some(final(self).state()),
        decreases ast, 0int,
    {
        match ast {
            AstNode::Programm(nodes) => self.gen_program(nodes),
            AstNode::FunctionDecl(func) => self.gen_function(func),
            AstNode::ReturnStatement(data) => self.gen_return(data),
            AstNode::IntLiteralExpr(num) => self.gen_int_literal(num),
            AstNode::BoolLiteralExpr(val) => self.gen_bool_literal(val),
            AstNode::FloatLiteralExpr(num) => self.gen_float_literal(num),
            AstNode::StringLiteralExpr(val) => self.gen_string_literal(val),
            AstNode::BlockStatement(nodes) => self.gen_block(nodes),
            AstNode::BinaryExpr(data) => self.gen_binary_expr(data),
            AstNode::VarDeclStatement(data) => self.gen_var_decl(data),
            AstNode::AssignmentStatement(data) => self.gen_assignment(data),
            AstNode::VariableExpr(name) => self.gen_variable(name),
            AstNode::IfElseStatement(data) => self.gen_if_else(data),
            AstNode::CallExpr(data) => self.gen_call(data),
            AstNode::StructDecl(data) => self.gen_struct_decl(data),
            AstNode::MemberAccessExpr(data) => self.gen_member_access(data),
            AstNode::ArrayIndexExpr(data) => self.gen_array_index(data),
            AstNode::WhileStatement(data) => self.gen_while(data),
            AstNode::PrintStatement(expr) => self.gen_print(*expr),
        }
    }

    /// Generates the nodes of a list, in order.
    #[verifier::loop_isolation(false)]
    fn gen_nodes(&mut self, nodes: Vec<AstNode<'a>>) -> (r: Result<(), GeneratorError>)
        requires
            seq_gen(old(self).state(), nodes_view(nodes@), 0) is Some,
        ensures
            r is Ok,
            seq_gen(old(self).state(), nodes_view(nodes@), 0) == Some(final(self).state()),
        decreases nodes, 0int,
    {
        let ghost orig = nodes@;
        let ghost ns = nodes_view(orig);
        let total = nodes.len();
        let mut rest = nodes;
        let mut k: usize = 0;
        while rest.len() > 0
            invariant
                total == orig.len(),
                ns == nodes_view(orig),
                rest@ == orig.subrange(k as int, orig.len() as int),
                k + rest@.len() == orig.len(),
                seq_gen(old(self).state(), ns, 0) == seq_gen(self.state(), ns, k as int),
                seq_gen(self.state(), ns, k as int) is Some,
            decreases rest@.len(),
        {
            let node = rest.remove(0);
            assert(node == orig[k as int]);
            assert(ns[k as int] == node_view(node));
            proof { assert(decreases_to!(nodes => orig[k as int])); }
            match self.generate(node) {
                Ok(_) => {},
                Err(e) => return Err(e),
            }
            k += 1;
        }
        Ok(())
    }

    fn gen_program(&mut self, nodes: Vec<AstNode<'a>>) -> (r: Result<(), GeneratorError>)
        requires
            gen_spec(old(self).state(), node_view(AstNode::Programm(nodes))) is Some,
        ensures
            r is Ok,
            gen_spec(old(self).state(), node_view(AstNode::Programm(nodes))) == Some(final(self).state()),
        decreases nodes, 1int,
    {
        self.emit(".global _main\n.text\n\n");
        self.gen_nodes(nodes)
    }

    fn gen_function(&mut self, func: FunctionDeclData<'a>) -> (r: Result<(), GeneratorError>)
        requires
            gen_spec(old(self).state(), node_view(AstNode::FunctionDecl(func))) is Some,
        ensures
            r is Ok,
            gen_spec(old(self).state(), node_view(AstNode::FunctionDecl(func))) == Some(final(self).state()),
        decreases func, 1int,
    {
        self.local_vars = Vec::new();
        self.stack_offset = -8;
        assert(table(self.local_vars@) =~= Map::<Seq<char>, (int, Ty)>::empty());
        self.emit("_");
        self.emit(func.name);
        self.emit(":\n");
        self.emit("\tstp x29, x30, [sp, #-16]!\n\tmov x29, sp\n");
        self.emit("\tsub sp, sp, #256\n");
        let ghost ps = fields_view(func.parameter@);
        let ghost st1 = self.state();
        let mut i: usize = 0;
        while i < func.parameter.len()
            invariant
                i <= func.parameter@.len(),
                ps == fields_view(func.parameter@),
                params_gen(st1, ps, 0) == params_gen(self.state(), ps, i as int),
                params_gen(self.state(), ps, i as int) is Some,
            decreases func.parameter@.len() - i,
        {
            let param = &func.parameter[i];
            let offset = self.stack_offset;
            if matches!(param.param_typ, Type::Float) {
                self.emit("\tstr d");
            } else {
                self.emit("\tstr x");
            }
            self.emit_nat(i);
            self.emit(", [x29, ");
            self.emit_imm(offset);
            self.emit("]\n");
            let ghost before = self.state();
            push_entry(&mut self.local_vars, param.name, VarInfo { offset, typ: copy_type(&param.param_typ) });
            assert(self.state() == before.bind(param.name@, offset as int, param.param_typ@));
            self.stack_offset = self.stack_offset - 8;
            i += 1;
        }
        self.generate(*func.body)
    }

    fn gen_return(&mut self, data: ReturnData<'a>) -> (r: Result<(), GeneratorError>)
        requires
            gen_spec(old(self).state(), node_view(AstNode::ReturnStatement(data))) is Some,
        ensures
            r is Ok,
            gen_spec(old(self).state(), node_view(AstNode::ReturnStatement(data))) == Some(final(self).state()),
        decreases data, 1int,
    {
        match data.value {
            Some(val) => {
                assert(opt_view(data.value) == Some(Box::new(node_view(*val))));
                match self.generate(*val) {
                    Ok(_) => {},
                    Err(e) => return Err(e),
                }
            },
            None => self.emit("\tmov x0, #0\n"),
        }
        self.emit("\tmov sp, x29\n");
        self.emit("\tldp x29, x30, [sp], #16\n\tret\n");
        Ok(())
    }

    fn gen_int_literal(&mut self, num: i16) -> (r: Result<(), GeneratorError>)
        ensures
            r is Ok,
            gen_spec(old(self).state(), Node::IntLit(num)) == Some(final(self).state()),
    {
        self.emit("\tmov x0, #");
        self.emit_int(num as i64);
        self.emit("\n");
        Ok(())
    }

    fn gen_bool_literal(&mut self, val: bool) -> (r: Result<(), GeneratorError>)
        ensures
            r is Ok,
            gen_spec(old(self).state(), Node::BoolLit(val)) == Some(final(self).state()),
    {
        if val {
            self.emit("\tmov x0, #1\n");
        } else {
            self.emit("\tmov x0, #0\n");
        }
        Ok(())
    }

    /// A float literal is placed in the constant section, under a fresh label, as written.
    fn gen_float_literal(&mut self, num: &'a str) -> (r: Result<(), GeneratorError>)
        requires
            gen_spec(old(self).state(), Node::FloatLit(num@)) is Some,
        ensures
            r is Ok,
            gen_spec(old(self).state(), Node::FloatLit(num@)) == Some(final(self).state()),
    {
        let label_idx = self.fresh_label();
        self.emit("\t.section __TEXT,__const\n");
        self.emit("\t.align 3\n");
        self.emit("L_float_");
        self.emit_nat(label_idx);
        self.emit(":\n");
        self.emit("\t.double ");
        self.emit(num);
        self.emit("\n");
        self.emit("\t.text\n");
        self.emit("\tadrp x16, L_float_");
        self.emit_nat(label_idx);
        self.emit("@PAGE\n");
        self.emit("\tldr d0, [x16, L_float_");
        self.emit_nat(label_idx);
        self.emit("@PAGEOFF]\n");
        Ok(())
    }

    fn gen_string_literal(&mut self, val: &'a str) -> (r: Result<(), GeneratorError>)
        requires
            gen_spec(old(self).state(), Node::StringLit(val@)) is Some,
        ensures
            r is Ok,
            gen_spec(old(self).state(), Node::StringLit(val@)) == Some(final(self).state()),
    {
        let label_idx = self.fresh_label();
        self.emit("\t.section __TEXT,__cstring\n");
        self.emit("L_str_");
        self.emit_nat(label_idx);
        self.emit(":\n");
        self.emit("\t.asciz \"");
        self.emit(val);
        self.emit("\"\n");
        self.emit("\t.text\n");
        self.emit("\tadrp x0, L_str_");
        self.emit_nat(label_idx);
        self.emit("@PAGE\n");
        self.emit("\tadd x0, x0, L_str_");
        self.emit_nat(label_idx);
        self.emit("@PAGEOFF\n");
        Ok(())
    }

    fn gen_block(&mut self, data: BlockStatementData<'a>) -> (r: Result<(), GeneratorError>)
        requires
            gen_spec(old(self).state(), node_view(AstNode::BlockStatement(data))) is Some,
        ensures
            r is Ok,
            gen_spec(old(self).state(), node_view(AstNode::BlockStatement(data))) == Some(final(self).state()),
        decreases data, 1int,
    {
        self.gen_nodes(data.statements)
    }

    fn gen_binary_expr(&mut self, data: BinaryExpData<'a>) -> (r: Result<(), GeneratorError>)
        requires
            gen_spec(old(self).state(), node_view(AstNode::BinaryExpr(data))) is Some,
        ensures
            r is Ok,
            gen_spec(old(self).state(), node_view(AstNode::BinaryExpr(data))) == Some(final(self).state()),
        decreases data, 1int,
    {
        let left_type = self.expr_type(&data.left);
        let float = matches!(left_type, Type::Float);
        match self.generate(*data.left) {
            Ok(_) => {},
            Err(e) => return Err(e),
        }
        if float {
            self.emit("\tstr d0, [sp, #-16]!\n");
        } else {
            self.emit("\tstr x0, [sp, #-16]!\n");
        }
        match self.generate(*data.right) {
            Ok(_) => {},
            Err(e) => return Err(e),
        }
        if float {
            self.emit("\tldr d1, [sp], #16\n");
            match data.operator {
                BinaryOperator::Add => self.emit("\tfadd d0, d1, d0\n"),
                BinaryOperator::Sub => self.emit("\tfsub d0, d1, d0\n"),
                BinaryOperator::Mul => self.emit("\tfmul d0, d1, d0\n"),
                BinaryOperator::Div => self.emit("\tfdiv d0, d1, d0\n"),
                BinaryOperator::DoubleEqual => self.emit("\tfcmp d1, d0\n\tcset x0, eq\n"),
                BinaryOperator::LessThan => self.emit("\tfcmp d1, d0\n\tcset x0, lt\n"),
                BinaryOperator::GreaterThan => self.emit("\tfcmp d1, d0\n\tcset x0, gt\n"),
                BinaryOperator::LessOrEqual => self.emit("\tfcmp d1, d0\n\tcset x0, le\n"),
                BinaryOperator::GreaterOrEqual => self.emit("\tfcmp d1, d0\n\tcset x0, ge\n"),
            }
        } else {
            self.emit("\tldr x1, [sp], #16\n");
            match data.operator {
                BinaryOperator::Add => self.emit("\tadd x0, x1, x0\n"),
                BinaryOperator::Sub => self.emit("\tsub x0, x1, x0\n"),
                BinaryOperator::Mul => self.emit("\tmul x0, x1, x0\n"),
                BinaryOperator::Div => self.emit("\tsdiv x0, x1, x0\n"),
                BinaryOperator::DoubleEqual => self.emit("\tcmp x1, x0\n\tcset x0, eq\n"),
                BinaryOperator::LessThan => self.emit("\tcmp x1, x0\n\tcset x0, lt\n"),
                BinaryOperator::GreaterThan => self.emit("\tcmp x1, x0\n\tcset x0, gt\n"),
                BinaryOperator::LessOrEqual => self.emit("\tcmp x1, x0\n\tcset x0, le\n"),
                BinaryOperator::GreaterOrEqual => self.emit("\tcmp x1, x0\n\tcset x0, ge\n"),
            }
        }
        Ok(())
    }

    fn gen_var_decl(&mut self, data: VarDeclData<'a>) -> (r: Result<(), GeneratorError>)
        requires
            gen_spec(old(self).state(), node_view(AstNode::VarDeclStatement(data))) is Some,
        ensures
            r is Ok,
            gen_spec(old(self).state(), node_view(AstNode::VarDeclStatement(data))) == Some(final(self).state()),
        decreases data, 1int,
    {
        let is_float = matches!(data.var_typ, Type::Float);
        match data.initializer {
            Some(init) => {
                assert(opt_view(data.initializer) == Some(Box::new(node_view(*init))));
                match self.generate(*init) {
                    Ok(_) => {},
                    Err(e) => return Err(e),
                }
            },
            None => {
                if is_float {
                    self.emit("\tfmov d0, #0.0\n");
                } else {
                    self.emit("\tmov x0, #0\n");
                }
            },
        }
        let size = Self::type_size(&data.var_typ, &self.struct_layouts, Ghost((self.struct_layouts@.len() + 1) as nat));
        self.stack_offset = self.stack_offset - size;
        let offset = self.stack_offset;
        let ghost before = self.state();
        push_entry(&mut self.local_vars, data.name, VarInfo { offset, typ: copy_type(&data.var_typ) });
        assert(self.state() == before.bind(data.name@, offset as int, data.var_typ@));
        self.stack_offset = self.stack_offset - size;
        if is_float {
            self.emit("\tstr d0, [x29, ");
            self.emit_imm(offset);
            self.emit("]\n");
        } else if !matches!(data.var_typ, Type::Struct(_) | Type::Array(_)) {
            self.emit("\tstr x0, [x29, ");
            self.emit_imm(offset);
            self.emit("]\n");
        }
        Ok(())
    }

    fn gen_variable(&mut self, name: &'a str) -> (r: Result<(), GeneratorError>)
        requires
            gen_spec(old(self).state(), Node::Variable(name@)) is Some,
        ensures
            r is Ok,
            gen_spec(old(self).state(), Node::Variable(name@)) == Some(final(self).state()),
    {
        let j = match find_key(&self.local_vars, name) {
            Some(j) => j,
            None => return unsupported("Undefined variable in code generator"),
        };
        let offset = self.local_vars[j].1.offset;
        match &self.local_vars[j].1.typ {
            Type::Struct(_) | Type::Array(_) => {
                self.emit("\tadd x0, x29, ");
                self.emit_imm(offset);
                self.emit("\n");
            },
            Type::Float => {
                self.emit("\tldr d0, [x29, ");
                self.emit_imm(offset);
                self.emit("]\n");
            },
            _ => {
                self.emit("\tldr x0, [x29, ");
                self.emit_imm(offset);
                self.emit("]\n");
            },
        }
        Ok(())
    }
}

impl<'a> Generator<'a> {
    /// The offset and type of field `member` of struct `sn`.
    fn member_slot(&self, sn: &str, member: &str) -> (r: Option<(i32, Type<'a>)>)
        ensures
            match r {
                Some((off, t)) => member_slot(self.state(), sn@, member@) == Some((off as int, t@)),
                None => member_slot(self.state(), sn@, member@) is None,
            },
    {
        match find_key(&self.struct_layouts, sn) {
            None => None,
            Some(j) => {
                let fields = &self.struct_layouts[j].1.fields;
                match find_key(fields, member) {
                    None => None,
                    Some(q) => Some((fields[q].1.offset, copy_type(&fields[q].1.typ))),
                }
            },
        }
    }

    fn gen_assignment(&mut self, data: AssignmentData<'a>) -> (r: Result<(), GeneratorError>)
        requires
            gen_spec(old(self).state(), node_view(AstNode::AssignmentStatement(data))) is Some,
        ensures
            r is Ok,
            gen_spec(old(self).state(), node_view(AstNode::AssignmentStatement(data))) == Some(final(self).state()),
        decreases data, 1int,
    {
        proof { reveal_with_fuel(node_view, 2); }
        match *data.target {
            AstNode::VariableExpr(name) => {
                let j = match find_key(&self.local_vars, name) {
                    Some(j) => j,
                    None => return unsupported("Undefined variable in code generator"),
                };
                let is_float = matches!(self.local_vars[j].1.typ, Type::Float);
                let offset = self.local_vars[j].1.offset;
                match self.generate(*data.value) {
                    Ok(_) => {},
                    Err(e) => return Err(e),
                }
                if is_float {
                    self.emit("\tstr d0, [x29, ");
                } else {
                    self.emit("\tstr x0, [x29, ");
                }
                self.emit_imm(offset);
                self.emit("]\n");
            },
            AstNode::MemberAccessExpr(member_data) => {
                let obj_type = self.expr_type(&member_data.object);
                let struct_name = match obj_type {
                    Type::Struct(name) => name,
                    _ => return unsupported("Member access on non-struct"),
                };
                let (offset, field_type) = match self.member_slot(struct_name, member_data.member.as_str()) {
                    Some(slot) => slot,
                    None => return unsupported("Unknown struct field in code generator"),
                };
                match self.generate(*member_data.object) {
                    Ok(_) => {},
                    Err(e) => return Err(e),
                }
                self.emit("\tstr x0, [sp, #-16]!\n");
                match self.generate(*data.value) {
                    Ok(_) => {},
                    Err(e) => return Err(e),
                }
                self.emit("\tldr x1, [sp], #16\n");
                if matches!(field_type, Type::Float) {
                    self.emit("\tstr d0, [x1, ");
                } else {
                    self.emit("\tstr x0, [x1, ");
                }
                self.emit_imm(offset);
                self.emit("]\n");
            },
            AstNode::ArrayIndexExpr(array_data) => {
                let array_type = self.expr_type(&array_data.array);
                let inner_float = match &array_type {
                    Type::Array(inner) => {
                        assert(array_type@ == Ty::Array(Box::new((**inner)@)));
                        matches!(**inner, Type::Float)
                    },
                    _ => return unsupported("Assignment index on non-array"),
                };
                match self.generate(*array_data.array) {
                    Ok(_) => {},
                    Err(e) => return Err(e),
                }
                self.emit("\tstr x0, [sp, #-16]!\n");
                match self.generate(*array_data.index) {
                    Ok(_) => {},
                    Err(e) => return Err(e),
                }
                self.emit("\tldr x1, [sp], #16\n");
                self.emit("\tmov x2, #8\n");
                self.emit("\tmul x0, x0, x2\n");
                self.emit("\tadd x0, x1, x0\n");
                self.emit("\tstr x0, [sp, #-16]!\n");
                match self.generate(*data.value) {
                    Ok(_) => {},
                    Err(e) => return Err(e),
                }
                self.emit("\tldr x1, [sp], #16\n");
                if inner_float {
                    self.emit("\tstr d0, [x1]\n");
                } else {
                    self.emit("\tstr x0, [x1]\n");
                }
            },
            _ => return unsupported("Invalid assignment target"),
        }
        Ok(())
    }

    fn gen_if_else(&mut self, data: IfElseData<'a>) -> (r: Result<(), GeneratorError>)
        requires
            gen_spec(old(self).state(), node_view(AstNode::IfElseStatement(data))) is Some,
        ensures
            r is Ok,
            gen_spec(old(self).state(), node_view(AstNode::IfElseStatement(data))) == Some(final(self).state()),
        decreases data, 1int,
    {
        let label_idx = self.fresh_label();
        match self.generate(*data.condition_expr) {
            Ok(_) => {},
            Err(e) => return Err(e),
        }
        self.emit("\tcbz x0, ");
        if data.else_branch.is_some() {
            self.emit(".L_else_");
        } else {
            self.emit(".L_end_");
        }
        self.emit_nat(label_idx);
        self.emit("\n");
        match self.generate(*data.if_branch) {
            Ok(_) => {},
            Err(e) => return Err(e),
        }
        match data.else_branch {
            Some(else_node) => {
                assert(opt_view(data.else_branch) == Some(Box::new(node_view(*else_node))));
                self.emit("\tb .L_end_");
                self.emit_nat(label_idx);
                self.emit("\n");
                self.emit(".L_else_");
                self.emit_nat(label_idx);
                self.emit(":\n");
                match self.generate(*else_node) {
                    Ok(_) => {},
                    Err(e) => return Err(e),
                }
            },
            None => {},
        }
        self.emit(".L_end_");
        self.emit_nat(label_idx);
        self.emit(":\n");
        Ok(())
    }

    #[verifier::loop_isolation(false)]
    fn gen_call(&mut self, data: CallData<'a>) -> (r: Result<(), GeneratorError>)
        requires
            gen_spec(old(self).state(), node_view(AstNode::CallExpr(data))) is Some,
        ensures
            r is Ok,
            gen_spec(old(self).state(), node_view(AstNode::CallExpr(data))) == Some(final(self).state()),
        decreases data, 1int,
    {
        let arg_count = data.arguments.len();
        let ghost orig = data.arguments@;
        let ghost args = nodes_view(orig);
        let mut rest = data.arguments;
        let mut k: usize = 0;
        while rest.len() > 0
            invariant
                k <= orig.len(),
                args == nodes_view(orig),
                rest@ == orig.subrange(k as int, orig.len() as int),
                k + rest@.len() == orig.len(),
                args_gen(old(self).state(), args, 0) == args_gen(self.state(), args, k as int),
                args_gen(self.state(), args, k as int) is Some,
            decreases rest@.len(),
        {
            let arg = rest.remove(0);
            assert(arg == orig[k as int]);
            assert(args[k as int] == node_view(arg));
            proof { assert(decreases_to!(data => orig[k as int])); }
            let arg_type = self.expr_type(&arg);
            match self.generate(arg) {
                Ok(_) => {},
                Err(e) => return Err(e),
            }
            if matches!(arg_type, Type::Float) {
                self.emit("\tstr d0, [sp, #-16]!\n");
            } else {
                self.emit("\tstr x0, [sp, #-16]!\n");
            }
            k += 1;
        }
        let mut i = arg_count;
        while i > 0
            invariant
                i <= arg_count,
                arg_count == args.len(),
                pops_gen(args_gen(old(self).state(), args, 0)->Some_0, arg_count as int)
                    == pops_gen(self.state(), i as int),
            decreases i,
        {
            self.emit("\tldr x");
            self.emit_nat(i - 1);
            self.emit(", [sp], #16\n");
            i -= 1;
        }
        self.emit("\tbl _");
        self.emit(data.name);
        self.emit("\n");
        Ok(())
    }

    fn gen_struct_decl(&mut self, data: StructDeclData<'a>) -> (r: Result<(), GeneratorError>)
        requires
            gen_spec(old(self).state(), node_view(AstNode::StructDecl(data))) is Some,
        ensures
            r is Ok,
            gen_spec(old(self).state(), node_view(AstNode::StructDecl(data))) == Some(final(self).state()),
    {
        let ghost st = self.state();
        let ghost fs = fields_view(data.fields@);
        let mut field_layouts = Layout { fields: Vec::new() };
        assert(field_layouts@ =~= Seq::<SlotSpec>::empty());
        let mut current_offset: i32 = 0;
        let mut i: usize = 0;
        while i < data.fields.len()
            invariant
                i <= data.fields@.len(),
                fs == fields_view(data.fields@),
                st == self.state(),
                layout_gen(st, fs, 0, 0, Seq::empty())
                    == layout_gen(st, fs, i as int, current_offset as int, field_layouts@),
                layout_gen(st, fs, i as int, current_offset as int, field_layouts@) is Some,
            decreases data.fields@.len() - i,
        {
            let field = &data.fields[i];
            let size = Self::type_size(&field.param_typ, &self.struct_layouts, Ghost((self.struct_layouts@.len() + 1) as nat));
            let ghost before = field_layouts@;
            push_entry(&mut field_layouts.fields, field.name, VarInfo { offset: current_offset, typ: copy_type(&field.param_typ) });
            assert(field_layouts@ =~= before.push((field.name@, (current_offset as int, field.param_typ@))));
            current_offset = current_offset + size;
            i += 1;
        }
        let ghost lv = field_layouts@;
        let ghost old_layouts = pairs_view(self.struct_layouts@);
        self.struct_layouts.push((data.name, field_layouts));
        assert(pairs_view(self.struct_layouts@) =~= old_layouts.push((data.name@, lv)));
        Ok(())
    }

    fn gen_member_access(&mut self, data: MemberAccessData<'a>) -> (r: Result<(), GeneratorError>)
        requires
            gen_spec(old(self).state(), node_view(AstNode::MemberAccessExpr(data))) is Some,
        ensures
            r is Ok,
            gen_spec(old(self).state(), node_view(AstNode::MemberAccessExpr(data))) == Some(final(self).state()),
        decreases data, 1int,
    {
        let obj_type = self.expr_type(&data.object);
        let struct_name = match obj_type {
            Type::Struct(name) => name,
            _ => return unsupported("Member access on non-struct"),
        };
        let (offset, field_type) = match self.member_slot(struct_name, data.member.as_str()) {
            Some(slot) => slot,
            None => return unsupported("Unknown struct field in code generator"),
        };
        match self.generate(*data.object) {
            Ok(_) => {},
            Err(e) => return Err(e),
        }
        if matches!(field_type, Type::Float) {
            self.emit("\tldr d0, [x0, ");
        } else {
            self.emit("\tldr x0, [x0, ");
        }
        self.emit_imm(offset);
        self.emit("]\n");
        Ok(())
    }

    fn gen_array_index(&mut self, data: ArrayIndexData<'a>) -> (r: Result<(), GeneratorError>)
        requires
            gen_spec(old(self).state(), node_view(AstNode::ArrayIndexExpr(data))) is Some,
        ensures
            r is Ok,
            gen_spec(old(self).state(), node_view(AstNode::ArrayIndexExpr(data))) == Some(final(self).state()),
        decreases data, 1int,
    {
        let array_type = self.expr_type(&data.array);
        let inner_float = match &array_type {
            Type::Array(inner) => {
                assert(array_type@ == Ty::Array(Box::new((**inner)@)));
                matches!(**inner, Type::Float)
            },
            _ => return unsupported("Index expression on non-array"),
        };
        match self.generate(*data.array) {
            Ok(_) => {},
            Err(e) => return Err(e),
        }
        self.emit("\tstr x0, [sp, #-16]!\n");
        match self.generate(*data.index) {
            Ok(_) => {},
            Err(e) => return Err(e),
        }
        self.emit("\tldr x1, [sp], #16\n");
        self.emit("\tmov x2, #8\n");
        self.emit("\tmul x0, x0, x2\n");
        self.emit("\tadd x0, x1, x0\n");
        if inner_float {
            self.emit("\tldr d0, [x0]\n");
        } else {
            self.emit("\tldr x0, [x0]\n");
        }
        Ok(())
    }

    fn gen_while(&mut self, data: WhileLoopData<'a>) -> (r: Result<(), GeneratorError>)
        requires
            gen_spec(old(self).state(), node_view(AstNode::WhileStatement(data))) is Some,
        ensures
            r is Ok,
            gen_spec(old(self).state(), node_view(AstNode::WhileStatement(data))) == Some(final(self).state()),
        decreases data, 1int,
    {
        let label_idx = self.fresh_label();
        self.emit(".L_while_start_");
        self.emit_nat(label_idx);
        self.emit(":\n");
        match self.generate(*data.condition_expr) {
            Ok(_) => {},
            Err(e) => return Err(e),
        }
        self.emit("\tcbz x0, .L_while_end_");
        self.emit_nat(label_idx);
        self.emit("\n");
        match self.generate(*data.body) {
            Ok(_) => {},
            Err(e) => return Err(e),
        }
        self.emit("\tb .L_while_start_");
        self.emit_nat(label_idx);
        self.emit("\n");
        self.emit(".L_while_end_");
        self.emit_nat(label_idx);
        self.emit(":\n");
        Ok(())
    }

    /// Prints a value with `printf`, its format chosen by the value's type; the
    /// value is passed on the stack, as variadic arguments are on Apple platforms.
    fn gen_print(&mut self, expr: AstNode<'a>) -> (r: Result<(), GeneratorError>)
        requires
            gen_spec(old(self).state(), node_view(AstNode::PrintStatement(Box::new(expr)))) is Some,
        ensures
            r is Ok,
            gen_spec(old(self).state(), node_view(AstNode::PrintStatement(Box::new(expr)))) == Some(final(self).state()),
        decreases expr, 1int,
    {
        let expr_type = self.expr_type(&expr);
        match self.generate(expr) {
            Ok(_) => {},
            Err(e) => return Err(e),
        }
        let label_idx = self.fresh_label();
        self.emit("\t.section __TEXT,__cstring\n");
        self.emit("L_fmt_");
        self.emit_nat(label_idx);
        self.emit(":\n");
        self.emit("\t.asciz \"");
        match expr_type {
            Type::String => self.emit("%s\\n"),
            Type::Float => self.emit("%f\\n"),
            _ => self.emit("%d\\n"),
        }
        self.emit("\"\n");
        self.emit("\t.text\n");
        self.emit("\tsub sp, sp, #16\n");
        if matches!(expr_type, Type::Float) {
            self.emit("\tstr d0, [sp]\n");
        } else {
            self.emit("\tstr x0, [sp]\n");
        }
        self.emit("\tadrp x0, L_fmt_");
        self.emit_nat(label_idx);
        self.emit("@PAGE\n");
        self.emit("\tadd x0, x0, L_fmt_");
        self.emit_nat(label_idx);
        self.emit("@PAGEOFF\n");
        self.emit("\tbl _printf\n");
        self.emit("\tadd sp, sp, #16\n");
        Ok(())
    }
}

} // verus!
