//! Generating 6502 assembly from the low-level representation.
use vstd::prelude::*;
use crate::base_type::BaseType;
use crate::code::block::{operand, Code, CodeBlock, Global, Parameter};
use crate::code::register::{dsp_param, Register, RegisterAllocator, RegisterState};
use crate::error::Error;
use crate::llir::block as llir;
use crate::llir::common::unsupported;
use crate::llir::debug_text::statement_text;
use crate::src_tag::SrcTag;
use crate::symbol_table::{visible_with_ref, DefaultSymbolTable, SymbolEntry, SymbolName, SymbolRef, SymbolTable};

verus! {

/// Whether `x` is an error of code generation: one that says what cannot be
/// expressed, with no place in the source.
pub open spec fn code_error(x: Error) -> bool {
    x.0 matches crate::error::ErrorKind::TypeExprError(t, _) && t.0 == usize::MAX
}

/// Code emitted and the register state after it.
pub type Emit = (Seq<Code>, RegisterState);

/// The frame size of the first frame with the given handle.
pub open spec fn frame_size_in(frames: Seq<llir::FrameBlock>, symbol: SymbolRef) -> Option<i8>
    decreases frames.len(),
{
    if frames.len() == 0 {
        None
    } else if frames[0].symbol == symbol {
        Some(frames[0].frame_size)
    } else {
        frame_size_in(frames.drop_first(), symbol)
    }
}

/// The name of the symbol with the given handle.
pub open spec fn name_in(scopes: Seq<Seq<SymbolEntry>>, symbol: SymbolRef) -> Option<SymbolName> {
    match visible_with_ref(scopes, symbol) {
        Some(e) => Some(e.name),
        None => None,
    }
}

/// The operand for an absolute address: zero page below 256.
pub open spec fn address_parameter(addr: u16) -> Parameter {
    if addr < 256 {
        Parameter::ZeroPage(addr as u8)
    } else {
        Parameter::Absolute(Global::Resolved(addr))
    }
}

/// Loading the data stack pointer into X.
pub open spec fn dsp_into_x(st: RegisterState) -> Emit {
    st.load_dsp_from(Register::XIndex, 0)
}

/// First `a`, then loading `p` into `r`.
pub open spec fn then_load(a: Emit, r: Register, p: Parameter) -> Emit {
    let (c, s) = a.1.load(r, p);
    (a.0 + c, s)
}

/// Loading a value into a register: an immediate number as an immediate
/// byte; a value in memory through the operand for its place, with the
/// data stack pointer in X for frame places and the index in Y for indexed
/// ones. `None` when the value cannot be loaded.
pub open spec fn load_effect(
    st: RegisterState,
    r: Register,
    v: llir::Value,
    frames: Seq<llir::FrameBlock>,
    scopes: Seq<Seq<SymbolEntry>>,
) -> Option<Emit>
    decreases v,
{
    match v {
        llir::Value::Immediate(_, llir::ImmediateValue::Number(n)) => Some(
            st.load(r, Parameter::Immediate(n as u8)),
        ),
        llir::Value::Immediate(_, llir::ImmediateValue::Symbol(_)) => None,
        llir::Value::Memory(m) => match m.location {
            llir::Location::Global(addr) => Some(
                st.load(r, Parameter::Absolute(Global::Resolved(addr))),
            ),
            llir::Location::DataStackOffset(o) => Some(
                then_load(dsp_into_x(st), r, Parameter::ZeroPageX(o)),
            ),
            llir::Location::FrameOffset(f, o) => match frame_size_in(frames, f) {
                Some(fs) => Some(then_load(dsp_into_x(st), r, Parameter::ZeroPageX(o.wrapping_sub(fs)))),
                None => None,
            },
            llir::Location::FrameOffsetIndirect(f, o) => match frame_size_in(frames, f) {
                Some(fs) => Some(then_load(dsp_into_x(st), r, Parameter::IndirectX(o.wrapping_sub(fs)))),
                None => None,
            },
            llir::Location::FrameOffsetBeforeCall(of, cf, o) => match (
                frame_size_in(frames, of),
                frame_size_in(frames, cf),
            ) {
                (Some(ofs), Some(cfs)) => Some(
                    then_load(
                        dsp_into_x(st),
                        r,
                        Parameter::ZeroPageX(o.wrapping_sub(cfs).wrapping_sub(ofs)),
                    ),
                ),
                _ => None,
            },
            llir::Location::GlobalIndexed(addr, index) => match load_effect(
                st,
                Register::YIndex,
                *index,
                frames,
                scopes,
            ) {
                Some(e) => Some(then_load(e, r, Parameter::AbsoluteY(Global::Resolved(addr)))),
                None => None,
            },
            llir::Location::UnresolvedGlobal(sym) => match m.base_type {
                BaseType::U8 => Some(st.load(r, Parameter::Absolute(Global::UnresolvedSymbol(sym)))),
                BaseType::U16 | BaseType::Pointer(_) => Some(
                    st.load(r, Parameter::Absolute(Global::UnresolvedSymbolLowByte(sym))),
                ),
                _ => None,
            },
            llir::Location::UnresolvedGlobalLowByte(sym) => Some(
                st.load(r, Parameter::Absolute(Global::UnresolvedSymbolLowByte(sym))),
            ),
            llir::Location::UnresolvedGlobalHighByte(sym) => Some(
                st.load(r, Parameter::Absolute(Global::UnresolvedSymbolHighByte(sym))),
            ),
            _ => None,
        },
    }
}

/// The operand that names a place, with the code that loads the index of an
/// indexed place into Y first. `None` for places that no operand names.
pub open spec fn location_effect(
    st: RegisterState,
    l: llir::Location,
    frames: Seq<llir::FrameBlock>,
    scopes: Seq<Seq<SymbolEntry>>,
) -> Option<(Seq<Code>, RegisterState, Parameter)> {
    match l {
        llir::Location::Global(addr) => Some((Seq::empty(), st, address_parameter(addr))),
        llir::Location::GlobalIndexed(addr, index) => match load_effect(
            st,
            Register::YIndex,
            *index,
            frames,
            scopes,
        ) {
            Some(e) => Some((e.0, e.1, Parameter::AbsoluteY(Global::Resolved(addr)))),
            None => None,
        },
        llir::Location::DataStackOffset(o) => Some((Seq::empty(), st, Parameter::ZeroPageX(o))),
        llir::Location::FrameOffset(f, o) => match frame_size_in(frames, f) {
            Some(fs) => Some((Seq::empty(), st, Parameter::ZeroPageX(o.wrapping_sub(fs)))),
            None => None,
        },
        llir::Location::FrameOffsetIndirect(f, o) => match frame_size_in(frames, f) {
            Some(fs) => Some((Seq::empty(), st, Parameter::IndirectX(o.wrapping_sub(fs)))),
            None => None,
        },
        llir::Location::UnresolvedGlobal(sym) => Some(
            (Seq::empty(), st, Parameter::Absolute(Global::UnresolvedSymbol(sym))),
        ),
        llir::Location::UnresolvedGlobalIndexed(sym, index) => match load_effect(
            st,
            Register::YIndex,
            *index,
            frames,
            scopes,
        ) {
            Some(e) => Some((e.0, e.1, Parameter::Absolute(Global::UnresolvedSymbol(sym)))),
            None => None,
        },
        _ => None,
    }
}

/// Loading the data stack pointer into X when a place is relative to it.
pub open spec fn dsp_effect(st: RegisterState, l: llir::Location) -> Emit {
    match l {
        llir::Location::DataStackOffset(_) | llir::Location::FrameOffset(_, _)
        | llir::Location::FrameOffsetIndirect(_, _) => dsp_into_x(st),
        _ => (Seq::empty(), st),
    }
}

/// Storing the accumulator into a place, which is put off until the
/// accumulator changes.
pub open spec fn store_effect(
    st: RegisterState,
    l: llir::Location,
    frames: Seq<llir::FrameBlock>,
    scopes: Seq<Seq<SymbolEntry>>,
) -> Option<Emit> {
    let d = dsp_effect(st, l);
    match location_effect(d.1, l, frames, scopes) {
        Some((c, s, p)) => Some((d.0 + c, s.save_later(Register::Accum, p))),
        None => None,
    }
}

/// Loading the left operand into the accumulator and getting the operand
/// for the right one.
pub open spec fn prepare_effect(
    st: RegisterState,
    left: llir::Value,
    right: llir::Value,
    frames: Seq<llir::FrameBlock>,
    scopes: Seq<Seq<SymbolEntry>>,
) -> Option<(Seq<Code>, RegisterState, Parameter)> {
    match load_effect(st, Register::Accum, left, frames, scopes) {
        None => None,
        Some((c1, s1)) => match right {
            llir::Value::Immediate(_, llir::ImmediateValue::Number(n)) => Some(
                (c1, s1, Parameter::Immediate(n as u8)),
            ),
            llir::Value::Immediate(_, llir::ImmediateValue::Symbol(_)) => None,
            llir::Value::Memory(m) => {
                let d = dsp_effect(s1, m.location);
                match location_effect(d.1, m.location, frames, scopes) {
                    Some((c3, s3, p)) => Some((c1 + d.0 + c3, s3, p)),
                    None => None,
                }
            },
        },
    }
}

/// The operations that act on the accumulator and an operand.
#[derive(Debug, Clone, Copy, Eq, PartialEq, Structural)]
pub enum AccumOperation {
    Add,
    Subtract,
    CompareEq,
    CompareNotEq,
    CompareLt,
    CompareGte,
}

/// The code for an operation on the accumulator and `p`: additions and
/// subtractions directly; comparisons through the status flags, whose zero
/// flag (bit 2) or carry flag (bit 1) becomes the result.
pub open spec fn operation_effect(st: RegisterState, op: AccumOperation, p: Parameter) -> Emit {
    match op {
        AccumOperation::Add => st.accum_op(Code::Clc(Parameter::Implicit), Code::Adc(p)),
        AccumOperation::Subtract => st.accum_op(Code::Sec(Parameter::Implicit), Code::Sbc(p)),
        _ => {
            let (c, s) = st.accum_op(Code::Php(Parameter::Implicit), Code::Pla(Parameter::Implicit));
            let tail = match op {
                AccumOperation::CompareEq => seq![
                    Code::And(Parameter::Immediate(2)),
                    Code::Clc(Parameter::Implicit),
                    Code::Ror(Parameter::Implicit),
                ],
                AccumOperation::CompareNotEq => seq![
                    Code::Eor(Parameter::Immediate(2)),
                    Code::And(Parameter::Immediate(2)),
                    Code::Clc(Parameter::Implicit),
                    Code::Ror(Parameter::Implicit),
                ],
                AccumOperation::CompareLt => seq![
                    Code::Eor(Parameter::Immediate(1)),
                    Code::And(Parameter::Immediate(1)),
                ],
                _ => seq![Code::And(Parameter::Immediate(1))],
            };
            (seq![Code::Cmp(p)] + c + tail, s)
        },
    }
}

/// The code for `destination = left op right`.
pub open spec fn binary_effect(
    st: RegisterState,
    data: llir::BinaryOpData,
    op: AccumOperation,
    frames: Seq<llir::FrameBlock>,
    scopes: Seq<Seq<SymbolEntry>>,
) -> Option<Emit> {
    match prepare_effect(st, data.left, data.right, frames, scopes) {
        None => None,
        Some((c1, s1, p)) => {
            let (c2, s2) = operation_effect(s1, op, p);
            match store_effect(s2, data.destination, frames, scopes) {
                Some((c3, s3)) => Some((c1 + c2 + c3, s3)),
                None => None,
            }
        },
    }
}

/// The operand that jumps to a block by its handle, which the assembly
/// printer names.
pub open spec fn jump_target(scopes: Seq<Seq<SymbolEntry>>, symbol: SymbolRef) -> Option<Parameter> {
    Some(Parameter::Absolute(Global::UnresolvedSymbol(symbol)))
}

/// Flushing and forgetting every register before control leaves.
pub open spec fn reset_effect(st: RegisterState) -> Emit {
    (st.save_all_now().0, RegisterState::empty(st.next))
}

/// The amount that moves the data stack pointer, as a byte.
pub open spec fn sp_amount(offset: llir::SPOffset, frames: Seq<llir::FrameBlock>) -> Option<u8> {
    match offset {
        llir::SPOffset::Immediate(v) => Some(v as u8),
        llir::SPOffset::FrameSize(f) => match frame_size_in(frames, f) {
            Some(fs) => Some(fs as u8),
            None => None,
        },
        llir::SPOffset::NegativeFrameSize(f) => match frame_size_in(frames, f) {
            Some(fs) => Some((0i8).wrapping_sub(fs) as u8),
            None => None,
        },
    }
}

/// Moving the data stack pointer: it is loaded into the accumulator, the
/// amount is added, the result is to be stored back, and X is reloaded.
pub open spec fn stack_pointer_effect(st: RegisterState, d: llir::AddToDataStackPointerData, frames: Seq<llir::FrameBlock>) -> Option<Emit> {
    match sp_amount(d.offset, frames) {
        None => None,
        Some(amount) => {
            let (c1, s1) = st.load_dsp_from(Register::Accum, 0);
            let (c2, s2) = s1.accum_op(
                Code::Clc(Parameter::Implicit),
                Code::Adc(Parameter::Immediate(amount)),
            );
            let s3 = s2.save_later(Register::Accum, dsp_param());
            let (c4, s4) = s3.load_dsp_from(Register::XIndex, 0);
            Some((c1 + c2 + c4, s4))
        },
    }
}

/// A branch when a value is zero: every register is flushed, the value is
/// loaded into the accumulator, and `BEQ` jumps.
pub open spec fn branch_zero_effect(
    st: RegisterState,
    d: llir::BranchIfZeroData,
    frames: Seq<llir::FrameBlock>,
    scopes: Seq<Seq<SymbolEntry>>,
) -> Option<Emit> {
    let (c1, s1) = st.save_all_now();
    match (load_effect(s1, Register::Accum, d.value, frames, scopes), jump_target(scopes, d.destination)) {
        (Some((c2, s2)), Some(p)) => Some((c1 + c2 + seq![Code::Beq(p)], s2)),
        _ => None,
    }
}

/// The branch that follows a comparison for a flag, when it is set (or clear).
pub open spec fn flag_branch(
    scopes: Seq<Seq<SymbolEntry>>,
    target: Option<SymbolRef>,
    flag: llir::BranchFlag,
    when_set: bool,
) -> Option<Seq<Code>> {
    match target {
        Some(b) => match jump_target(scopes, b) {
            Some(t) => Some(seq![match (flag, when_set) {
                (llir::BranchFlag::Zero, true) => Code::Beq(t),
                (llir::BranchFlag::Carry, true) => Code::Bcs(t),
                (llir::BranchFlag::Zero, false) => Code::Bne(t),
                (llir::BranchFlag::Carry, false) => Code::Bcc(t),
            }]),
            None => None,
        },
        None => Some(Seq::empty()),
    }
}

/// Whether the 6502 takes the branch `c` with the carry and zero flags as
/// given: `BCS` when the carry is set, `BCC` when it is clear, `BEQ` when
/// zero is set, `BNE` when it is clear; no other line branches on a flag.
pub open spec fn branch_taken(c: Code, carry: bool, zero: bool) -> bool {
    match c {
        Code::Bcs(_) => carry,
        Code::Bcc(_) => !carry,
        Code::Beq(_) => zero,
        Code::Bne(_) => !zero,
        _ => false,
    }
}

/// The branch emitted for a flag of the low-level representation, to be
/// taken when it is set (or when it is clear), is one line that the 6502
/// takes exactly when that flag has that state, to the target's place; no
/// target needs no line.
pub proof fn lemma_flag_branch_polarity(
    scopes: Seq<Seq<SymbolEntry>>,
    target: Option<SymbolRef>,
    flag: llir::BranchFlag,
    when_set: bool,
    carry: bool,
    zero: bool,
)
    ensures
        flag_branch(scopes, target, flag, when_set) matches Some(cs) ==> match target {
            Some(b) => {
                &&& cs.len() == 1
                &&& branch_taken(cs[0], carry, zero) == ((match flag {
                    llir::BranchFlag::Carry => carry,
                    llir::BranchFlag::Zero => zero,
                }) == when_set)
                &&& operand(cs[0]) == jump_target(scopes, b)->0
            },
            None => cs.len() == 0,
        },
{
}

/// A comparison followed by branches on a flag.
pub open spec fn compare_branch_effect(
    st: RegisterState,
    d: llir::CompareBranchData,
    frames: Seq<llir::FrameBlock>,
    scopes: Seq<Seq<SymbolEntry>>,
) -> Option<Emit> {
    match prepare_effect(st, d.left, d.right, frames, scopes) {
        None => None,
        Some((c1, s1, p)) => match (
            flag_branch(scopes, d.branch_set, d.branch_flag, true),
            flag_branch(scopes, d.branch_clear, d.branch_flag, false),
        ) {
            (Some(a), Some(b)) => Some((c1 + seq![Code::Cmp(p)] + a + b, s1)),
            _ => None,
        },
    }
}

/// The code of a compare-and-branch ends with the compare, then the branch
/// to its set target, taken exactly when its flag is set, then the branch to
/// its clear target, taken exactly when its flag is clear (each only when it
/// has that target).
pub proof fn lemma_compare_branch_polarity(
    st: RegisterState,
    d: llir::CompareBranchData,
    frames: Seq<llir::FrameBlock>,
    scopes: Seq<Seq<SymbolEntry>>,
    carry: bool,
    zero: bool,
)
    ensures
        compare_branch_effect(st, d, frames, scopes) matches Some((c, _)) ==> {
            let m = (if d.branch_set is Some { 1int } else { 0 }) + (if d.branch_clear is Some { 1int } else { 0 });
            let set = match d.branch_flag {
                llir::BranchFlag::Carry => carry,
                llir::BranchFlag::Zero => zero,
            };
            &&& c.len() > m
            &&& c[c.len() - m - 1] is Cmp
            &&& (d.branch_set matches Some(b) ==> branch_taken(c[c.len() - m], carry, zero) == set && operand(
                c[c.len() - m],
            ) == jump_target(scopes, b)->0)
            &&& (d.branch_clear matches Some(b) ==> branch_taken(c.last(), carry, zero) == !set && operand(c.last())
                == jump_target(scopes, b)->0)
        },
{
    lemma_flag_branch_polarity(scopes, d.branch_set, d.branch_flag, true, carry, zero);
    lemma_flag_branch_polarity(scopes, d.branch_clear, d.branch_flag, false, carry, zero);
}

/// A copy: the value through the accumulator into its destination.
pub open spec fn copy_effect(
    st: RegisterState,
    d: llir::CopyData,
    frames: Seq<llir::FrameBlock>,
    scopes: Seq<Seq<SymbolEntry>>,
) -> Option<Emit> {
    match load_effect(st, Register::Accum, d.value, frames, scopes) {
        None => None,
        Some((c1, s1)) => match store_effect(s1, d.destination, frames, scopes) {
            Some((c2, s2)) => Some((c1 + c2, s2)),
            None => None,
        },
    }
}

/// Leaving the run by a jump, a call or a return: every register is
/// flushed and forgotten first.
pub open spec fn leave_effect(st: RegisterState, last: Code) -> Emit {
    let (c, s) = reset_effect(st);
    (c + seq![last], s)
}

/// Where a routine is called.
pub open spec fn routine_target(scopes: Seq<Seq<SymbolEntry>>, l: llir::Location) -> Option<Parameter> {
    match l {
        llir::Location::Global(addr) => Some(Parameter::Absolute(Global::Resolved(addr))),
        llir::Location::UnresolvedGlobal(sym) => jump_target(scopes, sym),
        _ => None,
    }
}

/// The code of one low-level statement. `None` when it cannot be expressed.
#[verifier::opaque]
pub open spec fn statement_effect(
    st: RegisterState,
    s: llir::Statement,
    frames: Seq<llir::FrameBlock>,
    scopes: Seq<Seq<SymbolEntry>>,
) -> Option<Emit> {
    match s {
        llir::Statement::Add(d) => binary_effect(st, d, AccumOperation::Add, frames, scopes),
        llir::Statement::Subtract(d) => binary_effect(st, d, AccumOperation::Subtract, frames, scopes),
        llir::Statement::CompareEq(d) => binary_effect(st, d, AccumOperation::CompareEq, frames, scopes),
        llir::Statement::CompareNotEq(d) => binary_effect(
            st,
            d,
            AccumOperation::CompareNotEq,
            frames,
            scopes,
        ),
        llir::Statement::CompareLt(d) => binary_effect(st, d, AccumOperation::CompareLt, frames, scopes),
        llir::Statement::CompareGte(d) => binary_effect(st, d, AccumOperation::CompareGte, frames, scopes),
        llir::Statement::AddToDataStackPointer(d) => stack_pointer_effect(st, d, frames),
        llir::Statement::BranchIfZero(d) => branch_zero_effect(st, d, frames, scopes),
        llir::Statement::CompareBranch(d) => compare_branch_effect(st, d, frames, scopes),
        llir::Statement::Copy(d) => copy_effect(st, d, frames, scopes),
        llir::Statement::GoTo(d) => match jump_target(scopes, d.destination) {
            Some(p) => Some(leave_effect(st, Code::Jmp(p))),
            None => None,
        },
        llir::Statement::InlineAsm(d) => Some((seq![Code::InlineAsm(d.text)], st)),
        llir::Statement::JumpRoutine(d) => match routine_target(scopes, d.destination) {
            Some(p) => Some(leave_effect(st, Code::Jsr(p))),
            None => None,
        },
        llir::Statement::Return(_) => Some(leave_effect(st, Code::Rts(Parameter::Implicit))),
    }
}

/// The code of a sequence of statements, in order, each preceded by a
/// comment from `notes` (the note at the same index).
pub open spec fn statements_effect(
    st: RegisterState,
    ss: Seq<llir::Statement>,
    notes: Seq<String>,
    frames: Seq<llir::FrameBlock>,
    scopes: Seq<Seq<SymbolEntry>>,
) -> Option<Emit>
    decreases ss.len(),
{
    if ss.len() == 0 {
        Some((Seq::empty(), st))
    } else {
        match statements_effect(st, ss.drop_last(), notes.drop_last(), frames, scopes) {
            None => None,
            Some((c, s)) => match statement_effect(s, ss.last(), frames, scopes) {
                Some((c2, s2)) => Some((c + seq![Code::Comment(notes.last())] + c2, s2)),
                None => None,
            },
        }
    }
}

/// Whether each note is the text of the statement at the same index.
pub open spec fn describes(notes: Seq<String>, ss: Seq<llir::Statement>) -> bool {
    &&& notes.len() == ss.len()
    &&& forall|i: int| 0 <= i < ss.len() ==> (#[trigger] notes[i])@ == statement_text(ss[i])
}

/// The code of a run: its statements from a fresh register state, each
/// preceded by its note, then every register flushed.
pub open spec fn run_code(
    ss: Seq<llir::Statement>,
    notes: Seq<String>,
    frames: Seq<llir::FrameBlock>,
    scopes: Seq<Seq<SymbolEntry>>,
) -> Option<Seq<Code>> {
    match statements_effect(RegisterState::empty(0), ss, notes, frames, scopes) {
        Some((c, s)) => Some(c + s.save_all_now().0),
        None => None,
    }
}

/// Whether `body` is the code of the run, each statement preceded by a
/// comment that holds its text.
pub open spec fn run_code_is(
    ss: Seq<llir::Statement>,
    frames: Seq<llir::FrameBlock>,
    scopes: Seq<Seq<SymbolEntry>>,
    body: Seq<Code>,
) -> bool {
    exists|notes: Seq<String>|
        describes(notes, ss) && #[trigger] run_code(ss, notes, frames, scopes) == Some(body)
}

/// Whether every statement of the run can be expressed in assembly (the
/// comments play no part in it).
pub open spec fn run_expressible(
    ss: Seq<llir::Statement>,
    frames: Seq<llir::FrameBlock>,
    scopes: Seq<Seq<SymbolEntry>>,
) -> bool {
    forall|notes: Seq<String>|
        notes.len() == ss.len() ==> (#[trigger] run_code(ss, notes, frames, scopes)) is Some
}

/// The notes change the code only in its comments: whether the statements
/// can be expressed, and the register state after them, do not depend on
/// them.
proof fn lemma_notes_irrelevant(
    st: RegisterState,
    ss: Seq<llir::Statement>,
    n1: Seq<String>,
    n2: Seq<String>,
    frames: Seq<llir::FrameBlock>,
    scopes: Seq<Seq<SymbolEntry>>,
)
    requires
        n1.len() == ss.len(),
        n2.len() == ss.len(),
    ensures
        statements_effect(st, ss, n1, frames, scopes) is Some <==> statements_effect(st, ss, n2, frames, scopes) is Some,
        statements_effect(st, ss, n1, frames, scopes) is Some ==> statements_effect(st, ss, n1, frames, scopes).unwrap().1
            == statements_effect(st, ss, n2, frames, scopes).unwrap().1,
    decreases ss.len(),
{
    if ss.len() > 0 {
        lemma_notes_irrelevant(st, ss.drop_last(), n1.drop_last(), n2.drop_last(), frames, scopes);
    }
}

/// Generates the assembly of one run of low-level statements.
pub struct CodeGenerator<'a> {
    llir_blocks: &'a Vec<llir::FrameBlock>,
    names: &'a DefaultSymbolTable,
    registers: RegisterAllocator,
    code: Vec<Code>,
}

impl<'a> CodeGenerator<'a> {
    /// The frames whose sizes the code reads.
    pub closed spec fn frames(&self) -> Seq<llir::FrameBlock> {
        self.llir_blocks@
    }

    /// The scopes that name the labels and symbols.
    pub closed spec fn scopes(&self) -> Seq<Seq<SymbolEntry>> {
        self.names.scopes()
    }

    /// The code generated so far.
    pub closed spec fn emitted(&self) -> Seq<Code> {
        self.code@
    }

    /// What the registers hold.
    pub closed spec fn state(&self) -> RegisterState {
        self.registers@
    }

    pub closed spec fn unchanged_context(&self, other: &CodeGenerator<'a>) -> bool {
        self.llir_blocks == other.llir_blocks && self.names == other.names
    }

    pub fn new(names: &'a DefaultSymbolTable, llir_blocks: &'a Vec<llir::FrameBlock>) -> (r: CodeGenerator<'a>)
        ensures
            r.frames() == llir_blocks@,
            r.scopes() == names.scopes(),
            r.state() == RegisterState::empty(0),
            r.emitted().len() == 0,
    {
        CodeGenerator { llir_blocks, names, registers: RegisterAllocator::new(), code: Vec::new() }
    }

    /// The frame size of the frame with the given handle.
    fn lookup_frame_size(&self, symbol: SymbolRef) -> (r: Result<i8, Error>)
        ensures
            r matches Err(x) ==> code_error(x),
            match frame_size_in(self.frames(), symbol) {
                Some(s) => r == Ok::<i8, Error>(s),
                None => r is Err,
            },
    {
        let mut i: usize = 0;
        proof {
            assert(self.frames().skip(0) =~= self.frames());
        }
        while i < self.llir_blocks.len()
            invariant
                i <= self.llir_blocks@.len(),
                frame_size_in(self.frames(), symbol) == frame_size_in(self.frames().skip(i as int), symbol),
            decreases self.llir_blocks@.len() - i,
        {
            proof {
                assert(self.frames().skip(i as int).drop_first() =~= self.frames().skip(i + 1));
            }
            if self.llir_blocks[i].symbol == symbol {
                return Ok(self.llir_blocks[i].frame_size);
            }
            i += 1;
        }
        proof {
            assert(self.frames().skip(i as int) =~= Seq::<llir::FrameBlock>::empty());
        }
        Err(unsupported(SrcTag::invalid(), "Unknown frame"))
    }

    /// The operand that jumps to a block by its handle.
    fn jump_target(&self, symbol: SymbolRef) -> (r: Result<Parameter, Error>)
        ensures
            r matches Err(x) ==> code_error(x),
            match jump_target(self.scopes(), symbol) {
                Some(p) => r == Ok::<Parameter, Error>(p),
                None => r is Err,
            },
    {
        Ok(Parameter::Absolute(Global::UnresolvedSymbol(symbol)))
    }

    /// Loads the data stack pointer into X.
    fn load_dsp_into_x(&mut self)
        ensures
            final(self).unchanged_context(old(self)),
            (final(self).code@, final(self).registers@) == {
                let e = dsp_into_x(old(self).registers@);
                (old(self).code@ + e.0, e.1)
            },
    {
        self.registers.load_dsp(&mut self.code, Register::XIndex);
    }

    /// Loads a value into a register, as `load_effect` says.
    pub fn load_value(&mut self, register: Register, value: &llir::Value) -> (r: Result<(), Error>)
        requires
            register != Register::XIndex,
        ensures
            r matches Err(x) ==> code_error(x),
            final(self).unchanged_context(old(self)),
            match load_effect(old(self).state(), register, *value, old(self).frames(), old(self).scopes()) {
                Some((c, s)) => r is Ok && final(self).emitted() == old(self).emitted() + c
                    && final(self).state() == s,
                None => r is Err,
            },
        decreases *value,
    {
        let ghost st = self.registers@;
        let ghost code0 = self.code@;
        match value {
            llir::Value::Immediate(_, llir::ImmediateValue::Number(n)) => {
                self.registers.load(&mut self.code, register, Parameter::Immediate(*n as u8));
                Ok(())
            },
            llir::Value::Immediate(_, llir::ImmediateValue::Symbol(_)) => Err(
                unsupported(SrcTag::invalid(), "An address can't be loaded as a byte"),
            ),
            llir::Value::Memory(data) => match &data.location {
                llir::Location::Global(addr) => {
                    self.registers.load(&mut self.code, register, Parameter::Absolute(Global::Resolved(*addr)));
                    Ok(())
                },
                llir::Location::DataStackOffset(offset) => {
                    self.load_dsp_into_x();
                    self.registers.load(&mut self.code, register, Parameter::ZeroPageX(*offset));
                    proof {
                        assert(self.code@ =~= code0 + then_load(dsp_into_x(st), register, Parameter::ZeroPageX(*offset)).0);
                    }
                    Ok(())
                },
                llir::Location::FrameOffset(frame_ref, offset) => {
                    self.load_dsp_into_x();
                    let frame_size = match self.lookup_frame_size(*frame_ref) {
                        Ok(s) => s,
                        Err(x) => {
                            return Err(x);
                        },
                    };
                    self.registers.load(&mut self.code, register, Parameter::ZeroPageX(offset.wrapping_sub(frame_size)));
                    proof {
                        assert(self.code@ =~= code0 + then_load(dsp_into_x(st), register, Parameter::ZeroPageX(offset.wrapping_sub(frame_size))).0);
                    }
                    Ok(())
                },
                llir::Location::FrameOffsetIndirect(frame_ref, offset) => {
                    self.load_dsp_into_x();
                    let frame_size = match self.lookup_frame_size(*frame_ref) {
                        Ok(s) => s,
                        Err(x) => {
                            return Err(x);
                        },
                    };
                    self.registers.load(&mut self.code, register, Parameter::IndirectX(offset.wrapping_sub(frame_size)));
                    proof {
                        assert(self.code@ =~= code0 + then_load(dsp_into_x(st), register, Parameter::IndirectX(offset.wrapping_sub(frame_size))).0);
                    }
                    Ok(())
                },
                llir::Location::FrameOffsetBeforeCall(original_frame, calling_frame, offset) => {
                    let original_frame_size = match self.lookup_frame_size(*original_frame) {
                        Ok(s) => s,
                        Err(x) => {
                            return Err(x);
                        },
                    };
                    let call_to_frame_size = match self.lookup_frame_size(*calling_frame) {
                        Ok(s) => s,
                        Err(x) => {
                            return Err(x);
                        },
                    };
                    self.load_dsp_into_x();
                    let param = Parameter::ZeroPageX(offset.wrapping_sub(call_to_frame_size).wrapping_sub(original_frame_size));
                    self.registers.load(&mut self.code, register, param);
                    proof {
                        assert(self.code@ =~= code0 + then_load(dsp_into_x(st), register, param).0);
                    }
                    Ok(())
                },
                llir::Location::GlobalIndexed(addr, index) => {
                    match self.load_value(Register::YIndex, &**index) {
                        Ok(()) => {},
                        Err(x) => {
                            return Err(x);
                        },
                    }
                    let ghost mid = (self.code@, self.registers@);
                    self.registers.load(&mut self.code, register, Parameter::AbsoluteY(Global::Resolved(*addr)));
                    proof {
                        let e = load_effect(st, Register::YIndex, **index, self.frames(), self.scopes())->0;
                        assert(self.code@ =~= code0 + then_load(e, register, Parameter::AbsoluteY(Global::Resolved(*addr))).0);
                    }
                    Ok(())
                },
                llir::Location::UnresolvedGlobal(symbol_ref) => {
                    let param = match &data.base_type {
                        BaseType::U8 => Parameter::Absolute(Global::UnresolvedSymbol(*symbol_ref)),
                        BaseType::U16 | BaseType::Pointer(_) => Parameter::Absolute(
                            Global::UnresolvedSymbolLowByte(*symbol_ref),
                        ),
                        _ => {
                            return Err(unsupported(SrcTag::invalid(), "Only a byte or an address can be loaded"));
                        },
                    };
                    self.registers.load(&mut self.code, register, param);
                    Ok(())
                },
                llir::Location::UnresolvedGlobalLowByte(symbol_ref) => {
                    self.registers.load(&mut self.code, register, Parameter::Absolute(Global::UnresolvedSymbolLowByte(*symbol_ref)));
                    Ok(())
                },
                llir::Location::UnresolvedGlobalHighByte(symbol_ref) => {
                    self.registers.load(&mut self.code, register, Parameter::Absolute(Global::UnresolvedSymbolHighByte(*symbol_ref)));
                    Ok(())
                },
                _ => Err(unsupported(SrcTag::invalid(), "This place can't be loaded from")),
            },
        }
    }
}

impl<'a> CodeGenerator<'a> {
    /// The operand that names a place, loading an index into Y first, as
    /// `location_effect` says.
    fn location_to_parameter(&mut self, location: &llir::Location) -> (r: Result<Parameter, Error>)
        ensures
            r matches Err(x) ==> code_error(x),
            final(self).unchanged_context(old(self)),
            match location_effect(old(self).state(), *location, old(self).frames(), old(self).scopes()) {
                Some((c, s, p)) => r == Ok::<Parameter, Error>(p) && final(self).emitted() == old(self).emitted() + c
                    && final(self).state() == s,
                None => r is Err,
            },
    {
        match location {
            llir::Location::Global(addr) => {
                proof {
                    assert(self.code@ =~= old(self).code@ + Seq::<Code>::empty());
                }
                Ok(addr_param(*addr))
            },
            llir::Location::GlobalIndexed(addr, index) => {
                match self.load_value(Register::YIndex, &**index) {
                    Ok(()) => {},
                    Err(x) => {
                        return Err(x);
                    },
                }
                Ok(Parameter::AbsoluteY(Global::Resolved(*addr)))
            },
            llir::Location::DataStackOffset(offset) => {
                proof {
                    assert(self.code@ =~= old(self).code@ + Seq::<Code>::empty());
                }
                Ok(Parameter::ZeroPageX(*offset))
            },
            llir::Location::FrameOffset(frame_ref, offset) => {
                let frame_size = match self.lookup_frame_size(*frame_ref) {
                    Ok(s) => s,
                    Err(x) => {
                        return Err(x);
                    },
                };
                proof {
                    assert(self.code@ =~= old(self).code@ + Seq::<Code>::empty());
                }
                Ok(Parameter::ZeroPageX(offset.wrapping_sub(frame_size)))
            },
            llir::Location::FrameOffsetIndirect(frame_ref, offset) => {
                let frame_size = match self.lookup_frame_size(*frame_ref) {
                    Ok(s) => s,
                    Err(x) => {
                        return Err(x);
                    },
                };
                proof {
                    assert(self.code@ =~= old(self).code@ + Seq::<Code>::empty());
                }
                Ok(Parameter::IndirectX(offset.wrapping_sub(frame_size)))
            },
            llir::Location::UnresolvedGlobal(symbol) => {
                proof {
                    assert(self.code@ =~= old(self).code@ + Seq::<Code>::empty());
                }
                Ok(Parameter::Absolute(Global::UnresolvedSymbol(*symbol)))
            },
            llir::Location::UnresolvedGlobalIndexed(symbol, index) => {
                match self.load_value(Register::YIndex, &**index) {
                    Ok(()) => {},
                    Err(x) => {
                        return Err(x);
                    },
                }
                Ok(Parameter::Absolute(Global::UnresolvedSymbol(*symbol)))
            },
            _ => Err(unsupported(SrcTag::invalid(), "No operand names this place")),
        }
    }

    /// Loads the data stack pointer into X when a place is relative to it.
    fn load_stack_pointer_if_necessary(&mut self, location: &llir::Location)
        ensures
            final(self).unchanged_context(old(self)),
            final(self).emitted() == old(self).emitted() + dsp_effect(old(self).state(), *location).0,
            final(self).state() == dsp_effect(old(self).state(), *location).1,
    {
        match location {
            llir::Location::DataStackOffset(_) | llir::Location::FrameOffset(_, _)
            | llir::Location::FrameOffsetIndirect(_, _) => {
                self.load_dsp_into_x();
            },
            _ => {
                proof {
                    assert(self.code@ =~= old(self).code@ + Seq::<Code>::empty());
                }
            },
        }
    }

    /// Stores the accumulator into a place, as `store_effect` says.
    fn store_accum(&mut self, location: &llir::Location) -> (r: Result<(), Error>)
        ensures
            r matches Err(x) ==> code_error(x),
            final(self).unchanged_context(old(self)),
            match store_effect(old(self).state(), *location, old(self).frames(), old(self).scopes()) {
                Some((c, s)) => r is Ok && final(self).emitted() == old(self).emitted() + c
                    && final(self).state() == s,
                None => r is Err,
            },
    {
        let ghost code0 = self.code@;
        self.load_stack_pointer_if_necessary(location);
        let param = match self.location_to_parameter(location) {
            Ok(p) => p,
            Err(x) => {
                return Err(x);
            },
        };
        self.registers.save_later(Register::Accum, param);
        proof {
            let d = dsp_effect(old(self).state(), *location);
            let l = location_effect(d.1, *location, old(self).frames(), old(self).scopes())->0;
            assert(self.code@ =~= code0 + (d.0 + l.0));
        }
        Ok(())
    }

    /// Loads the left operand into the accumulator and returns the operand
    /// for the right one, as `prepare_effect` says.
    fn prepare_binary_op(&mut self, left: &llir::Value, right: &llir::Value) -> (r: Result<Parameter, Error>)
        ensures
            r matches Err(x) ==> code_error(x),
            final(self).unchanged_context(old(self)),
            match prepare_effect(old(self).state(), *left, *right, old(self).frames(), old(self).scopes()) {
                Some((c, s, p)) => r == Ok::<Parameter, Error>(p) && final(self).emitted() == old(self).emitted() + c
                    && final(self).state() == s,
                None => r is Err,
            },
    {
        let ghost code0 = self.code@;
        match self.load_value(Register::Accum, left) {
            Ok(()) => {},
            Err(x) => {
                return Err(x);
            },
        }
        let ghost code1 = self.code@;
        match right {
            llir::Value::Immediate(_, llir::ImmediateValue::Number(n)) => Ok(Parameter::Immediate(*n as u8)),
            llir::Value::Immediate(_, llir::ImmediateValue::Symbol(_)) => Err(
                unsupported(SrcTag::invalid(), "An address can't be an operand"),
            ),
            llir::Value::Memory(data) => {
                self.load_stack_pointer_if_necessary(&data.location);
                let ghost code2 = self.code@;
                let param = match self.location_to_parameter(&data.location) {
                    Ok(p) => p,
                    Err(x) => {
                        return Err(x);
                    },
                };
                proof {
                    assert(self.code@ =~= code0 + (code1.skip(code0.len() as int) + code2.skip(code1.len() as int)
                        + self.code@.skip(code2.len() as int)));
                }
                Ok(param)
            },
        }
    }

    /// Applies an operation to the accumulator and an operand, as
    /// `operation_effect` says.
    fn apply_operation(&mut self, op: AccumOperation, param: Parameter)
        ensures
            final(self).unchanged_context(old(self)),
            final(self).emitted() == old(self).emitted() + operation_effect(old(self).state(), op, param).0,
            final(self).state() == operation_effect(old(self).state(), op, param).1,
    {
        let ghost code0 = self.code@;
        match op {
            AccumOperation::Add => {
                self.registers.add(&mut self.code, param);
            },
            AccumOperation::Subtract => {
                self.registers.subtract(&mut self.code, param);
            },
            _ => {
                self.code.push(Code::Cmp(param));
                self.registers.load_status_into_accum(&mut self.code);
                match op {
                    AccumOperation::CompareEq => {
                        self.code.push(Code::And(Parameter::Immediate(2)));
                        self.code.push(Code::Clc(Parameter::Implicit));
                        self.code.push(Code::Ror(Parameter::Implicit));
                    },
                    AccumOperation::CompareNotEq => {
                        self.code.push(Code::Eor(Parameter::Immediate(2)));
                        self.code.push(Code::And(Parameter::Immediate(2)));
                        self.code.push(Code::Clc(Parameter::Implicit));
                        self.code.push(Code::Ror(Parameter::Implicit));
                    },
                    AccumOperation::CompareLt => {
                        self.code.push(Code::Eor(Parameter::Immediate(1)));
                        self.code.push(Code::And(Parameter::Immediate(1)));
                    },
                    _ => {
                        self.code.push(Code::And(Parameter::Immediate(1)));
                    },
                }
                proof {
                    assert(self.code@ =~= code0 + operation_effect(old(self).state(), op, param).0);
                }
            },
        }
    }

    /// Generates `destination = left op right`, as `binary_effect` says.
    fn generate_binary_op(&mut self, binary_op: &llir::BinaryOpData, op: AccumOperation) -> (r: Result<(), Error>)
        ensures
            r matches Err(x) ==> code_error(x),
            final(self).unchanged_context(old(self)),
            match binary_effect(old(self).state(), *binary_op, op, old(self).frames(), old(self).scopes()) {
                Some((c, s)) => r is Ok && final(self).emitted() == old(self).emitted() + c
                    && final(self).state() == s,
                None => r is Err,
            },
    {
        let ghost code0 = self.code@;
        let param = match self.prepare_binary_op(&binary_op.left, &binary_op.right) {
            Ok(p) => p,
            Err(x) => {
                return Err(x);
            },
        };
        let ghost code1 = self.code@;
        self.apply_operation(op, param);
        let ghost code2 = self.code@;
        match self.store_accum(&binary_op.destination) {
            Ok(()) => {},
            Err(x) => {
                return Err(x);
            },
        }
        proof {
            assert(self.code@ =~= code0 + code1.skip(code0.len() as int) + code2.skip(code1.len() as int)
                + self.code@.skip(code2.len() as int));
        }
        Ok(())
    }
}

/// The operand for an absolute address: zero page below 256.
fn addr_param(addr: u16) -> (r: Parameter)
    ensures
        r == address_parameter(addr),
{
    if addr < 256u16 {
        Parameter::ZeroPage(addr as u8)
    } else {
        Parameter::Absolute(Global::Resolved(addr))
    }
}

impl<'a> CodeGenerator<'a> {
    fn move_stack_pointer(&mut self, data: &llir::AddToDataStackPointerData) -> (r: Result<(), Error>)
        ensures
            r matches Err(x) ==> code_error(x),
            final(self).unchanged_context(old(self)),
            match stack_pointer_effect(old(self).state(), *data, old(self).frames()) {
                Some((c, s)) => r is Ok && final(self).emitted() == old(self).emitted() + c
                    && final(self).state() == s,
                None => r is Err,
            },
    {
        let ghost code0 = self.code@;
        let amount: u8 = match data.offset {
            llir::SPOffset::Immediate(val) => val as u8,
            llir::SPOffset::FrameSize(frame_ref) => match self.lookup_frame_size(frame_ref) {
                Ok(s) => s as u8,
                Err(x) => {
                    return Err(x);
                },
            },
            llir::SPOffset::NegativeFrameSize(frame_ref) => match self.lookup_frame_size(frame_ref) {
                Ok(s) => (0i8).wrapping_sub(s) as u8,
                Err(x) => {
                    return Err(x);
                },
            },
        };
        self.registers.load_dsp(&mut self.code, Register::Accum);
        let ghost code1 = self.code@;
        self.registers.add(&mut self.code, Parameter::Immediate(amount));
        let ghost code2 = self.code@;
        self.registers.save_dsp_later(Register::Accum);
        self.registers.load_dsp(&mut self.code, Register::XIndex);
        proof {
            assert(self.code@ =~= code0 + code1.skip(code0.len() as int) + code2.skip(
                code1.len() as int,
            ) + self.code@.skip(code2.len() as int));
        }
        Ok(())
    }

    fn branch_if_zero(&mut self, data: &llir::BranchIfZeroData) -> (r: Result<(), Error>)
        ensures
            r matches Err(x) ==> code_error(x),
            final(self).unchanged_context(old(self)),
            match branch_zero_effect(old(self).state(), *data, old(self).frames(), old(self).scopes()) {
                Some((c, s)) => r is Ok && final(self).emitted() == old(self).emitted() + c
                    && final(self).state() == s,
                None => r is Err,
            },
    {
        let ghost code0 = self.code@;
        self.registers.save_all_now(&mut self.code);
        let ghost code1 = self.code@;
        match self.load_value(Register::Accum, &data.value) {
            Ok(()) => {},
            Err(x) => {
                return Err(x);
            },
        }
        let ghost code2 = self.code@;
        let target = match self.jump_target(data.destination) {
            Ok(p) => p,
            Err(x) => {
                return Err(x);
            },
        };
        self.code.push(Code::Beq(target));
        proof {
            assert(self.code@ =~= code0 + code1.skip(code0.len() as int) + code2.skip(
                code1.len() as int,
            ) + self.code@.skip(code2.len() as int));
        }
        Ok(())
    }

    fn flag_branch(&self, target: Option<SymbolRef>, flag: llir::BranchFlag, when_set: bool) -> (r: Result<Option<Code>, Error>)
        ensures
            r matches Err(x) ==> code_error(x),
            match flag_branch(self.scopes(), target, flag, when_set) {
                Some(c) => r matches Ok(o) && c == match o {
                    Some(code) => seq![code],
                    None => Seq::<Code>::empty(),
                },
                None => r is Err,
            },
    {
        match target {
            Some(b) => match self.jump_target(b) {
                Ok(t) => Ok(
                    Some(
                        match (flag, when_set) {
                            (llir::BranchFlag::Zero, true) => Code::Beq(t),
                            (llir::BranchFlag::Carry, true) => Code::Bcs(t),
                            (llir::BranchFlag::Zero, false) => Code::Bne(t),
                            (llir::BranchFlag::Carry, false) => Code::Bcc(t),
                        },
                    ),
                ),
                Err(x) => Err(x),
            },
            None => Ok(None),
        }
    }

    fn compare_branch(&mut self, data: &llir::CompareBranchData) -> (r: Result<(), Error>)
        ensures
            r matches Err(x) ==> code_error(x),
            final(self).unchanged_context(old(self)),
            match compare_branch_effect(old(self).state(), *data, old(self).frames(), old(self).scopes()) {
                Some((c, s)) => r is Ok && final(self).emitted() == old(self).emitted() + c
                    && final(self).state() == s,
                None => r is Err,
            },
    {
        let ghost code0 = self.code@;
        let param = match self.prepare_binary_op(&data.left, &data.right) {
            Ok(p) => p,
            Err(x) => {
                return Err(x);
            },
        };
        let ghost code1 = self.code@;
        let set = match self.flag_branch(data.branch_set, data.branch_flag, true) {
            Ok(o) => o,
            Err(x) => {
                return Err(x);
            },
        };
        let clear = match self.flag_branch(data.branch_clear, data.branch_flag, false) {
            Ok(o) => o,
            Err(x) => {
                return Err(x);
            },
        };
        self.code.push(Code::Cmp(param));
        if let Some(code) = set {
            self.code.push(code);
        }
        if let Some(code) = clear {
            self.code.push(code);
        }
        proof {
            assert(self.code@ =~= code0 + code1.skip(code0.len() as int) + self.code@.skip(
                code1.len() as int,
            ));
        }
        Ok(())
    }

    fn copy(&mut self, data: &llir::CopyData) -> (r: Result<(), Error>)
        ensures
            r matches Err(x) ==> code_error(x),
            final(self).unchanged_context(old(self)),
            match copy_effect(old(self).state(), *data, old(self).frames(), old(self).scopes()) {
                Some((c, s)) => r is Ok && final(self).emitted() == old(self).emitted() + c
                    && final(self).state() == s,
                None => r is Err,
            },
    {
        let ghost code0 = self.code@;
        match self.load_value(Register::Accum, &data.value) {
            Ok(()) => {},
            Err(x) => {
                return Err(x);
            },
        }
        let ghost code1 = self.code@;
        match self.store_accum(&data.destination) {
            Ok(()) => {},
            Err(x) => {
                return Err(x);
            },
        }
        proof {
            assert(self.code@ =~= code0 + code1.skip(code0.len() as int) + self.code@.skip(
                code1.len() as int,
            ));
        }
        Ok(())
    }

    fn leave(&mut self, last: Code)
        ensures
            final(self).unchanged_context(old(self)),
            final(self).emitted() == old(self).emitted() + leave_effect(old(self).state(), last).0,
            final(self).state() == leave_effect(old(self).state(), last).1,
    {
        let ghost code0 = self.code@;
        let ghost st = self.registers@;
        self.registers.save_all_and_reset(&mut self.code);
        self.code.push(last);
        proof {
            assert(self.code@ =~= code0 + leave_effect(st, last).0);
        }
    }

    fn routine_target(&self, destination: &llir::Location) -> (r: Result<Parameter, Error>)
        ensures
            r matches Err(x) ==> code_error(x),
            match routine_target(self.scopes(), *destination) {
                Some(p) => r == Ok::<Parameter, Error>(p),
                None => r is Err,
            },
    {
        match destination {
            llir::Location::Global(addr) => Ok(Parameter::Absolute(Global::Resolved(*addr))),
            llir::Location::UnresolvedGlobal(symbol) => self.jump_target(*symbol),
            _ => Err(unsupported(SrcTag::invalid(), "A routine must be called at an address")),
        }
    }

    /// The code of one statement, as `statement_effect` says.
    #[verifier::spinoff_prover]
    fn generate_statement(&mut self, statement: &llir::Statement) -> (r: Result<(), Error>)
        ensures
            r matches Err(x) ==> code_error(x),
            final(self).unchanged_context(old(self)),
            match statement_effect(old(self).state(), *statement, old(self).frames(), old(self).scopes()) {
                Some((c, s)) => r is Ok && final(self).emitted() == old(self).emitted() + c
                    && final(self).state() == s,
                None => r is Err,
            },
    {
        reveal(statement_effect);
        let ghost code0 = self.code@;
        match statement {
            llir::Statement::Add(data) => self.generate_binary_op(data, AccumOperation::Add),
            llir::Statement::Subtract(data) => self.generate_binary_op(data, AccumOperation::Subtract),
            llir::Statement::CompareEq(data) => self.generate_binary_op(data, AccumOperation::CompareEq),
            llir::Statement::CompareNotEq(data) => self.generate_binary_op(data, AccumOperation::CompareNotEq),
            llir::Statement::CompareLt(data) => self.generate_binary_op(data, AccumOperation::CompareLt),
            llir::Statement::CompareGte(data) => self.generate_binary_op(data, AccumOperation::CompareGte),
            llir::Statement::AddToDataStackPointer(data) => self.move_stack_pointer(data),
            llir::Statement::BranchIfZero(data) => self.branch_if_zero(data),
            llir::Statement::CompareBranch(data) => self.compare_branch(data),
            llir::Statement::Copy(data) => self.copy(data),
            llir::Statement::GoTo(data) => {
                let target = match self.jump_target(data.destination) {
                    Ok(p) => p,
                    Err(x) => {
                        return Err(x);
                    },
                };
                self.leave(Code::Jmp(target));
                Ok(())
            },
            llir::Statement::InlineAsm(data) => {
                self.code.push(Code::InlineAsm(data.text.clone()));
                proof {
                    assert(self.code@ =~= code0 + seq![Code::InlineAsm(data.text)]);
                }
                Ok(())
            },
            llir::Statement::JumpRoutine(data) => {
                let target = match self.routine_target(&data.destination) {
                    Ok(p) => p,
                    Err(x) => {
                        return Err(x);
                    },
                };
                self.leave(Code::Jsr(target));
                Ok(())
            },
            llir::Statement::Return(_) => {
                self.leave(Code::Rts(Parameter::Implicit));
                Ok(())
            },
        }
    }

    /// The code of a run, as `run_code` says: each statement in order from
    /// a fresh register state, each preceded by a comment that holds its
    /// text, then every register flushed. The generator is given no program
    /// text, so no comment holds the source line a statement came from.
    #[verifier::spinoff_prover]
    fn generate(self, llir_statements: &Vec<llir::Statement>) -> (r: Result<Vec<Code>, Error>)
        requires
            self.state() == RegisterState::empty(0),
            self.emitted().len() == 0,
        ensures
            r matches Err(x) ==> code_error(x),
            r is Ok <==> run_expressible(llir_statements@, self.frames(), self.scopes()),
            r matches Ok(code) ==> run_code_is(llir_statements@, self.frames(), self.scopes(), code@),
    {
        let mut generator = self;
        let ghost frames = generator.frames();
        let ghost scopes = generator.scopes();
        let ghost ss = llir_statements@;
        let ghost mut notes: Seq<String> = Seq::empty();
        let mut i: usize = 0;
        while i < llir_statements.len()
            invariant
                i <= ss.len(),
                ss == llir_statements@,
                generator.frames() == frames,
                generator.scopes() == scopes,
                frames == self.frames(),
                scopes == self.scopes(),
                describes(notes, ss.take(i as int)),
                statements_effect(RegisterState::empty(0), ss.take(i as int), notes, frames, scopes)
                    == Some((generator.emitted(), generator.state())),
            decreases ss.len() - i,
        {
            let note = llir_statements[i].describe();
            let ghost before = generator.emitted();
            let ghost prior = notes;
            proof {
                notes = notes.push(note);
                assert(notes.drop_last() =~= prior);
                lemma_statements_effect_step(RegisterState::empty(0), ss, notes, frames, scopes, i as int);
            }
            generator.code.push(Code::Comment(note));
            assert(generator.emitted() == before + seq![Code::Comment(notes[i as int])]);
            match generator.generate_statement(&llir_statements[i]) {
                Ok(()) => {},
                Err(x) => {
                    proof {
                        let filled = notes + Seq::new((ss.len() - notes.len()) as nat, |j: int| notes[0]);
                        assert(filled.take(i + 1) =~= notes);
                        lemma_statements_effect_stops(RegisterState::empty(0), ss, filled, frames, scopes, i + 1);
                        assert(run_code(ss, filled, frames, scopes) is None);
                    }
                    return Err(x);
                },
            }
            proof {
                assert forall|j: int| 0 <= j < i + 1 implies (#[trigger] notes[j])@ == statement_text(
                    ss.take(i + 1)[j],
                ) by {
                    if j < i {
                        assert(ss.take(i as int)[j] == ss.take(i + 1)[j]);
                    }
                }
            }
            i += 1;
        }
        proof {
            assert(ss.take(i as int) =~= ss);
        }
        generator.registers.save_all_now(&mut generator.code);
        proof {
            assert(run_code(ss, notes, frames, scopes) == Some(generator.code@));
            assert forall|n2: Seq<String>| n2.len() == ss.len() implies (#[trigger] run_code(ss, n2, frames, scopes)) is Some by {
                lemma_notes_irrelevant(RegisterState::empty(0), ss, notes, n2, frames, scopes);
            }
        }
        Ok(generator.code)
    }
}

/// The code of the first `n + 1` statements follows from that of the
/// first `n`.
proof fn lemma_statements_effect_step(
    st: RegisterState,
    ss: Seq<llir::Statement>,
    notes: Seq<String>,
    frames: Seq<llir::FrameBlock>,
    scopes: Seq<Seq<SymbolEntry>>,
    n: int,
)
    requires
        0 <= n < ss.len(),
        notes.len() == n + 1,
    ensures
        statements_effect(st, ss.take(n + 1), notes, frames, scopes) == match statements_effect(
            st,
            ss.take(n),
            notes.drop_last(),
            frames,
            scopes,
        ) {
            None => None,
            Some((c, s)) => match statement_effect(s, ss[n], frames, scopes) {
                Some((c2, s2)) => Some((c + seq![Code::Comment(notes[n])] + c2, s2)),
                None => None,
            },
        },
{
    assert(ss.take(n + 1).drop_last() =~= ss.take(n));
    assert(ss.take(n + 1).last() == ss[n]);
}

/// Once statements fail, so do the statements that follow them.
proof fn lemma_statements_effect_stops(
    st: RegisterState,
    ss: Seq<llir::Statement>,
    notes: Seq<String>,
    frames: Seq<llir::FrameBlock>,
    scopes: Seq<Seq<SymbolEntry>>,
    n: int,
)
    requires
        0 <= n <= ss.len(),
        notes.len() == ss.len(),
        statements_effect(st, ss.take(n), notes.take(n), frames, scopes) is None,
    ensures
        statements_effect(st, ss, notes, frames, scopes) is None,
    decreases ss.len() - n,
{
    if n < ss.len() {
        assert(ss.take(n + 1).drop_last() =~= ss.take(n));
        assert(notes.take(n + 1).drop_last() =~= notes.take(n));
        lemma_statements_effect_stops(st, ss, notes, frames, scopes, n + 1);
    } else {
        assert(ss.take(n) =~= ss);
        assert(notes.take(n) =~= notes);
    }
}

/// Generates the assembly blocks of low-level frames.
pub struct CodeBlockGenerator<'a> {
    llir_blocks: &'a Vec<llir::FrameBlock>,
    names: &'a DefaultSymbolTable,
}

/// The assembly blocks of frames: each frame gives a block with its name
/// and address, followed by a block for each of its runs.
pub open spec fn frames_code(
    frames: Seq<llir::FrameBlock>,
    all: Seq<llir::FrameBlock>,
    scopes: Seq<Seq<SymbolEntry>>,
    blocks: Seq<CodeBlock>,
) -> bool
    decreases frames.len(),
{
    if frames.len() == 0 {
        blocks.len() == 0
    } else {
        let f = frames.last();
        let n = blocks.len() - f.runs@.len() - 1;
        &&& n >= 0
        &&& frames_code(frames.drop_last(), all, scopes, blocks.take(n))
        &&& blocks[n].name == Some(f.name)
        &&& blocks[n].location == match f.location {
            llir::Location::Global(v) => Global::Resolved(v),
            _ => Global::UnresolvedBlock,
        }
        &&& blocks[n].body@.len() == 0
        &&& forall|k: int|
            0 <= k < f.runs@.len() ==> {
                let b = #[trigger] blocks[n + 1 + k];
                &&& b.name == Some(f.runs@[k].name)
                &&& b.location == Global::UnresolvedBlock
                &&& run_code_is(f.runs@[k].statements@, all, scopes, b.body@)
            }
    }
}

/// Whether every run of the frames can be expressed in assembly.
pub open spec fn frames_expressible(
    frames: Seq<llir::FrameBlock>,
    all: Seq<llir::FrameBlock>,
    scopes: Seq<Seq<SymbolEntry>>,
) -> bool {
    forall|i: int, k: int|
        0 <= i < frames.len() && 0 <= k < frames[i].runs@.len() ==> run_expressible(
            (#[trigger] frames[i].runs@[k]).statements@,
            all,
            scopes,
        )
}

impl<'a> CodeBlockGenerator<'a> {
    /// A generator over the frames, naming labels and symbols from the
    /// global symbol table.
    pub fn new(global_symbol_table: &'a DefaultSymbolTable, input: &'a Vec<llir::FrameBlock>) -> (r: CodeBlockGenerator<'a>)
        ensures
            r.frames() == input@,
            r.scopes() == global_symbol_table.scopes(),
    {
        CodeBlockGenerator { llir_blocks: input, names: global_symbol_table }
    }

    pub closed spec fn frames(&self) -> Seq<llir::FrameBlock> {
        self.llir_blocks@
    }

    pub closed spec fn scopes(&self) -> Seq<Seq<SymbolEntry>> {
        self.names.scopes()
    }

    /// The assembly blocks of the frames, as `frames_code` says; fails when
    /// a run cannot be expressed.
    pub fn generate(self) -> (r: Result<Vec<CodeBlock>, Error>)
        ensures
            r matches Err(x) ==> code_error(x),
            r is Ok <==> frames_expressible(self.frames(), self.frames(), self.scopes()),
            r matches Ok(blocks) ==> frames_code(self.frames(), self.frames(), self.scopes(), blocks@),
    {
        let ghost frames = self.frames();
        let ghost scopes = self.scopes();
        let mut code_blocks: Vec<CodeBlock> = Vec::new();
        let mut i: usize = 0;
        while i < self.llir_blocks.len()
            invariant
                frames == self.llir_blocks@,
                scopes == self.names.scopes(),
                i <= frames.len(),
                frames_code(frames.take(i as int), frames, scopes, code_blocks@),
                frames_expressible(frames.take(i as int), frames, scopes),
            decreases frames.len() - i,
        {
            let frame_block = &self.llir_blocks[i];
            let ghost start = code_blocks@.len();
            let ghost before_push = code_blocks@;
            code_blocks.push(
                CodeBlock::new(
                    Some(frame_block.name.clone()),
                    match frame_block.location {
                        llir::Location::Global(val) => Some(val),
                        _ => None,
                    },
                ),
            );
            proof {
                assert(code_blocks@.take(start as int) =~= before_push);
            }
            let mut k: usize = 0;
            while k < frame_block.runs.len()
                invariant
                    frames == self.llir_blocks@,
                    scopes == self.names.scopes(),
                    i < frames.len(),
                    *frame_block == frames[i as int],
                    k <= frame_block.runs@.len(),
                    code_blocks@.len() == start + 1 + k,
                    frames_code(frames.take(i as int), frames, scopes, code_blocks@.take(start as int)),
                    frames_expressible(frames.take(i as int), frames, scopes),
                    code_blocks@[start as int].name == Some(frame_block.name),
                    code_blocks@[start as int].location == match frame_block.location {
                        llir::Location::Global(v) => Global::Resolved(v),
                        _ => Global::UnresolvedBlock,
                    },
                    code_blocks@[start as int].body@.len() == 0,
                    forall|j: int|
                        0 <= j < k ==> {
                            let b = #[trigger] code_blocks@[start + 1 + j];
                            &&& b.name == Some(frame_block.runs@[j].name)
                            &&& b.location == Global::UnresolvedBlock
                            &&& run_code_is(frame_block.runs@[j].statements@, frames, scopes, b.body@)
                        },
                    forall|j: int|
                        0 <= j < k ==> run_expressible(
                            (#[trigger] frame_block.runs@[j]).statements@,
                            frames,
                            scopes,
                        ),
                decreases frame_block.runs@.len() - k,
            {
                let run_block = &frame_block.runs[k];
                let mut code_block = CodeBlock::new(Some(run_block.name.clone()), None);
                let generator = CodeGenerator::new(self.names, self.llir_blocks);
                code_block.body = match generator.generate(&run_block.statements) {
                    Ok(body) => body,
                    Err(x) => {
                        proof {
                            assert(!frames_expressible(frames, frames, scopes)) by {
                                assert(!run_expressible(frames[i as int].runs@[k as int].statements@, frames, scopes));
                            }
                        }
                        return Err(x);
                    },
                };
                let ghost before = code_blocks@;
                code_blocks.push(code_block);
                proof {
                    assert forall|j: int| 0 <= j <= k implies {
                        let b = #[trigger] code_blocks@[start + 1 + j];
                        &&& b.name == Some(frame_block.runs@[j].name)
                        &&& b.location == Global::UnresolvedBlock
                        &&& run_code_is(frame_block.runs@[j].statements@, frames, scopes, b.body@)
                    } by {
                        if j < k {
                            assert(code_blocks@[start + 1 + j] == before[start + 1 + j]);
                        }
                    }
                    assert(code_blocks@.take(start as int) =~= before.take(start as int));
                }
                k += 1;
            }
            proof {
                let t = frames.take(i + 1);
                assert(t.drop_last() =~= frames.take(i as int));
                assert(t.last() == frames[i as int]);
                assert(frames_code(t, frames, scopes, code_blocks@));
                assert forall|a: int, b: int|
                    0 <= a < t.len() && 0 <= b < t[a].runs@.len() implies run_expressible(
                        (#[trigger] t[a].runs@[b]).statements@,
                        frames,
                        scopes,
                    ) by {
                    if a < i {
                        assert(t[a] == frames.take(i as int)[a]);
                    }
                }
            }
            i += 1;
        }
        proof {
            assert(frames.take(i as int) =~= frames);
        }
        Ok(code_blocks)
    }
}

} // verus!
