use vstd::prelude::*;
use crate::base_type::BaseType;
use crate::src_tag::{SrcTag, SrcTagged};
use crate::symbol_table::{SymbolName, SymbolRef};
use crate::text::push_char;

verus! {

/// A place in memory, as the low-level representation knows it.
#[derive(Debug)]
pub enum Location {
    /// An offset from the data stack pointer.
    DataStackOffset(i8),
    /// An offset into the frame of a function.
    FrameOffset(SymbolRef, i8),
    /// The place that a pointer at an offset into the frame of a function points to.
    FrameOffsetIndirect(SymbolRef, i8),
    /// An offset into the frame of a function (the first) as seen from within
    /// the frame of a function it calls (the second).
    FrameOffsetBeforeCall(SymbolRef, SymbolRef, i8),
    Global(u16),
    GlobalIndexed(u16, Box<Value>),
    UnresolvedGlobal(SymbolRef),
    UnresolvedGlobalIndexed(SymbolRef, Box<Value>),
    UnresolvedGlobalLowByte(SymbolRef),
    UnresolvedGlobalHighByte(SymbolRef),
    UnresolvedBlock,
}

/// A value in memory: its type, where it lives, and a name for reading the
/// generated code.
#[derive(Debug)]
pub struct MemoryData {
    pub base_type: BaseType,
    pub location: Location,
    pub debug: Option<String>,
}

/// A value known when the program is compiled.
#[derive(Debug)]
pub enum ImmediateValue {
    Number(i32),
    Symbol(SymbolRef),
}

/// A value: known when compiling, or in memory.
#[derive(Debug)]
pub enum Value {
    Immediate(BaseType, ImmediateValue),
    Memory(MemoryData),
}

impl MemoryData {
    pub fn new(base_type: BaseType, location: Location, debug: Option<String>) -> (r: MemoryData)
        ensures
            r.base_type == base_type,
            r.location == location,
            r.debug == debug,
    {
        MemoryData { base_type, location, debug }
    }
}

impl Clone for ImmediateValue {
    fn clone(&self) -> (r: ImmediateValue)
        ensures
            r == *self,
    {
        match self {
            ImmediateValue::Number(n) => ImmediateValue::Number(*n),
            ImmediateValue::Symbol(s) => ImmediateValue::Symbol(*s),
        }
    }
}

impl ImmediateValue {
    pub fn number(&self) -> (r: i32)
        requires
            *self is Number,
        ensures
            *self == ImmediateValue::Number(r),
    {
        match self {
            ImmediateValue::Number(num) => *num,
            ImmediateValue::Symbol(_) => vstd::pervasive::unreached(),
        }
    }
}

impl Location {
    pub fn clone_location(&self) -> (r: Location)
        ensures
            r == *self,
        decreases self,
    {
        match self {
            Location::DataStackOffset(o) => Location::DataStackOffset(*o),
            Location::FrameOffset(s, o) => Location::FrameOffset(*s, *o),
            Location::FrameOffsetIndirect(s, o) => Location::FrameOffsetIndirect(*s, *o),
            Location::FrameOffsetBeforeCall(a, b, o) => Location::FrameOffsetBeforeCall(*a, *b, *o),
            Location::Global(a) => Location::Global(*a),
            Location::GlobalIndexed(a, v) => Location::GlobalIndexed(*a, Box::new((**v).clone_value())),
            Location::UnresolvedGlobal(s) => Location::UnresolvedGlobal(*s),
            Location::UnresolvedGlobalIndexed(s, v) => Location::UnresolvedGlobalIndexed(
                *s,
                Box::new((**v).clone_value()),
            ),
            Location::UnresolvedGlobalLowByte(s) => Location::UnresolvedGlobalLowByte(*s),
            Location::UnresolvedGlobalHighByte(s) => Location::UnresolvedGlobalHighByte(*s),
            Location::UnresolvedBlock => Location::UnresolvedBlock,
        }
    }

    /// Where the low byte of a two-byte value at this place lives.
    pub fn low_byte(&self) -> (r: Location)
        ensures
            r == low_byte_of(*self),
    {
        match self {
            Location::UnresolvedGlobal(symbol) => Location::UnresolvedGlobalLowByte(*symbol),
            _ => self.clone_location(),
        }
    }

    /// Where the high byte of a two-byte value at this place lives: one byte
    /// further (16-bit values are little-endian on the 6502).
    pub fn high_byte(&self) -> (r: Location)
        requires
            has_high_byte(*self),
        ensures
            r == high_byte_of(*self),
    {
        match self {
            Location::DataStackOffset(offset) => Location::DataStackOffset(offset.wrapping_add(1)),
            Location::FrameOffset(symbol, offset) => Location::FrameOffset(*symbol, offset.wrapping_add(1)),
            Location::FrameOffsetBeforeCall(sym1, sym2, offset) => Location::FrameOffsetBeforeCall(
                *sym1,
                *sym2,
                offset.wrapping_add(1),
            ),
            Location::Global(offset) => Location::Global(offset.wrapping_add(1)),
            Location::GlobalIndexed(offset, index) => Location::GlobalIndexed(
                offset.wrapping_add(1),
                Box::new((**index).clone_value()),
            ),
            Location::UnresolvedGlobal(symbol) => Location::UnresolvedGlobalHighByte(*symbol),
            _ => vstd::pervasive::unreached(),
        }
    }
}

/// Whether a place has a following byte that the compiler can name.
pub open spec fn has_high_byte(l: Location) -> bool {
    l is DataStackOffset || l is FrameOffset || l is FrameOffsetBeforeCall || l is Global
        || l is GlobalIndexed || l is UnresolvedGlobal
}

/// The place one byte further, with offsets and addresses wrapping around.
pub open spec fn high_byte_of(l: Location) -> Location {
    match l {
        Location::DataStackOffset(o) => Location::DataStackOffset(o.wrapping_add(1)),
        Location::FrameOffset(s, o) => Location::FrameOffset(s, o.wrapping_add(1)),
        Location::FrameOffsetBeforeCall(a, b, o) => Location::FrameOffsetBeforeCall(a, b, o.wrapping_add(1)),
        Location::Global(a) => Location::Global(a.wrapping_add(1)),
        Location::GlobalIndexed(a, v) => Location::GlobalIndexed(a.wrapping_add(1), v),
        Location::UnresolvedGlobal(s) => Location::UnresolvedGlobalHighByte(s),
        _ => l,
    }
}

/// The high byte of a 16-bit number, as a number.
pub open spec fn high_byte_number(num: i32) -> i32 {
    (((num as u16) & 0xFF00u16) >> 8u16) as u8 as i32
}

/// The low byte of a 16-bit number, as a number.
pub open spec fn low_byte_number(num: i32) -> i32 {
    num as u8 as i32
}

/// Whether the high and low bytes of a value can be taken: a two-byte
/// immediate that is a number, or a pointer, or a value in memory whose place
/// has a following byte.
pub open spec fn splittable(v: Value) -> bool {
    match v {
        Value::Immediate(BaseType::U16, ImmediateValue::Number(_)) => true,
        Value::Immediate(BaseType::Pointer(_), _) => true,
        Value::Immediate(_, _) => false,
        Value::Memory(m) => has_high_byte(m.location),
    }
}

/// Where the low byte of a two-byte value at `l` lives.
pub open spec fn low_byte_of(l: Location) -> Location {
    match l {
        Location::UnresolvedGlobal(symbol) => Location::UnresolvedGlobalLowByte(symbol),
        _ => l,
    }
}

/// Whether `r` is the high byte (or, when `high` is false, the low byte) of
/// the two-byte value `v`: a value in memory keeps its type and moves to the
/// place of that byte, its name prefixed with `hi:` or `lo:`; an immediate
/// value gives its byte as `high_byte_value` or `low_byte_value` says.
pub open spec fn byte_of_value(high: bool, v: Value, r: Value) -> bool {
    match v {
        Value::Memory(m) => r matches Value::Memory(n) && n.base_type == m.base_type && n.location == (
        if high {
            high_byte_of(m.location)
        } else {
            low_byte_of(m.location)
        }) && match m.debug {
            Some(d) => n.debug matches Some(e) && e@ == (if high {
                seq!['h', 'i', ':']
            } else {
                seq!['l', 'o', ':']
            }) + d@,
            None => n.debug is None,
        },
        _ => r == (if high {
            high_byte_value(v)
        } else {
            low_byte_value(v)
        }),
    }
}

/// The high byte of a value.
pub open spec fn high_byte_value(v: Value) -> Value {
    match v {
        Value::Immediate(BaseType::Pointer(_), ImmediateValue::Symbol(sym)) => Value::Memory(
            MemoryData {
                base_type: BaseType::U8,
                location: Location::UnresolvedGlobalHighByte(sym),
                debug: None,
            },
        ),
        Value::Immediate(_, ImmediateValue::Number(num)) => Value::Immediate(
            BaseType::U8,
            ImmediateValue::Number(high_byte_number(num)),
        ),
        _ => v,
    }
}

/// The low byte of a value.
pub open spec fn low_byte_value(v: Value) -> Value {
    match v {
        Value::Immediate(BaseType::Pointer(_), ImmediateValue::Symbol(sym)) => Value::Memory(
            MemoryData {
                base_type: BaseType::U8,
                location: Location::UnresolvedGlobalLowByte(sym),
                debug: None,
            },
        ),
        Value::Immediate(_, ImmediateValue::Number(num)) => Value::Immediate(
            BaseType::U8,
            ImmediateValue::Number(low_byte_number(num)),
        ),
        _ => v,
    }
}

fn prefixed_name(hi: bool, name: &String) -> (r: String)
    ensures
        hi ==> r@ == seq!['h', 'i', ':'] + name@,
        !hi ==> r@ == seq!['l', 'o', ':'] + name@,
{
    let mut s = String::new();
    if hi {
        push_char(&mut s, 'h');
        push_char(&mut s, 'i');
    } else {
        push_char(&mut s, 'l');
        push_char(&mut s, 'o');
    }
    push_char(&mut s, ':');
    s.append(name.as_str());
    if hi {
        assert(s@ =~= seq!['h', 'i', ':'] + name@);
    } else {
        assert(s@ =~= seq!['l', 'o', ':'] + name@);
    }
    s
}

impl Value {
    pub fn clone_value(&self) -> (r: Value)
        ensures
            r == *self,
        decreases self,
    {
        match self {
            Value::Immediate(t, v) => Value::Immediate(t.clone(), v.clone()),
            Value::Memory(m) => Value::Memory(
                MemoryData {
                    base_type: m.base_type.clone(),
                    location: m.location.clone_location(),
                    debug: match &m.debug {
                        Some(n) => Some(n.clone()),
                        None => None,
                    },
                },
            ),
        }
    }

    pub fn value_type(&self) -> (r: BaseType)
        ensures
            r == match *self {
                Value::Immediate(t, _) => t,
                Value::Memory(m) => m.base_type,
            },
    {
        match self {
            Value::Immediate(typ, _) => typ.clone(),
            Value::Memory(data) => data.base_type.clone(),
        }
    }

    /// The high byte of a two-byte value (16-bit values on the 6502 are
    /// little-endian).
    pub fn high_byte(value: &Value) -> (r: Value)
        requires
            splittable(*value),
        ensures
            byte_of_value(true, *value, r),
    {
        match value {
            Value::Immediate(BaseType::Pointer(_), ImmediateValue::Symbol(sym)) => Value::Memory(
                MemoryData::new(BaseType::U8, Location::UnresolvedGlobalHighByte(*sym), None),
            ),
            Value::Immediate(_, ImmediateValue::Number(num)) => {
                let hi = (((*num as u16) & 0xFF00u16) >> 8u16) as u8 as i32;
                Value::Immediate(BaseType::U8, ImmediateValue::Number(hi))
            },
            Value::Immediate(_, _) => vstd::pervasive::unreached(),
            Value::Memory(data) => Value::Memory(
                MemoryData::new(
                    data.base_type.clone(),
                    data.location.high_byte(),
                    match &data.debug {
                        Some(n) => Some(prefixed_name(true, n)),
                        None => None,
                    },
                ),
            ),
        }
    }

    /// The low byte of a two-byte value.
    pub fn low_byte(value: &Value) -> (r: Value)
        requires
            splittable(*value),
        ensures
            byte_of_value(false, *value, r),
    {
        match value {
            Value::Immediate(BaseType::Pointer(_), ImmediateValue::Symbol(sym)) => Value::Memory(
                MemoryData::new(BaseType::U8, Location::UnresolvedGlobalLowByte(*sym), None),
            ),
            Value::Immediate(_, ImmediateValue::Number(num)) => {
                Value::Immediate(BaseType::U8, ImmediateValue::Number(*num as u8 as i32))
            },
            Value::Immediate(_, _) => vstd::pervasive::unreached(),
            Value::Memory(data) => Value::Memory(
                MemoryData::new(
                    data.base_type.clone(),
                    data.location.low_byte(),
                    match &data.debug {
                        Some(n) => Some(prefixed_name(false, n)),
                        None => None,
                    },
                ),
            ),
        }
    }
}

/// A 16-bit number is its high byte times 256 plus its low byte.
pub proof fn lemma_bytes_of_number(num: i32)
    ensures
        0 <= low_byte_number(num) < 256,
        0 <= high_byte_number(num) < 256,
        high_byte_number(num) * 256 + low_byte_number(num) == num as u16,
{
    let u = num as u16;
    assert((((u & 0xFF00u16) >> 8u16) as u8) as int * 256 + (u as u8) as int == u as int)
        by (bit_vector);
    assert((num as u16) as u8 == num as u8) by (bit_vector);
}


/// A change of the data stack pointer: by a number of bytes, or by the
/// frame size of a function, up or down.
#[derive(Debug, Clone, Copy, Eq, PartialEq, Structural)]
pub enum SPOffset {
    Immediate(i8),
    FrameSize(SymbolRef),
    NegativeFrameSize(SymbolRef),
}

/// `destination = value`.
#[derive(Debug)]
pub struct CopyData {
    pub tag: SrcTag,
    pub destination: Location,
    pub value: Value,
}

impl CopyData {
    pub fn new(tag: SrcTag, destination: Location, value: Value) -> (r: CopyData)
        ensures
            r.tag == tag,
            r.destination == destination,
            r.value == value,
    {
        CopyData { tag, destination, value }
    }
}

/// What an addition or subtraction does with the carry flag first.
#[derive(Debug, Copy, Clone, Eq, PartialEq, Structural)]
pub enum CarryMode {
    DontCare,
    SetCarry,
    ClearCarry,
}

/// `destination = left op right`.
#[derive(Debug)]
pub struct BinaryOpData {
    pub tag: SrcTag,
    pub destination: Location,
    pub left: Value,
    pub right: Value,
    pub carry_mode: CarryMode,
}

impl BinaryOpData {
    pub fn new(tag: SrcTag, destination: Location, left: Value, right: Value, carry_mode: CarryMode) -> (r: BinaryOpData)
        ensures
            r.tag == tag,
            r.destination == destination,
            r.left == left,
            r.right == right,
            r.carry_mode == carry_mode,
    {
        BinaryOpData { tag, destination, left, right, carry_mode }
    }
}

/// Jump to the block `destination` when `value` is zero.
#[derive(Debug)]
pub struct BranchIfZeroData {
    pub tag: SrcTag,
    pub value: Value,
    pub destination: SymbolRef,
}

impl BranchIfZeroData {
    pub fn new(tag: SrcTag, value: Value, destination: SymbolRef) -> (r: BranchIfZeroData)
        ensures
            r.tag == tag,
            r.value == value,
            r.destination == destination,
    {
        BranchIfZeroData { tag, value, destination }
    }
}

/// The processor flag that a comparison branches on.
#[derive(Debug, Copy, Clone, Eq, PartialEq, Structural)]
pub enum BranchFlag {
    Zero,
    Carry,
}

/// Compare `left` with `right`, then jump to `branch_set` when the flag is
/// set, or to `branch_clear` when it is clear.
#[derive(Debug)]
pub struct CompareBranchData {
    pub tag: SrcTag,
    pub left: Value,
    pub right: Value,
    pub branch_flag: BranchFlag,
    pub branch_set: Option<SymbolRef>,
    pub branch_clear: Option<SymbolRef>,
}

impl CompareBranchData {
    pub fn new(
        tag: SrcTag,
        left: Value,
        right: Value,
        branch_flag: BranchFlag,
        branch_set: Option<SymbolRef>,
        branch_clear: Option<SymbolRef>,
    ) -> (r: CompareBranchData)
        ensures
            r.tag == tag,
            r.left == left,
            r.right == right,
            r.branch_flag == branch_flag,
            r.branch_set == branch_set,
            r.branch_clear == branch_clear,
    {
        CompareBranchData { tag, left, right, branch_flag, branch_set, branch_clear }
    }
}

/// Jump to the block `destination`.
#[derive(Debug, Clone, Copy, Eq, PartialEq, Structural)]
pub struct GoToData {
    pub tag: SrcTag,
    pub destination: SymbolRef,
}

impl GoToData {
    pub fn new(tag: SrcTag, destination: SymbolRef) -> (r: GoToData)
        ensures
            r.tag == tag,
            r.destination == destination,
    {
        GoToData { tag, destination }
    }
}

/// Assembly written by the programmer.
#[derive(Debug)]
pub struct InlineAsmData {
    pub tag: SrcTag,
    pub text: String,
}

impl InlineAsmData {
    pub fn new(tag: SrcTag, text: String) -> (r: InlineAsmData)
        ensures
            r.tag == tag,
            r.text == text,
    {
        InlineAsmData { tag, text }
    }
}

/// Call the routine at `destination`.
#[derive(Debug)]
pub struct JumpRoutineData {
    pub tag: SrcTag,
    pub destination: Location,
}

impl JumpRoutineData {
    pub fn new(tag: SrcTag, destination: Location) -> (r: JumpRoutineData)
        ensures
            r.tag == tag,
            r.destination == destination,
    {
        JumpRoutineData { tag, destination }
    }
}

/// Return from the current routine.
#[derive(Debug, Clone, Copy, Eq, PartialEq, Structural)]
pub struct ReturnData {
    pub tag: SrcTag,
}

impl ReturnData {
    pub fn new(tag: SrcTag) -> (r: ReturnData)
        ensures
            r.tag == tag,
    {
        ReturnData { tag }
    }
}

/// Move the data stack pointer.
#[derive(Debug, Clone, Copy, Eq, PartialEq, Structural)]
pub struct AddToDataStackPointerData {
    pub tag: SrcTag,
    pub offset: SPOffset,
}

impl AddToDataStackPointerData {
    pub fn new(tag: SrcTag, offset: SPOffset) -> (r: AddToDataStackPointerData)
        ensures
            r.tag == tag,
            r.offset == offset,
    {
        AddToDataStackPointerData { tag, offset }
    }
}

/// A statement of the low-level representation.
#[derive(Debug)]
pub enum Statement {
    Add(BinaryOpData),
    AddToDataStackPointer(AddToDataStackPointerData),
    BranchIfZero(BranchIfZeroData),
    CompareBranch(CompareBranchData),
    CompareEq(BinaryOpData),
    CompareNotEq(BinaryOpData),
    CompareLt(BinaryOpData),
    CompareGte(BinaryOpData),
    Copy(CopyData),
    GoTo(GoToData),
    InlineAsm(InlineAsmData),
    JumpRoutine(JumpRoutineData),
    Return(ReturnData),
    Subtract(BinaryOpData),
}

/// Whether the statement may transfer control elsewhere.
pub open spec fn is_branch_statement(s: Statement) -> bool {
    s is BranchIfZero || s is CompareBranch || s is GoTo || s is JumpRoutine || s is Return
}

/// Where a statement came from.
pub open spec fn statement_tag(s: Statement) -> SrcTag {
    match s {
        Statement::Add(d) | Statement::CompareEq(d) | Statement::CompareNotEq(d)
        | Statement::CompareLt(d) | Statement::CompareGte(d) | Statement::Subtract(d) => d.tag,
        Statement::AddToDataStackPointer(d) => d.tag,
        Statement::BranchIfZero(d) => d.tag,
        Statement::CompareBranch(d) => d.tag,
        Statement::Copy(d) => d.tag,
        Statement::GoTo(d) => d.tag,
        Statement::InlineAsm(d) => d.tag,
        Statement::JumpRoutine(d) => d.tag,
        Statement::Return(d) => d.tag,
    }
}

impl Statement {
    pub fn is_branch(&self) -> (r: bool)
        ensures
            r == is_branch_statement(*self),
    {
        match self {
            Statement::BranchIfZero(_) | Statement::CompareBranch(_) | Statement::GoTo(_)
            | Statement::JumpRoutine(_) | Statement::Return(_) => true,
            _ => false,
        }
    }
}

impl SrcTagged for Statement {
    open spec fn carried_tag(&self) -> SrcTag {
        statement_tag(*self)
    }

    fn src_tag(&self) -> (r: SrcTag) {
        match self {
            Statement::Add(d) | Statement::CompareEq(d) | Statement::CompareNotEq(d)
            | Statement::CompareLt(d) | Statement::CompareGte(d) | Statement::Subtract(d) => d.tag,
            Statement::AddToDataStackPointer(d) => d.tag,
            Statement::BranchIfZero(d) => d.tag,
            Statement::CompareBranch(d) => d.tag,
            Statement::Copy(d) => d.tag,
            Statement::GoTo(d) => d.tag,
            Statement::InlineAsm(d) => d.tag,
            Statement::JumpRoutine(d) => d.tag,
            Statement::Return(d) => d.tag,
        }
    }
}

impl Statement {
    /// Where the statement came from.
    pub fn tag(&self) -> (r: SrcTag)
        ensures
            r == statement_tag(*self),
    {
        match self {
            Statement::Add(d) | Statement::CompareEq(d) | Statement::CompareNotEq(d)
            | Statement::CompareLt(d) | Statement::CompareGte(d) | Statement::Subtract(d) => d.tag,
            Statement::AddToDataStackPointer(d) => d.tag,
            Statement::BranchIfZero(d) => d.tag,
            Statement::CompareBranch(d) => d.tag,
            Statement::Copy(d) => d.tag,
            Statement::GoTo(d) => d.tag,
            Statement::InlineAsm(d) => d.tag,
            Statement::JumpRoutine(d) => d.tag,
            Statement::Return(d) => d.tag,
        }
    }
}

/// A labelled run of statements that is entered only at its start.
#[derive(Debug)]
pub struct RunBlock {
    pub name: SymbolName,
    pub symbol: SymbolRef,
    pub statements: Vec<Statement>,
}

impl RunBlock {
    pub fn new(name: SymbolName, symbol: SymbolRef) -> (r: RunBlock)
        ensures
            r.name == name,
            r.symbol == symbol,
            r.statements@.len() == 0,
    {
        RunBlock { name, symbol, statements: Vec::new() }
    }

    pub fn new_tup(tup: (SymbolName, SymbolRef)) -> (r: RunBlock)
        ensures
            r.name == tup.0,
            r.symbol == tup.1,
            r.statements@.len() == 0,
    {
        RunBlock::new(tup.0, tup.1)
    }
}

/// The code of a function (or of top-level statements) with its stack frame.
#[derive(Debug)]
pub struct FrameBlock {
    pub name: SymbolName,
    pub symbol: SymbolRef,
    pub location: Location,
    pub runs: Vec<RunBlock>,
    pub frame_size: i8,
}

impl FrameBlock {
    pub fn new(name: SymbolName, symbol: SymbolRef, location: Location) -> (r: FrameBlock)
        ensures
            r.name == name,
            r.symbol == symbol,
            r.location == location,
            r.runs@.len() == 0,
            r.frame_size == 0,
    {
        FrameBlock { name, symbol, location, runs: Vec::new(), frame_size: 0 }
    }
}
} // verus!
