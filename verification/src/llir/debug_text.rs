//! A readable text for each low-level statement, written into the generated
//! assembly as a comment above the code of the statement. Values and
//! locations are written the way Rust's derived `Debug` writes them.
use vstd::prelude::*;
use crate::base_type::BaseType;
use crate::llir::block::{
    BranchFlag, ImmediateValue, Location, SPOffset, Statement, Value,
};
use crate::symbol_table::SymbolRef;
use crate::text::{decimal_text, push_char, push_decimal, push_quoted, push_str, quoted};

verus! {

/// The decimal text of a signed number, with a leading `-` when negative.
pub open spec fn signed_text(v: int) -> Seq<char> {
    if v < 0 {
        seq!['-'] + decimal_text((-v) as nat)
    } else {
        decimal_text(v as nat)
    }
}

/// A symbol reference, written as its number.
pub open spec fn ref_text(r: SymbolRef) -> Seq<char> {
    decimal_text(r as nat)
}

/// The variant name of a type, as `Debug` writes it.
pub open spec fn base_type_debug(t: BaseType) -> Seq<char>
    decreases t,
{
    match t {
        BaseType::Bool => "Bool"@,
        BaseType::Pointer(inner) => "Pointer("@ + base_type_debug(*inner) + ")"@,
        BaseType::U16 => "U16"@,
        BaseType::U8 => "U8"@,
        BaseType::Void => "Void"@,
    }
}

/// An optional name: `None`, or `Some("name")`.
pub open spec fn name_debug(n: Option<String>) -> Seq<char> {
    match n {
        None => "None"@,
        Some(s) => "Some("@ + quoted(s@) + ")"@,
    }
}

/// An optional symbol reference: `None`, or `Some(3)`.
pub open spec fn optional_ref_debug(r: Option<SymbolRef>) -> Seq<char> {
    match r {
        None => "None"@,
        Some(x) => "Some("@ + ref_text(x) + ")"@,
    }
}

pub open spec fn immediate_debug(v: ImmediateValue) -> Seq<char> {
    match v {
        ImmediateValue::Number(n) => "Number("@ + signed_text(n as int) + ")"@,
        ImmediateValue::Symbol(r) => "Symbol("@ + ref_text(r) + ")"@,
    }
}

/// A location, as `Debug` writes it.
pub open spec fn location_debug(l: Location) -> Seq<char>
    decreases l,
{
    match l {
        Location::DataStackOffset(o) => "DataStackOffset("@ + signed_text(o as int) + ")"@,
        Location::FrameOffset(r, o) => "FrameOffset("@ + ref_text(r) + ", "@ + signed_text(o as int)
            + ")"@,
        Location::FrameOffsetIndirect(r, o) => "FrameOffsetIndirect("@ + ref_text(r) + ", "@
            + signed_text(o as int) + ")"@,
        Location::FrameOffsetBeforeCall(a, b, o) => "FrameOffsetBeforeCall("@ + ref_text(a) + ", "@
            + ref_text(b) + ", "@ + signed_text(o as int) + ")"@,
        Location::Global(a) => "Global("@ + decimal_text(a as nat) + ")"@,
        Location::GlobalIndexed(a, v) => "GlobalIndexed("@ + decimal_text(a as nat) + ", "@
            + value_debug(*v) + ")"@,
        Location::UnresolvedGlobal(r) => "UnresolvedGlobal("@ + ref_text(r) + ")"@,
        Location::UnresolvedGlobalIndexed(r, v) => "UnresolvedGlobalIndexed("@ + ref_text(r) + ", "@
            + value_debug(*v) + ")"@,
        Location::UnresolvedGlobalLowByte(r) => "UnresolvedGlobalLowByte("@ + ref_text(r) + ")"@,
        Location::UnresolvedGlobalHighByte(r) => "UnresolvedGlobalHighByte("@ + ref_text(r) + ")"@,
        Location::UnresolvedBlock => "UnresolvedBlock"@,
    }
}

/// A value, as `Debug` writes it.
pub open spec fn value_debug(v: Value) -> Seq<char>
    decreases v,
{
    match v {
        Value::Immediate(t, i) => "Immediate("@ + base_type_debug(t) + ", "@ + immediate_debug(i)
            + ")"@,
        Value::Memory(d) => "Memory(MemoryData { base_type: "@ + base_type_debug(d.base_type)
            + ", location: "@ + location_debug(d.location) + ", debug: "@ + name_debug(d.debug)
            + " })"@,
    }
}

pub open spec fn sp_offset_debug(o: SPOffset) -> Seq<char> {
    match o {
        SPOffset::Immediate(v) => "Immediate("@ + signed_text(v as int) + ")"@,
        SPOffset::FrameSize(r) => "FrameSize("@ + ref_text(r) + ")"@,
        SPOffset::NegativeFrameSize(r) => "NegativeFrameSize("@ + ref_text(r) + ")"@,
    }
}

/// The tag of a statement, as `Debug` writes it.
pub open spec fn tag_debug(tag: usize) -> Seq<char> {
    "SrcTag("@ + decimal_text(tag as nat) + ")"@
}

/// The text of `left op right => destination`.
pub open spec fn binary_text(
    word: Seq<char>,
    op: Seq<char>,
    left: Value,
    right: Value,
    destination: Location,
) -> Seq<char> {
    word + value_debug(left) + op + value_debug(right) + " => "@ + location_debug(destination)
}

/// The readable text of a low-level statement.
pub open spec fn statement_text(s: Statement) -> Seq<char> {
    match s {
        Statement::Add(d) => binary_text("add "@, " + "@, d.left, d.right, d.destination),
        Statement::AddToDataStackPointer(d) => "add_dsp AddToDataStackPointerData { tag: "@
            + tag_debug(d.tag.0) + ", offset: "@ + sp_offset_debug(d.offset) + " }"@,
        Statement::BranchIfZero(d) => "branch to "@ + ref_text(d.destination) + " if "@
            + value_debug(d.value) + " == 0"@,
        Statement::CompareBranch(d) => "compare "@ + value_debug(d.left) + " with "@
            + value_debug(d.right) + ", on "@ + (if d.branch_flag is Zero {
            "Zero"@
        } else {
            "Carry"@
        }) + " set => "@ + optional_ref_debug(d.branch_set) + ", clear => "@ + optional_ref_debug(
            d.branch_clear,
        ),
        Statement::CompareEq(d) => binary_text("compare "@, " == "@, d.left, d.right, d.destination),
        Statement::CompareNotEq(d) => binary_text(
            "compare "@,
            " != "@,
            d.left,
            d.right,
            d.destination,
        ),
        Statement::CompareLt(d) => binary_text("compare "@, " < "@, d.left, d.right, d.destination),
        Statement::CompareGte(d) => binary_text("compare "@, " >= "@, d.left, d.right, d.destination),
        Statement::Copy(d) => "copy "@ + value_debug(d.value) + " => "@ + location_debug(
            d.destination,
        ),
        Statement::GoTo(d) => "goto "@ + ref_text(d.destination),
        Statement::InlineAsm(_) => "inline_asm"@,
        Statement::JumpRoutine(d) => "jsr JumpRoutineData { tag: "@ + tag_debug(d.tag.0)
            + ", destination: "@ + location_debug(d.destination) + " }"@,
        Statement::Return(_) => "rts"@,
        Statement::Subtract(d) => binary_text("subtract "@, " - "@, d.left, d.right, d.destination),
    }
}

/// Appends the decimal text of a signed number.
pub fn push_signed(s: &mut String, v: i32)
    ensures
        final(s)@ == old(s)@ + signed_text(v as int),
{
    if v < 0 {
        push_char(s, '-');
        let magnitude: i64 = -(v as i64);
        push_decimal(s, magnitude as u64);
        assert(s@ =~= old(s)@ + signed_text(v as int));
    } else {
        push_decimal(s, v as u64);
    }
}

fn push_ref(s: &mut String, r: SymbolRef)
    ensures
        final(s)@ == old(s)@ + ref_text(r),
{
    push_decimal(s, r as u64);
}

fn push_base_type_debug(s: &mut String, t: &BaseType)
    ensures
        final(s)@ == old(s)@ + base_type_debug(*t),
    decreases t,
{
    match t {
        BaseType::Bool => push_str(s, "Bool"),
        BaseType::Pointer(inner) => {
            push_str(s, "Pointer(");
            push_base_type_debug(s, &**inner);
            push_str(s, ")");
            assert(s@ =~= old(s)@ + base_type_debug(*t));
        },
        BaseType::U16 => push_str(s, "U16"),
        BaseType::U8 => push_str(s, "U8"),
        BaseType::Void => push_str(s, "Void"),
    }
}

fn push_immediate_debug(s: &mut String, v: &ImmediateValue)
    ensures
        final(s)@ == old(s)@ + immediate_debug(*v),
{
    match v {
        ImmediateValue::Number(n) => {
            push_str(s, "Number(");
            push_signed(s, *n);
            push_str(s, ")");
        },
        ImmediateValue::Symbol(r) => {
            push_str(s, "Symbol(");
            push_ref(s, *r);
            push_str(s, ")");
        },
    }
    assert(s@ =~= old(s)@ + immediate_debug(*v));
}


fn push_name_debug(s: &mut String, n: &Option<String>)
    ensures
        final(s)@ == old(s)@ + name_debug(*n),
{
    match n {
        None => push_str(s, "None"),
        Some(text) => {
            push_str(s, "Some(");
            push_quoted(s, text);
            push_str(s, ")");
            assert(s@ =~= old(s)@ + name_debug(*n));
        },
    }
}

fn push_optional_ref_debug(s: &mut String, r: Option<SymbolRef>)
    ensures
        final(s)@ == old(s)@ + optional_ref_debug(r),
{
    match r {
        None => push_str(s, "None"),
        Some(x) => {
            push_str(s, "Some(");
            push_ref(s, x);
            push_str(s, ")");
            assert(s@ =~= old(s)@ + optional_ref_debug(r));
        },
    }
}

/// Appends the text of a location.
pub fn push_location_debug(s: &mut String, l: &Location)
    ensures
        final(s)@ == old(s)@ + location_debug(*l),
    decreases l,
{
    match l {
        Location::DataStackOffset(o) => {
            push_str(s, "DataStackOffset(");
            push_signed(s, *o as i32);
            push_str(s, ")");
        },
        Location::FrameOffset(r, o) => {
            push_str(s, "FrameOffset(");
            push_ref(s, *r);
            push_str(s, ", ");
            push_signed(s, *o as i32);
            push_str(s, ")");
        },
        Location::FrameOffsetIndirect(r, o) => {
            push_str(s, "FrameOffsetIndirect(");
            push_ref(s, *r);
            push_str(s, ", ");
            push_signed(s, *o as i32);
            push_str(s, ")");
        },
        Location::FrameOffsetBeforeCall(a, b, o) => {
            push_str(s, "FrameOffsetBeforeCall(");
            push_ref(s, *a);
            push_str(s, ", ");
            push_ref(s, *b);
            push_str(s, ", ");
            push_signed(s, *o as i32);
            push_str(s, ")");
        },
        Location::Global(a) => {
            push_str(s, "Global(");
            push_decimal(s, *a as u64);
            push_str(s, ")");
        },
        Location::GlobalIndexed(a, v) => {
            push_str(s, "GlobalIndexed(");
            push_decimal(s, *a as u64);
            push_str(s, ", ");
            push_value_debug(s, &**v);
            push_str(s, ")");
        },
        Location::UnresolvedGlobal(r) => {
            push_str(s, "UnresolvedGlobal(");
            push_ref(s, *r);
            push_str(s, ")");
        },
        Location::UnresolvedGlobalIndexed(r, v) => {
            push_str(s, "UnresolvedGlobalIndexed(");
            push_ref(s, *r);
            push_str(s, ", ");
            push_value_debug(s, &**v);
            push_str(s, ")");
        },
        Location::UnresolvedGlobalLowByte(r) => {
            push_str(s, "UnresolvedGlobalLowByte(");
            push_ref(s, *r);
            push_str(s, ")");
        },
        Location::UnresolvedGlobalHighByte(r) => {
            push_str(s, "UnresolvedGlobalHighByte(");
            push_ref(s, *r);
            push_str(s, ")");
        },
        Location::UnresolvedBlock => push_str(s, "UnresolvedBlock"),
    }
    assert(s@ =~= old(s)@ + location_debug(*l));
}

/// Appends the text of a value.
pub fn push_value_debug(s: &mut String, v: &Value)
    ensures
        final(s)@ == old(s)@ + value_debug(*v),
    decreases v,
{
    match v {
        Value::Immediate(t, i) => {
            push_str(s, "Immediate(");
            push_base_type_debug(s, t);
            push_str(s, ", ");
            push_immediate_debug(s, i);
            push_str(s, ")");
        },
        Value::Memory(d) => {
            push_str(s, "Memory(MemoryData { base_type: ");
            push_base_type_debug(s, &d.base_type);
            push_str(s, ", location: ");
            push_location_debug(s, &d.location);
            push_str(s, ", debug: ");
            push_name_debug(s, &d.debug);
            push_str(s, " })");
        },
    }
    assert(s@ =~= old(s)@ + value_debug(*v));
}

fn push_sp_offset_debug(s: &mut String, o: SPOffset)
    ensures
        final(s)@ == old(s)@ + sp_offset_debug(o),
{
    match o {
        SPOffset::Immediate(v) => {
            push_str(s, "Immediate(");
            push_signed(s, v as i32);
            push_str(s, ")");
        },
        SPOffset::FrameSize(r) => {
            push_str(s, "FrameSize(");
            push_ref(s, r);
            push_str(s, ")");
        },
        SPOffset::NegativeFrameSize(r) => {
            push_str(s, "NegativeFrameSize(");
            push_ref(s, r);
            push_str(s, ")");
        },
    }
    assert(s@ =~= old(s)@ + sp_offset_debug(o));
}

fn push_binary_text(
    s: &mut String,
    word: &str,
    op: &str,
    left: &Value,
    right: &Value,
    destination: &Location,
)
    ensures
        final(s)@ == old(s)@ + binary_text(word@, op@, *left, *right, *destination),
{
    push_str(s, word);
    push_value_debug(s, left);
    push_str(s, op);
    push_value_debug(s, right);
    push_str(s, " => ");
    push_location_debug(s, destination);
    assert(s@ =~= old(s)@ + binary_text(word@, op@, *left, *right, *destination));
}

impl Statement {
    /// The readable text of the statement, written into the generated
    /// assembly as a comment.
    pub fn describe(&self) -> (r: String)
        ensures
            r@ == statement_text(*self),
    {
        let mut s = String::new();
        match self {
            Statement::Add(d) => push_binary_text(&mut s, "add ", " + ", &d.left, &d.right, &d.destination),
            Statement::AddToDataStackPointer(d) => {
                push_str(&mut s, "add_dsp AddToDataStackPointerData { tag: SrcTag(");
                push_decimal(&mut s, d.tag.0 as u64);
                push_str(&mut s, "), offset: ");
                push_sp_offset_debug(&mut s, d.offset);
                push_str(&mut s, " }");
                proof {
                    reveal_strlit("add_dsp AddToDataStackPointerData { tag: SrcTag(");
                    reveal_strlit("add_dsp AddToDataStackPointerData { tag: ");
                    reveal_strlit("SrcTag(");
                    reveal_strlit("), offset: ");
                    reveal_strlit(")");
                    reveal_strlit(", offset: ");
                }
            },
            Statement::BranchIfZero(d) => {
                push_str(&mut s, "branch to ");
                push_ref(&mut s, d.destination);
                push_str(&mut s, " if ");
                push_value_debug(&mut s, &d.value);
                push_str(&mut s, " == 0");
            },
            Statement::CompareBranch(d) => {
                push_str(&mut s, "compare ");
                push_value_debug(&mut s, &d.left);
                push_str(&mut s, " with ");
                push_value_debug(&mut s, &d.right);
                push_str(&mut s, ", on ");
                match d.branch_flag {
                    BranchFlag::Zero => push_str(&mut s, "Zero"),
                    BranchFlag::Carry => push_str(&mut s, "Carry"),
                }
                push_str(&mut s, " set => ");
                push_optional_ref_debug(&mut s, d.branch_set);
                push_str(&mut s, ", clear => ");
                push_optional_ref_debug(&mut s, d.branch_clear);
            },
            Statement::CompareEq(d) => push_binary_text(&mut s, "compare ", " == ", &d.left, &d.right, &d.destination),
            Statement::CompareNotEq(d) => push_binary_text(&mut s, "compare ", " != ", &d.left, &d.right, &d.destination),
            Statement::CompareLt(d) => push_binary_text(&mut s, "compare ", " < ", &d.left, &d.right, &d.destination),
            Statement::CompareGte(d) => push_binary_text(&mut s, "compare ", " >= ", &d.left, &d.right, &d.destination),
            Statement::Copy(d) => {
                push_str(&mut s, "copy ");
                push_value_debug(&mut s, &d.value);
                push_str(&mut s, " => ");
                push_location_debug(&mut s, &d.destination);
            },
            Statement::GoTo(d) => {
                push_str(&mut s, "goto ");
                push_ref(&mut s, d.destination);
            },
            Statement::InlineAsm(_) => push_str(&mut s, "inline_asm"),
            Statement::JumpRoutine(d) => {
                push_str(&mut s, "jsr JumpRoutineData { tag: SrcTag(");
                push_decimal(&mut s, d.tag.0 as u64);
                push_str(&mut s, "), destination: ");
                push_location_debug(&mut s, &d.destination);
                push_str(&mut s, " }");
                proof {
                    reveal_strlit("jsr JumpRoutineData { tag: SrcTag(");
                    reveal_strlit("jsr JumpRoutineData { tag: ");
                    reveal_strlit("SrcTag(");
                    reveal_strlit("), destination: ");
                    reveal_strlit(")");
                    reveal_strlit(", destination: ");
                }
            },
            Statement::Return(_) => push_str(&mut s, "rts"),
            Statement::Subtract(d) => push_binary_text(&mut s, "subtract ", " - ", &d.left, &d.right, &d.destination),
        }
        assert(s@ =~= statement_text(*self));
        s
    }
}

} // verus!
