//! Conversions shared by the parts of the low-level generator.
use vstd::prelude::*;
use crate::error::{Error, ErrorKind};
use crate::base_type::BaseType;
use crate::llir::block::{has_high_byte, splittable, ImmediateValue, Location, Value};
use crate::src_tag::SrcTag;
use crate::symbol_table::{self, SymbolRef};
use crate::text::push_str;

verus! {

/// Whether `x` is an error that the low-level generator reports at `tag`:
/// one that says what cannot be expressed there.
pub open spec fn unsupported_at(x: Error, tag: SrcTag) -> bool {
    x.0 matches ErrorKind::TypeExprError(t, _) && t == tag
}

/// Where a variable of the symbol table lives, as the low-level
/// representation names it: a frame offset belongs to the frame `frame`.
pub open spec fn converted_location(frame: SymbolRef, input: symbol_table::Location) -> Location {
    match input {
        symbol_table::Location::Global(addr) => Location::Global(addr),
        symbol_table::Location::FrameOffset(offset) => Location::FrameOffset(frame, offset),
        symbol_table::Location::UndeterminedGlobal => Location::UnresolvedBlock,
    }
}

/// Converts the place of a variable whose place is known.
pub fn convert_location(frame: SymbolRef, input: &symbol_table::Location) -> (r: Location)
    requires
        !(*input is UndeterminedGlobal),
    ensures
        r == converted_location(frame, *input),
{
    match input {
        symbol_table::Location::UndeterminedGlobal => vstd::pervasive::unreached(),
        symbol_table::Location::Global(addr) => Location::Global(*addr),
        symbol_table::Location::FrameOffset(offset) => Location::FrameOffset(frame, *offset),
    }
}

impl Location {
    /// Whether the place has a following byte that can be named.
    pub fn has_high_byte(&self) -> (r: bool)
        ensures
            r == has_high_byte(*self),
    {
        match self {
            Location::DataStackOffset(_) | Location::FrameOffset(_, _)
            | Location::FrameOffsetBeforeCall(_, _, _) | Location::Global(_)
            | Location::GlobalIndexed(_, _) | Location::UnresolvedGlobal(_) => true,
            _ => false,
        }
    }
}

impl Value {
    /// Whether the high and low bytes of the value can be taken.
    pub fn is_splittable(&self) -> (r: bool)
        ensures
            r == splittable(*self),
    {
        match self {
            Value::Immediate(BaseType::U16, ImmediateValue::Number(_)) => true,
            Value::Immediate(BaseType::Pointer(_), _) => true,
            Value::Immediate(_, _) => false,
            Value::Memory(m) => m.location.has_high_byte(),
        }
    }
}

/// An error for code that the low-level generator cannot produce: the
/// message says what went wrong, the tag where.
pub fn unsupported(tag: SrcTag, message: &str) -> (r: Error)
    ensures
        r.0 matches ErrorKind::TypeExprError(t, m) && t == tag && m@ == message@,
{
    let mut text = String::new();
    push_str(&mut text, message);
    assert(text@ =~= message@);
    Error(ErrorKind::TypeExprError(tag, text))
}

} // verus!
