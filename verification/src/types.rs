use vstd::prelude::*;

verus! {

/// The width of a value in the intermediate representation.
#[derive(Debug, Copy, Clone, Eq, PartialEq, Structural)]
pub enum Type {
    U8,
    U16,
    Void,
    ArrayU8,
    Unresolved,
}

impl Type {
    /// The size in bytes; only a resolved type has one.
    pub fn size(&self) -> (r: usize)
        requires
            !(*self is Unresolved),
        ensures
            r == match *self {
                Type::U8 => 1usize,
                Type::U16 | Type::ArrayU8 => 2usize,
                _ => 0usize,
            },
    {
        match self {
            Type::U8 => 1,
            Type::U16 | Type::ArrayU8 => 2,
            Type::Void => 0,
            Type::Unresolved => vstd::pervasive::unreached(),
        }
    }
}

/// A value together with its width.
#[derive(Debug, Copy, Clone, Eq, PartialEq, Structural)]
pub enum TypedValue {
    UnresolvedInt(i32),
    U8(u8),
    U16(u16),
    ArrayU8(u16),
}

impl TypedValue {
    pub fn get_type(&self) -> (r: Type)
        ensures
            r == match *self {
                TypedValue::UnresolvedInt(_) => Type::Void,
                TypedValue::U8(_) => Type::U8,
                TypedValue::U16(_) => Type::U16,
                TypedValue::ArrayU8(_) => Type::ArrayU8,
            },
    {
        match self {
            TypedValue::UnresolvedInt(_) => Type::Void,
            TypedValue::U8(_) => Type::U8,
            TypedValue::U16(_) => Type::U16,
            TypedValue::ArrayU8(_) => Type::ArrayU8,
        }
    }

    pub fn as_u8(&self) -> (r: u8)
        requires
            *self is U8,
        ensures
            *self == TypedValue::U8(r),
    {
        match self {
            TypedValue::U8(val) => *val,
            _ => vstd::pervasive::unreached(),
        }
    }

    pub fn as_u16(&self) -> (r: u16)
        requires
            *self is U16,
        ensures
            *self == TypedValue::U16(r),
    {
        match self {
            TypedValue::U16(val) => *val,
            _ => vstd::pervasive::unreached(),
        }
    }

    pub fn as_ptr(&self) -> (r: u16)
        requires
            *self is ArrayU8,
        ensures
            *self == TypedValue::ArrayU8(r),
    {
        match self {
            TypedValue::ArrayU8(addr) => *addr,
            _ => vstd::pervasive::unreached(),
        }
    }
}

} // verus!
