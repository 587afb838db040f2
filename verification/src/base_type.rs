use vstd::prelude::*;
use crate::text::push_str;

verus! {

/// The machine-level representation of a value.
#[derive(Eq, PartialEq, Copy, Clone, Debug, Structural)]
pub enum NativeType {
    U8,
    U16,
}

/// The types of the Hassel language.
#[derive(Debug)]
pub enum BaseType {
    Bool,
    Pointer(Box<BaseType>),
    U16,
    U8,
    Void,
}

/// Whether a value of type `from` may be stored into a location of type `into`
/// without a cast.
pub open spec fn assignable(from: BaseType, into: BaseType) -> bool {
    ||| from == into
    ||| from is Pointer && into is U16
    ||| from is U16 && into is Pointer
    ||| from is U8 && (into is Pointer || into is U16)
    ||| from is Bool && (into is U8 || into is U16)
}

/// Whether a value of type `from` may be cast into type `into`.
pub open spec fn castable(from: BaseType, into: BaseType) -> bool {
    ||| from == into
    ||| (from is Pointer || from is U16 || from is U8) && !(into is Void) && !(from is Pointer
        && into is Pointer)
    ||| from is Bool && (into is U8 || into is U16)
}

/// Whether values of the two types may be compared with each other.
pub open spec fn comparable(left: BaseType, right: BaseType) -> bool {
    ||| left == right
    ||| left is Pointer && right is U16
    ||| left is U16 && right is Pointer
}

/// The size in bytes of a value of the type; `None` for `void`.
pub open spec fn type_size(t: BaseType) -> Option<usize> {
    match t {
        BaseType::U8 | BaseType::Bool => Some(1usize),
        BaseType::U16 | BaseType::Pointer(_) => Some(2usize),
        BaseType::Void => None,
    }
}

/// The type that an arithmetic operation between `left` and `right` yields:
/// the larger of the two when one can be assigned into the other, where a
/// `bool` gives way to the other operand of the same size.
pub open spec fn chosen_type(left: BaseType, right: BaseType) -> Option<BaseType> {
    if left == right {
        Some(left)
    } else if assignable(left, right) || assignable(right, left) {
        let ls = type_size(left);
        let rs = type_size(right);
        if ls == rs {
            if left is Bool {
                Some(right)
            } else {
                Some(left)
            }
        } else if rs is None || (ls is Some && ls->0 > rs->0) {
            Some(left)
        } else {
            Some(right)
        }
    } else {
        None
    }
}

impl BaseType {
    /// Structural equality of two types.
    pub fn same_as(&self, other: &BaseType) -> (r: bool)
        ensures
            r == (*self == *other),
        decreases self,
    {
        match (self, other) {
            (BaseType::Bool, BaseType::Bool) => true,
            (BaseType::U16, BaseType::U16) => true,
            (BaseType::U8, BaseType::U8) => true,
            (BaseType::Void, BaseType::Void) => true,
            (BaseType::Pointer(a), BaseType::Pointer(b)) => {
                let r = (**a).same_as(&**b);
                r
            },
            _ => false,
        }
    }

    pub fn as_native(&self) -> (r: Option<NativeType>)
        ensures
            r == match *self {
                BaseType::U8 | BaseType::Bool => Some(NativeType::U8),
                BaseType::U16 | BaseType::Pointer(_) => Some(NativeType::U16),
                BaseType::Void => None::<NativeType>,
            },
    {
        match self {
            BaseType::U8 | BaseType::Bool => Some(NativeType::U8),
            BaseType::U16 | BaseType::Pointer(_) => Some(NativeType::U16),
            BaseType::Void => None,
        }
    }

    pub fn is_pointer(&self) -> (r: bool)
        ensures
            r == (*self is Pointer),
    {
        self.can_index()
    }

    pub fn can_index(&self) -> (r: bool)
        ensures
            r == (*self is Pointer),
    {
        match self {
            BaseType::Pointer(_) => true,
            _ => false,
        }
    }

    pub fn can_index_array(&self) -> (r: bool)
        ensures
            r == (*self is U8 || *self is U16),
    {
        match self {
            BaseType::Bool | BaseType::Pointer(_) | BaseType::Void => false,
            BaseType::U8 | BaseType::U16 => true,
        }
    }

    pub fn can_assign_into(&self, into: &BaseType) -> (r: bool)
        ensures
            r == assignable(*self, *into),
    {
        if self.same_as(into) {
            true
        } else {
            match self {
                BaseType::Pointer(_) => match into {
                    BaseType::U16 => true,
                    _ => false,
                },
                BaseType::U16 => match into {
                    BaseType::Pointer(_) => true,
                    _ => false,
                },
                BaseType::U8 => match into {
                    BaseType::Pointer(_) | BaseType::U16 => true,
                    _ => false,
                },
                BaseType::Bool => match into {
                    BaseType::U8 | BaseType::U16 => true,
                    _ => false,
                },
                BaseType::Void => false,
            }
        }
    }

    pub fn can_cast_into(&self, into: &BaseType) -> (r: bool)
        ensures
            r == castable(*self, *into),
    {
        if self.same_as(into) {
            true
        } else {
            match self {
                BaseType::Pointer(_) => match into {
                    BaseType::U16 | BaseType::U8 | BaseType::Bool => true,
                    _ => false,
                },
                BaseType::U16 => match into {
                    BaseType::Pointer(_) | BaseType::U8 | BaseType::Bool => true,
                    _ => false,
                },
                BaseType::U8 => match into {
                    BaseType::Pointer(_) | BaseType::U16 | BaseType::Bool => true,
                    _ => false,
                },
                BaseType::Bool => match into {
                    BaseType::U8 | BaseType::U16 => true,
                    _ => false,
                },
                BaseType::Void => false,
            }
        }
    }

    pub fn can_compare(&self, with: &BaseType) -> (r: bool)
        ensures
            r == comparable(*self, *with),
    {
        if self.same_as(with) {
            true
        } else {
            match self {
                BaseType::Pointer(_) => match with {
                    BaseType::U16 => true,
                    _ => false,
                },
                BaseType::U16 => match with {
                    BaseType::Pointer(_) => true,
                    _ => false,
                },
                BaseType::U8 | BaseType::Bool | BaseType::Void => false,
            }
        }
    }

    pub fn underlying_type(&self) -> (r: Option<&BaseType>)
        ensures
            r == match *self {
                BaseType::Pointer(inner) => Some(&*inner),
                _ => None::<&BaseType>,
            },
    {
        match self {
            BaseType::Pointer(base_type) => Some(&**base_type),
            _ => None,
        }
    }

    pub fn size(&self) -> (r: Option<usize>)
        ensures
            r == type_size(*self),
    {
        match self {
            BaseType::U8 | BaseType::Bool => Some(1),
            BaseType::U16 | BaseType::Pointer(_) => Some(2),
            BaseType::Void => None,
        }
    }

    pub fn choose_type(left: &BaseType, right: &BaseType) -> (r: Option<BaseType>)
        ensures
            r == chosen_type(*left, *right),
    {
        if left.same_as(right) {
            Some(left.clone())
        } else if left.can_assign_into(right) || right.can_assign_into(left) {
            let left_size = left.size();
            let right_size = right.size();
            if left_size == right_size {
                if left.same_as(&BaseType::Bool) {
                    Some(right.clone())
                } else {
                    Some(left.clone())
                }
            } else if right_size.is_none() || (left_size.is_some() && left_size.unwrap()
                > right_size.unwrap()) {
                Some(left.clone())
            } else {
                Some(right.clone())
            }
        } else {
            None
        }
    }
}

/// How a type is written in the program text: `bool`, `u8`, `u16`, `void`,
/// and `&[t]` for a pointer to `t`.
pub open spec fn type_text(t: BaseType) -> Seq<char>
    decreases t,
{
    match t {
        BaseType::Bool => "bool"@,
        BaseType::Pointer(inner) => "&["@ + type_text(*inner) + "]"@,
        BaseType::U16 => "u16"@,
        BaseType::U8 => "u8"@,
        BaseType::Void => "void"@,
    }
}

impl BaseType {
    /// Appends how the type is written to `s`.
    pub fn push_text(&self, s: &mut String)
        ensures
            final(s)@ == old(s)@ + type_text(*self),
        decreases self,
    {
        match self {
            BaseType::Bool => push_str(s, "bool"),
            BaseType::Pointer(inner) => {
                push_str(s, "&[");
                (**inner).push_text(s);
                push_str(s, "]");
                assert(s@ =~= old(s)@ + type_text(*self));
            },
            BaseType::U16 => push_str(s, "u16"),
            BaseType::U8 => push_str(s, "u8"),
            BaseType::Void => push_str(s, "void"),
        }
    }

    /// How the type is written in the program text.
    pub fn to_text(&self) -> (r: String)
        ensures
            r@ == type_text(*self),
    {
        let mut s = String::new();
        self.push_text(&mut s);
        assert(s@ =~= type_text(*self));
        s
    }
}

impl PartialEq for BaseType {
    fn eq(&self, other: &BaseType) -> (r: bool) {
        self.same_as(other)
    }
}

impl Eq for BaseType {}

impl vstd::std_specs::cmp::PartialEqSpecImpl for BaseType {
    open spec fn obeys_eq_spec() -> bool {
        true
    }

    open spec fn eq_spec(&self, other: &BaseType) -> bool {
        *self == *other
    }
}

impl Clone for BaseType {
    fn clone(&self) -> (r: BaseType)
        ensures
            r == *self,
        decreases self,
    {
        match self {
            BaseType::Bool => BaseType::Bool,
            BaseType::Pointer(inner) => BaseType::Pointer(Box::new((**inner).clone())),
            BaseType::U16 => BaseType::U16,
            BaseType::U8 => BaseType::U8,
            BaseType::Void => BaseType::Void,
        }
    }
}

/// Every type can be assigned into, cast into and compared with itself.
pub proof fn lemma_type_relations_reflexive(t: BaseType)
    ensures
        assignable(t, t),
        castable(t, t),
        comparable(t, t),
{
}

/// Comparability is symmetric.
pub proof fn lemma_comparable_symmetric(a: BaseType, b: BaseType)
    ensures
        comparable(a, b) == comparable(b, a),
{
}

/// Anything that can be assigned can also be cast.
pub proof fn lemma_assignable_implies_castable(from: BaseType, into: BaseType)
    requires
        assignable(from, into),
    ensures
        castable(from, into),
{
}

/// Choosing a type for two operands either fails or yields one of the two
/// operands, and it never yields `void`.
pub proof fn lemma_chosen_type_is_an_operand(left: BaseType, right: BaseType)
    requires
        !(left is Void) || !(right is Void),
    ensures
        chosen_type(left, right) matches Some(t) ==> (t == left || t == right) && !(t is Void),
{
}

/// Choosing a type for two operands does not depend on their order, except
/// between two distinct types of equal size that are not `bool`.
pub proof fn lemma_chosen_type_symmetric(left: BaseType, right: BaseType)
    requires
        left == right || type_size(left) != type_size(right) || left is Bool || right is Bool,
    ensures
        chosen_type(left, right) == chosen_type(right, left),
{
}

} // verus!
