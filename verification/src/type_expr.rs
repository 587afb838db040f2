use vstd::prelude::*;

verus! {

/// The machine-level representation of a value.
#[derive(Eq, PartialEq, Copy, Clone, Debug, Structural)]
pub enum NativeType {
    U8,
    U16,
}

/// A type in a type expression; `UnresolvedNumber` is the type of a literal
/// number whose width is not yet known.
#[derive(Debug)]
pub enum BaseType {
    Bool,
    Pointer(Box<BaseType>),
    U16,
    U8,
    UnresolvedNumber,
    Void,
}

/// Whether a value of type `from` may be stored into a location of type `into`.
pub open spec fn assignable(from: BaseType, into: BaseType) -> bool {
    ||| from == into
    ||| from is Pointer && into is U16
    ||| from is U16 && (into is Pointer || into is UnresolvedNumber)
    ||| from is U8 && (into is Pointer || into is U16 || into is UnresolvedNumber)
    ||| from is Bool && (into is U8 || into is U16 || into is UnresolvedNumber)
    ||| from is UnresolvedNumber && (into is U8 || into is U16 || into is Pointer)
}

/// Whether a value of type `from` may be cast into type `into`.
pub open spec fn castable(from: BaseType, into: BaseType) -> bool {
    ||| from == into
    ||| from is Pointer && (into is U16 || into is U8 || into is Bool)
    ||| from is U16 && (into is Pointer || into is U8 || into is Bool)
    ||| from is U8 && (into is Pointer || into is U16 || into is Bool)
    ||| from is Bool && (into is U8 || into is U16)
    ||| from is UnresolvedNumber && (into is U8 || into is U16 || into is Pointer)
}

/// Whether values of the two types may be compared with each other.
pub open spec fn comparable(left: BaseType, right: BaseType) -> bool {
    ||| left == right
    ||| left is Pointer && right is U16
    ||| left is U16 && (right is Pointer || right is UnresolvedNumber)
    ||| left is U8 && right is UnresolvedNumber
    ||| left is UnresolvedNumber && (right is U8 || right is U16)
}

/// The size in bytes of a value of the type; `None` while a number's width is
/// unresolved.
pub open spec fn type_size(t: BaseType) -> Option<usize> {
    match t {
        BaseType::U8 | BaseType::Bool => Some(1usize),
        BaseType::U16 | BaseType::Pointer(_) => Some(2usize),
        BaseType::Void => Some(0usize),
        BaseType::UnresolvedNumber => None,
    }
}

/// The type that an arithmetic operation between `left` and `right` yields.
pub open spec fn chosen_type(left: BaseType, right: BaseType) -> Option<BaseType> {
    if left == right {
        Some(left)
    } else if assignable(left, right) || assignable(right, left) {
        let ls = type_size(left);
        let rs = type_size(right);
        if ls == rs {
            if left is Bool {
                Some(right)
            } else {
                Some(left)
            }
        } else if ls is None {
            Some(right)
        } else if rs is None {
            Some(left)
        } else if ls->0 > rs->0 {
            Some(left)
        } else {
            Some(right)
        }
    } else {
        None
    }
}

impl BaseType {
    /// Structural equality of two types.
    pub fn same_as(&self, other: &BaseType) -> (r: bool)
        ensures
            r == (*self == *other),
        decreases self,
    {
        match (self, other) {
            (BaseType::Bool, BaseType::Bool) => true,
            (BaseType::U16, BaseType::U16) => true,
            (BaseType::U8, BaseType::U8) => true,
            (BaseType::UnresolvedNumber, BaseType::UnresolvedNumber) => true,
            (BaseType::Void, BaseType::Void) => true,
            (BaseType::Pointer(a), BaseType::Pointer(b)) => {
                let r = (**a).same_as(&**b);
                r
            },
            _ => false,
        }
    }

    pub fn as_native(&self) -> (r: Option<NativeType>)
        ensures
            r == match *self {
                BaseType::U8 | BaseType::Bool => Some(NativeType::U8),
                BaseType::U16 | BaseType::Pointer(_) => Some(NativeType::U16),
                BaseType::UnresolvedNumber | BaseType::Void => None::<NativeType>,
            },
    {
        match self {
            BaseType::Bool => Some(NativeType::U8),
            BaseType::Pointer(_) => Some(NativeType::U16),
            BaseType::U16 => Some(NativeType::U16),
            BaseType::U8 => Some(NativeType::U8),
            BaseType::UnresolvedNumber => None,
            BaseType::Void => None,
        }
    }

    pub fn can_index_array(&self) -> (r: bool)
        ensures
            r == assignable(*self, BaseType::U16),
    {
        self.can_assign_into(&BaseType::U16)
    }

    pub fn can_assign_into(&self, into: &BaseType) -> (r: bool)
        ensures
            r == assignable(*self, *into),
    {
        if self.same_as(into) {
            true
        } else {
            match self {
                BaseType::Pointer(_) => match into {
                    BaseType::U16 => true,
                    _ => false,
                },
                BaseType::U16 => match into {
                    BaseType::Pointer(_) | BaseType::UnresolvedNumber => true,
                    _ => false,
                },
                BaseType::U8 => match into {
                    BaseType::Pointer(_) | BaseType::U16 | BaseType::UnresolvedNumber => true,
                    _ => false,
                },
                BaseType::Bool => match into {
                    BaseType::U8 | BaseType::U16 | BaseType::UnresolvedNumber => true,
                    _ => false,
                },
                BaseType::Void => false,
                BaseType::UnresolvedNumber => match into {
                    BaseType::U8 | BaseType::U16 | BaseType::Pointer(_) => true,
                    _ => false,
                },
            }
        }
    }

    pub fn can_cast_into(&self, into: &BaseType) -> (r: bool)
        ensures
            r == castable(*self, *into),
    {
        if self.same_as(into) {
            true
        } else {
            match self {
                BaseType::Pointer(_) => match into {
                    BaseType::U16 | BaseType::U8 | BaseType::Bool => true,
                    _ => false,
                },
                BaseType::U16 => match into {
                    BaseType::Pointer(_) | BaseType::U8 | BaseType::Bool => true,
                    _ => false,
                },
                BaseType::U8 => match into {
                    BaseType::Pointer(_) | BaseType::U16 | BaseType::Bool => true,
                    _ => false,
                },
                BaseType::Bool => match into {
                    BaseType::U8 | BaseType::U16 => true,
                    _ => false,
                },
                BaseType::Void => false,
                BaseType::UnresolvedNumber => match into {
                    BaseType::U8 | BaseType::U16 | BaseType::Pointer(_) => true,
                    _ => false,
                },
            }
        }
    }

    pub fn can_compare(&self, with: &BaseType) -> (r: bool)
        ensures
            r == comparable(*self, *with),
    {
        if self.same_as(with) {
            true
        } else {
            match self {
                BaseType::Pointer(_) => match with {
                    BaseType::U16 => true,
                    _ => false,
                },
                BaseType::U16 => match with {
                    BaseType::Pointer(_) | BaseType::UnresolvedNumber => true,
                    _ => false,
                },
                BaseType::U8 => match with {
                    BaseType::UnresolvedNumber => true,
                    _ => false,
                },
                BaseType::Bool => false,
                BaseType::Void => false,
                BaseType::UnresolvedNumber => match with {
                    BaseType::U8 | BaseType::U16 => true,
                    _ => false,
                },
            }
        }
    }

    pub fn underlying_type(&self) -> (r: Option<BaseType>)
        ensures
            r == match *self {
                BaseType::Pointer(inner) => Some(*inner),
                _ => None::<BaseType>,
            },
    {
        match self {
            BaseType::Pointer(base_type) => Some((**base_type).clone()),
            _ => None,
        }
    }

    pub fn size(&self) -> (r: Option<usize>)
        ensures
            r == type_size(*self),
    {
        match self {
            BaseType::Bool => Some(1),
            BaseType::Pointer(_) => Some(2),
            BaseType::U16 => Some(2),
            BaseType::U8 => Some(1),
            BaseType::Void => Some(0),
            BaseType::UnresolvedNumber => None,
        }
    }

    pub fn choose_type(left: &BaseType, right: &BaseType) -> (r: Option<BaseType>)
        ensures
            r == chosen_type(*left, *right),
    {
        if left.same_as(right) {
            Some(left.clone())
        } else if left.can_assign_into(right) || right.can_assign_into(left) {
            let left_size = left.size();
            let right_size = right.size();
            if left_size == right_size {
                if left.same_as(&BaseType::Bool) {
                    Some(right.clone())
                } else {
                    Some(left.clone())
                }
            } else if left_size.is_none() {
                Some(right.clone())
            } else if right_size.is_none() {
                Some(left.clone())
            } else if left_size.unwrap() > right_size.unwrap() {
                Some(left.clone())
            } else {
                Some(right.clone())
            }
        } else {
            None
        }
    }
}

impl PartialEq for BaseType {
    fn eq(&self, other: &BaseType) -> (r: bool) {
        self.same_as(other)
    }
}

impl Eq for BaseType {}

impl vstd::std_specs::cmp::PartialEqSpecImpl for BaseType {
    open spec fn obeys_eq_spec() -> bool {
        true
    }

    open spec fn eq_spec(&self, other: &BaseType) -> bool {
        *self == *other
    }
}

impl Clone for BaseType {
    fn clone(&self) -> (r: BaseType)
        ensures
            r == *self,
        decreases self,
    {
        match self {
            BaseType::Bool => BaseType::Bool,
            BaseType::Pointer(inner) => BaseType::Pointer(Box::new((**inner).clone())),
            BaseType::U16 => BaseType::U16,
            BaseType::U8 => BaseType::U8,
            BaseType::UnresolvedNumber => BaseType::UnresolvedNumber,
            BaseType::Void => BaseType::Void,
        }
    }
}

/// An expression over types, whose resolution computes the type of the
/// value it describes.
#[derive(Debug)]
pub enum TypeExpression {
    Arithmetic(Box<TypeExpression>, Box<TypeExpression>),
    Assign(BaseType, Box<TypeExpression>),
    Cast(BaseType, Box<TypeExpression>),
    Comparison(Box<TypeExpression>, Box<TypeExpression>),
    Index(Box<TypeExpression>, Box<TypeExpression>),
    Unit(BaseType),
}

/// The type that a type expression resolves to, or `None` where it is ill-typed.
pub open spec fn resolved(e: TypeExpression) -> Option<BaseType>
    decreases e,
{
    match e {
        TypeExpression::Arithmetic(l, r) => match (resolved(*l), resolved(*r)) {
            (Some(lt), Some(rt)) => chosen_type(lt, rt),
            _ => None,
        },
        TypeExpression::Assign(into, v) => match resolved(*v) {
            Some(vt) => if assignable(vt, into) {
                Some(into)
            } else {
                None
            },
            None => None,
        },
        TypeExpression::Cast(into, v) => match resolved(*v) {
            Some(vt) => if castable(vt, into) {
                Some(into)
            } else {
                None
            },
            None => None,
        },
        TypeExpression::Comparison(l, r) => match (resolved(*l), resolved(*r)) {
            (Some(lt), Some(rt)) => if comparable(lt, rt) {
                Some(BaseType::Bool)
            } else {
                None
            },
            _ => None,
        },
        TypeExpression::Index(p, i) => match (resolved(*p), resolved(*i)) {
            (Some(BaseType::Pointer(under)), Some(it)) => if assignable(it, BaseType::U16) {
                Some(*under)
            } else {
                None
            },
            _ => None,
        },
        TypeExpression::Unit(t) => Some(t),
    }
}

impl TypeExpression {
    pub fn resolve(&self) -> (r: Option<BaseType>)
        ensures
            r == resolved(*self),
        decreases self,
    {
        match self {
            TypeExpression::Arithmetic(left, right) => {
                let left_type = match (**left).resolve() {
                    Some(t) => t,
                    None => return None,
                };
                let right_type = match (**right).resolve() {
                    Some(t) => t,
                    None => return None,
                };
                BaseType::choose_type(&left_type, &right_type)
            },
            TypeExpression::Assign(into, value) => {
                let value_type = match (**value).resolve() {
                    Some(t) => t,
                    None => return None,
                };
                if value_type.can_assign_into(into) {
                    Some(into.clone())
                } else {
                    None
                }
            },
            TypeExpression::Cast(into, value) => {
                let value_type = match (**value).resolve() {
                    Some(t) => t,
                    None => return None,
                };
                if value_type.can_cast_into(into) {
                    Some(into.clone())
                } else {
                    None
                }
            },
            TypeExpression::Comparison(left, right) => {
                let left_type = match (**left).resolve() {
                    Some(t) => t,
                    None => return None,
                };
                let right_type = match (**right).resolve() {
                    Some(t) => t,
                    None => return None,
                };
                if left_type.can_compare(&right_type) {
                    Some(BaseType::Bool)
                } else {
                    None
                }
            },
            TypeExpression::Index(pointer, index) => {
                let pointer_type = match (**pointer).resolve() {
                    Some(t) => t,
                    None => return None,
                };
                let index_type = match (**index).resolve() {
                    Some(t) => t,
                    None => return None,
                };
                if let BaseType::Pointer(underlying_type) = pointer_type {
                    if index_type.can_index_array() {
                        Some(*underlying_type)
                    } else {
                        None
                    }
                } else {
                    None
                }
            },
            TypeExpression::Unit(base_type) => Some(base_type.clone()),
        }
    }

    pub fn is_equivalent(&self, base_type: &BaseType) -> (r: bool)
        ensures
            r == match resolved(*self) {
                Some(t) => comparable(t, *base_type),
                None => false,
            },
    {
        match self.resolve() {
            Some(resolved) => resolved.can_compare(base_type),
            None => false,
        }
    }
}

/// A comparison that resolves always resolves to `bool`, and an assignment or
/// cast that resolves always resolves to its target type.
pub proof fn lemma_resolved_result_kinds(e: TypeExpression)
    ensures
        e is Comparison && resolved(e) is Some ==> resolved(e) == Some(BaseType::Bool),
        match e {
            TypeExpression::Assign(into, _) => resolved(e) is Some ==> resolved(e) == Some(into),
            TypeExpression::Cast(into, _) => resolved(e) is Some ==> resolved(e) == Some(into),
            _ => true,
        },
{
}

/// An expression that mixes in `void` through arithmetic never resolves.
pub proof fn lemma_void_arithmetic_unresolved(other: BaseType)
    requires
        !(other is Void),
    ensures
        resolved(
            TypeExpression::Arithmetic(
                Box::new(TypeExpression::Unit(other)),
                Box::new(TypeExpression::Unit(BaseType::Void)),
            ),
        ) is None,
        resolved(
            TypeExpression::Arithmetic(
                Box::new(TypeExpression::Unit(BaseType::Void)),
                Box::new(TypeExpression::Unit(other)),
            ),
        ) is None,
{
    reveal_with_fuel(resolved, 2);
}

} // verus!
