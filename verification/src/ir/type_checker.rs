//! Type inference and checking of the intermediate representation.
use vstd::prelude::*;
use crate::base_type::{assignable, castable, chosen_type, type_text, BaseType};
use crate::src_tag::SrcTag;
use crate::text::{decimal_text, push_decimal, push_str};
use crate::error::{Error, ErrorKind};
use crate::ir::block::{
    expr_tag, BinaryOpData, Block, CallData, Expr, NumberData, Statement, SymbolData,
};
use crate::parse::ast::arithmetic;
use crate::parse::ast::NameType;
use crate::symbol_table::{
    DefaultSymbolTable, FunctionMetadata, HandleGenerator, ParentedSymbolTableWrapper,
    constant_with_ref, function_named, variable_with_ref, SymbolEntry, SymbolRef, SymbolTable,
};

verus! {

/// The type of an expression as far as it is known: a number's or symbol's
/// type, an operation's result type, a call's return type, or what the
/// indexed array points to.
pub open spec fn expr_type(e: Expr) -> Option<BaseType> {
    match e {
        Expr::Number(d) => d.value_type,
        Expr::Symbol(d) => d.value_type,
        Expr::BinaryOp(d) => d.result_type,
        Expr::Call(d) => d.return_type,
        Expr::ArrayIndex(d) => match d.array_type {
            Some(BaseType::Pointer(inner)) => Some(*inner),
            _ => None,
        },
    }
}

/// The expression once `t` is implied for it: a number or operation without
/// a type takes `t`, and an arithmetic operation passes `t` on to its
/// operands; anything else keeps its type.
pub open spec fn implied(e: Expr, t: BaseType) -> Expr
    decreases e,
{
    match e {
        Expr::Number(d) => if d.value_type is None {
            Expr::Number(NumberData { tag: d.tag, value: d.value, value_type: Some(t) })
        } else {
            e
        },
        Expr::BinaryOp(d) => if d.result_type is None {
            Expr::BinaryOp(
                BinaryOpData {
                    tag: d.tag,
                    op: d.op,
                    left: if arithmetic(d.op) {
                        Box::new(implied(*d.left, t))
                    } else {
                        d.left
                    },
                    right: if arithmetic(d.op) {
                        Box::new(implied(*d.right, t))
                    } else {
                        d.right
                    },
                    result_type: Some(t),
                },
            )
        } else {
            e
        },
        _ => e,
    }
}

/// The expression with the default type `u8` given to a number without one.
pub open spec fn defaulted(e: Expr) -> Expr {
    match e {
        Expr::Number(d) => if d.value_type is None {
            Expr::Number(NumberData { tag: d.tag, value: d.value, value_type: Some(BaseType::U8) })
        } else {
            e
        },
        _ => e,
    }
}

/// The type of a symbol that an expression reads: a constant's type, else a
/// variable's.
pub open spec fn symbol_type(scopes: Seq<Seq<SymbolEntry>>, r: SymbolRef) -> Option<BaseType> {
    match constant_with_ref(scopes, r) {
        Some(c) => Some(c.base_type),
        None => match variable_with_ref(scopes, r) {
            Some(v) => Some(v.base_type),
            None => None,
        },
    }
}

/// Whether every symbol that the expression reads is a constant or a
/// variable of the scopes.
pub open spec fn symbols_known(e: Expr, scopes: Seq<Seq<SymbolEntry>>) -> bool
    decreases e,
{
    match e {
        Expr::Number(_) => true,
        Expr::Symbol(d) => symbol_type(scopes, d.symbol) is Some,
        Expr::BinaryOp(d) => symbols_known(*d.left, scopes) && symbols_known(*d.right, scopes),
        Expr::Call(d) => forall|i: int|
            0 <= i < d.arguments@.len() ==> symbols_known(#[trigger] d.arguments@[i], scopes),
        Expr::ArrayIndex(d) => symbol_type(scopes, d.array) is Some && symbols_known(*d.index, scopes),
    }
}

/// The first error that inferring the types of the expression meets, in
/// the order the expression is walked: left before right, arguments in order.
pub open spec fn infer_error(e: Expr, scopes: Seq<Seq<SymbolEntry>>) -> Option<Error>
    decreases e,
{
    match e {
        Expr::Number(_) | Expr::Symbol(_) => None,
        Expr::BinaryOp(d) => match infer_error(*d.left, scopes) {
            Some(x) => Some(x),
            None => infer_error(*d.right, scopes),
        },
        Expr::Call(d) => call_infer_error(d, scopes),
        Expr::ArrayIndex(d) => infer_error(*d.index, scopes),
    }
}

/// The first error that inferring the types of a call meets: an unknown
/// function, a wrong number of arguments, or the first argument's error.
pub open spec fn call_infer_error(d: CallData, scopes: Seq<Seq<SymbolEntry>>) -> Option<Error>
    decreases d,
{
    match function_named(scopes, d.function@) {
        None => Some(Error(ErrorKind::SymbolNotFound(d.tag, d.function))),
        Some(f) => if d.arguments@.len() != f.parameters@.len() {
            Some(
                Error(
                    ErrorKind::ExpectedNArgumentsGotM(
                        d.tag,
                        d.function,
                        f.parameters@.len() as usize,
                        d.arguments@.len() as usize,
                    ),
                ),
            )
        } else {
            first_infer_error(d.arguments@, scopes)
        },
    }
}

/// The first error among the expressions, in order.
pub open spec fn first_infer_error(es: Seq<Expr>, scopes: Seq<Seq<SymbolEntry>>) -> Option<Error>
    decreases es,
{
    if es.len() == 0 {
        None
    } else {
        match first_infer_error(es.drop_last(), scopes) {
            Some(x) => Some(x),
            None => infer_error(es.last(), scopes),
        }
    }
}

/// A binary operation once its operands' types have been inferred as `l`
/// and `r`: a comparison of two untyped operands gives both the default
/// type; then an untyped operand takes the other's type, which becomes the
/// operation's result type.
pub open spec fn combined(d: BinaryOpData, l: Expr, r: Expr) -> Expr {
    let both_open = !arithmetic(d.op) && expr_type(l) is None && expr_type(r) is None;
    let l2 = if both_open {
        defaulted(l)
    } else {
        l
    };
    let r2 = if both_open {
        defaulted(r)
    } else {
        r
    };
    let lt = expr_type(l2);
    let rt = expr_type(r2);
    if lt is None && rt is Some {
        Expr::BinaryOp(
            BinaryOpData {
                tag: d.tag,
                op: d.op,
                left: Box::new(implied(l2, rt->0)),
                right: Box::new(r2),
                result_type: rt,
            },
        )
    } else if lt is Some && rt is None {
        Expr::BinaryOp(
            BinaryOpData {
                tag: d.tag,
                op: d.op,
                left: Box::new(l2),
                right: Box::new(implied(r2, lt->0)),
                result_type: lt,
            },
        )
    } else {
        Expr::BinaryOp(
            BinaryOpData {
                tag: d.tag,
                op: d.op,
                left: Box::new(l2),
                right: Box::new(r2),
                result_type: d.result_type,
            },
        )
    }
}

/// An expression whose type is still open after inference takes `t`.
pub open spec fn implied_if_open(e: Expr, t: BaseType) -> Expr {
    if expr_type(e) is None {
        implied(e, t)
    } else {
        e
    }
}

/// Whether inferring the types of `e` gives `e2`: symbols take their
/// declared types, an index without a type becomes a `u16`, an array index
/// takes the array's type, and operations and calls as `combined` and
/// `call_infers_to` say.
pub open spec fn infers_to(e: Expr, e2: Expr, scopes: Seq<Seq<SymbolEntry>>) -> bool
    decreases e,
{
    match e {
        Expr::Number(_) => e2 == e,
        Expr::Symbol(d) => e2 == Expr::Symbol(
            SymbolData { tag: d.tag, symbol: d.symbol, value_type: symbol_type(scopes, d.symbol) },
        ),
        Expr::BinaryOp(d) => exists|l: Expr, r: Expr|
            infers_to(*d.left, l, scopes) && infers_to(*d.right, r, scopes) && e2 == combined(
                d,
                l,
                r,
            ),
        Expr::Call(d) => e2 matches Expr::Call(d2) && call_infers_to(d, d2, scopes),
        Expr::ArrayIndex(d) => e2 matches Expr::ArrayIndex(d2) && d2.tag == d.tag && d2.array
            == d.array && d2.array_type == symbol_type(scopes, d.array) && exists|i: Expr|
            infers_to(*d.index, i, scopes) && *d2.index == implied_if_open(i, BaseType::U16),
    }
}

/// Whether inferring the types of a call gives `d2`: it takes the called
/// function's return type, and each argument, once inferred, takes the
/// type of its parameter if its own is still open.
pub open spec fn call_infers_to(d: CallData, d2: CallData, scopes: Seq<Seq<SymbolEntry>>) -> bool
    decreases d,
{
    &&& function_named(scopes, d.function@) matches Some(f)
    &&& d2.tag == d.tag
    &&& d2.function == d.function
    &&& d2.return_type == Some(f.return_type)
    &&& d2.arguments@.len() == d.arguments@.len()
    &&& d.arguments@.len() == f.parameters@.len()
    &&& forall|i: int|
        0 <= i < d.arguments@.len() ==> exists|m: Expr|
            infers_to(#[trigger] d.arguments@[i], m, scopes) && d2.arguments@[i] == implied_if_open(
                m,
                f.parameters@[i].base_type,
            )
}

impl Expr {
    /// The type of the expression as far as it is known.
    pub fn base_type(&self) -> (r: Option<&BaseType>)
        ensures
            r == match expr_type(*self) {
                Some(t) => Some(&t),
                None => None::<&BaseType>,
            },
    {
        match self {
            Expr::Number(data) => data.value_type.as_ref(),
            Expr::Symbol(data) => data.value_type.as_ref(),
            Expr::BinaryOp(data) => data.result_type.as_ref(),
            Expr::Call(data) => data.return_type.as_ref(),
            Expr::ArrayIndex(data) => match &data.array_type {
                Some(at) => at.underlying_type(),
                None => None,
            },
        }
    }

    /// Gives `base_type` to the parts of the expression whose type is still
    /// open.
    pub fn imply_type(&mut self, base_type: &BaseType)
        ensures
            *final(self) == implied(*old(self), *base_type),
        decreases *old(self),
    {
        match self {
            Expr::Number(data) => {
                if data.value_type.is_none() {
                    data.value_type = Some(base_type.clone());
                }
            },
            Expr::BinaryOp(data) => {
                if data.result_type.is_none() {
                    data.result_type = Some(base_type.clone());
                    if data.op.is_arithmetic() {
                        data.left.imply_type(base_type);
                        data.right.imply_type(base_type);
                    }
                }
            },
            _ => {},
        }
    }

    /// Gives a number without a type the type `u8`.
    pub fn imply_defaults(&mut self)
        ensures
            *final(self) == defaulted(*old(self)),
    {
        match self {
            Expr::Number(data) => {
                if data.value_type.is_none() {
                    data.value_type = Some(BaseType::U8);
                }
            },
            _ => {},
        }
    }
}

/// Whether resolving the expression's type can proceed without a gap: its
/// symbols and indexed arrays have types, and its calls name a known
/// function with a return type and as many arguments as parameters.
pub open spec fn resolvable(e: Expr, scopes: Seq<Seq<SymbolEntry>>) -> bool
    decreases e,
{
    match e {
        Expr::Number(_) => true,
        Expr::Symbol(d) => d.value_type is Some,
        Expr::BinaryOp(d) => resolvable(*d.left, scopes) && resolvable(*d.right, scopes),
        Expr::Call(d) => call_resolvable(d, scopes),
        Expr::ArrayIndex(d) => d.array_type is Some,
    }
}

pub open spec fn call_resolvable(d: CallData, scopes: Seq<Seq<SymbolEntry>>) -> bool
    decreases d,
{
    &&& function_named(scopes, d.function@) matches Some(f)
    &&& d.arguments@.len() == f.parameters@.len()
    &&& d.return_type is Some
    &&& forall|i: int| 0 <= i < d.arguments@.len() ==> resolvable(#[trigger] d.arguments@[i], scopes)
}

/// A type error as its place and message.
pub type TypeFault = (SrcTag, Seq<char>);

/// Whether `x` is the type error `f`.
pub open spec fn is_type_error(x: Error, f: TypeFault) -> bool {
    x.0 matches ErrorKind::TypeExprError(t, m) && t == f.0 && m@ == f.1
}

/// The type that an expression resolves to, or the type error that stops it:
/// a number must have a type; an operation takes the type that its
/// operands' types choose; an array index needs a pointer whose index has a
/// type; a call needs arguments that can be assigned into its parameters.
pub open spec fn resolved(e: Expr, scopes: Seq<Seq<SymbolEntry>>) -> Result<BaseType, TypeFault>
    decreases e,
{
    match e {
        Expr::Number(d) => match d.value_type {
            Some(t) => Ok(t),
            None => Err((d.tag, "Can't infer type of number"@)),
        },
        Expr::Symbol(d) => Ok(d.value_type->0),
        Expr::BinaryOp(d) => match resolved(*d.left, scopes) {
            Err(x) => Err(x),
            Ok(l) => match resolved(*d.right, scopes) {
                Err(x) => Err(x),
                Ok(r) => match chosen_type(l, r) {
                    Some(t) => Ok(t),
                    None => Err(
                        (
                            d.tag,
                            "Can't perform arithmetic between "@ + type_text(l) + " and "@
                                + type_text(r),
                        ),
                    ),
                },
            },
        },
        Expr::Call(d) => call_resolved(d, scopes),
        Expr::ArrayIndex(d) => match d.array_type->0 {
            BaseType::Pointer(inner) => if expr_type(*d.index) is None {
                Err((expr_tag(*d.index), "Can't infer type of array index"@))
            } else {
                Ok(*inner)
            },
            t => Err((d.tag, "Can't index "@ + type_text(t))),
        },
    }
}

/// The type of a call: its return type, once every argument resolves to a
/// type that can be assigned into its parameter.
pub open spec fn call_resolved(d: CallData, scopes: Seq<Seq<SymbolEntry>>) -> Result<BaseType, TypeFault>
    decreases d,
{
    match arguments_fault(d.arguments@, function_named(scopes, d.function@)->0.parameters@, scopes) {
        Some(x) => Err(x),
        None => Ok(d.return_type->0),
    }
}

/// The first fault among the arguments of a call, in order: one that does
/// not resolve, or whose type cannot be assigned into its parameter.
pub open spec fn arguments_fault(
    args: Seq<Expr>,
    parameters: Seq<NameType>,
    scopes: Seq<Seq<SymbolEntry>>,
) -> Option<TypeFault>
    decreases args,
{
    if args.len() == 0 {
        None
    } else {
        match arguments_fault(args.drop_last(), parameters, scopes) {
            Some(x) => Some(x),
            None => match resolved(args.last(), scopes) {
                Err(x) => Some(x),
                Ok(t) => {
                    let p = parameters[args.len() - 1].base_type;
                    if assignable(t, p) {
                        None
                    } else {
                        Some(
                            (
                                expr_tag(args.last()),
                                "Argument "@ + decimal_text(args.len()) + " expected "@
                                    + type_text(p) + " but got a "@ + type_text(t),
                            ),
                        )
                    }
                },
            },
        }
    }
}

/// Whether resolving `e` leaves `e2`: every operation records the type it
/// resolved to; nothing else changes.
pub open spec fn resolves_to(e: Expr, e2: Expr, scopes: Seq<Seq<SymbolEntry>>) -> bool
    decreases e,
{
    match e {
        Expr::BinaryOp(d) => match e2 {
            Expr::BinaryOp(d2) => {
                &&& d2.tag == d.tag
                &&& d2.op == d.op
                &&& resolves_to(*d.left, *d2.left, scopes)
                &&& resolves_to(*d.right, *d2.right, scopes)
                &&& resolved(e, scopes) is Ok
                &&& d2.result_type == Some(resolved(e, scopes)->Ok_0)
            },
            _ => false,
        },
        Expr::Call(d) => e2 matches Expr::Call(d2) && call_resolves_to(d, d2, scopes),
        _ => e2 == e,
    }
}

pub open spec fn call_resolves_to(d: CallData, d2: CallData, scopes: Seq<Seq<SymbolEntry>>) -> bool
    decreases d,
{
    &&& d2.tag == d.tag
    &&& d2.function == d.function
    &&& d2.return_type == d.return_type
    &&& d2.arguments@.len() == d.arguments@.len()
    &&& forall|i: int|
        0 <= i < d.arguments@.len() ==> resolves_to(
            #[trigger] d.arguments@[i],
            d2.arguments@[i],
            scopes,
        )
}

/// Whether every symbol that the statement reads, in its expressions and
/// the statements it holds, is a constant or a variable of the scopes.
pub open spec fn statement_symbols_known(s: Statement, scopes: Seq<Seq<SymbolEntry>>) -> bool
    decreases s,
{
    match s {
        Statement::Assign(d) => symbols_known(d.left_value, scopes) && symbols_known(
            d.right_value,
            scopes,
        ),
        Statement::Call(d) => forall|i: int|
            0 <= i < d.arguments@.len() ==> symbols_known(#[trigger] d.arguments@[i], scopes),
        Statement::Conditional(d) => symbols_known(d.condition, scopes) && (forall|i: int|
            0 <= i < d.when_true@.len() ==> statement_symbols_known(
                #[trigger] d.when_true@[i],
                scopes,
            )) && (forall|i: int|
            0 <= i < d.when_false@.len() ==> statement_symbols_known(
                #[trigger] d.when_false@[i],
                scopes,
            )),
        Statement::Return(d) => match d.value {
            Some(v) => symbols_known(v, scopes),
            None => true,
        },
        Statement::WhileLoop(d) => symbols_known(d.condition, scopes) && forall|i: int|
            0 <= i < d.body@.len() ==> statement_symbols_known(#[trigger] d.body@[i], scopes),
        _ => true,
    }
}

/// Whether every symbol that the statements read is known.
pub open spec fn statements_symbols_known(ss: Seq<Statement>, scopes: Seq<Seq<SymbolEntry>>) -> bool {
    forall|i: int| 0 <= i < ss.len() ==> statement_symbols_known(#[trigger] ss[i], scopes)
}

/// The first error that inferring the types of a statement meets.
pub open spec fn statement_infer_error(s: Statement, scopes: Seq<Seq<SymbolEntry>>) -> Option<Error>
    decreases s,
{
    match s {
        Statement::Assign(d) => match infer_error(d.left_value, scopes) {
            Some(x) => Some(x),
            None => infer_error(d.right_value, scopes),
        },
        Statement::Call(d) => call_infer_error(d, scopes),
        Statement::Conditional(d) => match infer_error(d.condition, scopes) {
            Some(x) => Some(x),
            None => match statements_infer_error(d.when_true@, scopes) {
                Some(x) => Some(x),
                None => statements_infer_error(d.when_false@, scopes),
            },
        },
        Statement::Return(d) => match d.value {
            Some(v) => infer_error(v, scopes),
            None => None,
        },
        Statement::WhileLoop(d) => match infer_error(d.condition, scopes) {
            Some(x) => Some(x),
            None => statements_infer_error(d.body@, scopes),
        },
        _ => None,
    }
}

/// The first error that inferring the types of the statements meets, in order.
pub open spec fn statements_infer_error(ss: Seq<Statement>, scopes: Seq<Seq<SymbolEntry>>) -> Option<Error>
    decreases ss,
{
    if ss.len() == 0 {
        None
    } else {
        match statements_infer_error(ss.drop_last(), scopes) {
            Some(x) => Some(x),
            None => statement_infer_error(ss.last(), scopes),
        }
    }
}

/// Whether inferring the types of a statement gives `s2`: each of its
/// expressions and statements is inferred in place.
pub open spec fn statement_infers_to(s: Statement, s2: Statement, scopes: Seq<Seq<SymbolEntry>>) -> bool
    decreases s,
{
    match s {
        Statement::Assign(d) => match s2 {
            Statement::Assign(d2) => {
                &&& d2.tag == d.tag
                &&& d2.value_type == d.value_type
                &&& infers_to(d.left_value, d2.left_value, scopes)
                &&& infers_to(d.right_value, d2.right_value, scopes)
            },
            _ => false,
        },
        Statement::Call(d) => s2 matches Statement::Call(d2) && call_infers_to(d, d2, scopes),
        Statement::Conditional(d) => match s2 {
            Statement::Conditional(d2) => {
                &&& d2.tag == d.tag
                &&& infers_to(d.condition, d2.condition, scopes)
                &&& d2.when_true@.len() == d.when_true@.len()
                &&& forall|i: int|
                    0 <= i < d.when_true@.len() ==> statement_infers_to(
                        #[trigger] d.when_true@[i],
                        d2.when_true@[i],
                        scopes,
                    )
                &&& d2.when_false@.len() == d.when_false@.len()
                &&& forall|i: int|
                    0 <= i < d.when_false@.len() ==> statement_infers_to(
                        #[trigger] d.when_false@[i],
                        d2.when_false@[i],
                        scopes,
                    )
            },
            _ => false,
        },
        Statement::Return(d) => match s2 {
            Statement::Return(d2) => {
                &&& d2.tag == d.tag
                &&& d2.value_type == d.value_type
                &&& match (d.value, d2.value) {
                    (Some(v), Some(v2)) => infers_to(v, v2, scopes),
                    (None, None) => true,
                    _ => false,
                }
            },
            _ => false,
        },
        Statement::WhileLoop(d) => match s2 {
            Statement::WhileLoop(d2) => {
                &&& d2.tag == d.tag
                &&& infers_to(d.condition, d2.condition, scopes)
                &&& d2.body@.len() == d.body@.len()
                &&& forall|i: int|
                    0 <= i < d.body@.len() ==> statement_infers_to(
                        #[trigger] d.body@[i],
                        d2.body@[i],
                        scopes,
                    )
            },
            _ => false,
        },
        _ => s2 == s,
    }
}

/// Whether statements are inferred one by one into `ss2`.
pub open spec fn statements_infer_to(ss: Seq<Statement>, ss2: Seq<Statement>, scopes: Seq<Seq<SymbolEntry>>) -> bool {
    ss2.len() == ss.len() && forall|i: int|
        0 <= i < ss.len() ==> statement_infers_to(#[trigger] ss[i], ss2[i], scopes)
}

/// Whether implying `t` for a statement gives `s2`: a returned value takes
/// `t`, and so do the statements that a conditional or loop holds.
pub open spec fn statement_implies_to(s: Statement, s2: Statement, t: BaseType) -> bool
    decreases s,
{
    match s {
        Statement::Return(d) => match s2 {
            Statement::Return(d2) => {
                &&& d2.tag == d.tag
                &&& d2.value_type == d.value_type
                &&& d2.value == match d.value {
                    Some(v) => Some(implied(v, t)),
                    None => None,
                }
            },
            _ => false,
        },
        Statement::Conditional(d) => match s2 {
            Statement::Conditional(d2) => {
                &&& d2.tag == d.tag
                &&& d2.condition == d.condition
                &&& d2.when_true@.len() == d.when_true@.len()
                &&& forall|i: int|
                    0 <= i < d.when_true@.len() ==> statement_implies_to(
                        #[trigger] d.when_true@[i],
                        d2.when_true@[i],
                        t,
                    )
                &&& d2.when_false@.len() == d.when_false@.len()
                &&& forall|i: int|
                    0 <= i < d.when_false@.len() ==> statement_implies_to(
                        #[trigger] d.when_false@[i],
                        d2.when_false@[i],
                        t,
                    )
            },
            _ => false,
        },
        Statement::WhileLoop(d) => match s2 {
            Statement::WhileLoop(d2) => {
                &&& d2.tag == d.tag
                &&& d2.condition == d.condition
                &&& d2.body@.len() == d.body@.len()
                &&& forall|i: int|
                    0 <= i < d.body@.len() ==> statement_implies_to(
                        #[trigger] d.body@[i],
                        d2.body@[i],
                        t,
                    )
            },
            _ => false,
        },
        _ => s2 == s,
    }
}

/// Whether implying `t` for each statement gives `ss2`.
pub open spec fn statements_imply_to(ss: Seq<Statement>, ss2: Seq<Statement>, t: BaseType) -> bool {
    ss2.len() == ss.len() && forall|i: int|
        0 <= i < ss.len() ==> statement_implies_to(#[trigger] ss[i], ss2[i], t)
}

/// Whether resolving the statement's types can proceed without a gap.
pub open spec fn statement_resolvable(s: Statement, scopes: Seq<Seq<SymbolEntry>>) -> bool
    decreases s,
{
    match s {
        Statement::Assign(d) => resolvable(d.left_value, scopes) && resolvable(d.right_value, scopes),
        Statement::Call(d) => call_resolvable(d, scopes),
        Statement::Conditional(d) => resolvable(d.condition, scopes) && (forall|i: int|
            0 <= i < d.when_true@.len() ==> statement_resolvable(#[trigger] d.when_true@[i], scopes))
            && (forall|i: int|
            0 <= i < d.when_false@.len() ==> statement_resolvable(
                #[trigger] d.when_false@[i],
                scopes,
            )),
        Statement::Return(d) => match d.value {
            Some(v) => resolvable(v, scopes),
            None => true,
        },
        Statement::WhileLoop(d) => resolvable(d.condition, scopes) && forall|i: int|
            0 <= i < d.body@.len() ==> statement_resolvable(#[trigger] d.body@[i], scopes),
        _ => true,
    }
}

pub open spec fn statements_resolvable(ss: Seq<Statement>, scopes: Seq<Seq<SymbolEntry>>) -> bool {
    forall|i: int| 0 <= i < ss.len() ==> statement_resolvable(#[trigger] ss[i], scopes)
}

/// The first type error of a statement: an assignment of a value that
/// cannot be assigned into its target, once the value has taken the
/// target's type where its own is open; a condition that cannot be a
/// boolean; or the first error of an expression or held statement.
pub open spec fn statement_fault(s: Statement, scopes: Seq<Seq<SymbolEntry>>) -> Option<TypeFault>
    decreases s,
{
    match s {
        Statement::Assign(d) => match resolved(d.left_value, scopes) {
            Err(f) => Some(f),
            Ok(lt) => match resolved(implied(d.right_value, lt), scopes) {
                Err(f) => Some(f),
                Ok(rt) => if assignable(rt, lt) {
                    None
                } else {
                    Some((d.tag, "Can't assign "@ + type_text(rt) + " into "@ + type_text(lt)))
                },
            },
        },
        Statement::Call(d) => match call_resolved(d, scopes) {
            Err(f) => Some(f),
            Ok(_) => None,
        },
        Statement::Conditional(d) => match resolved(d.condition, scopes) {
            Err(f) => Some(f),
            Ok(ct) => if !castable(ct, BaseType::Bool) {
                Some((d.tag, "Condition can't evaluate to a boolean"@))
            } else {
                match statements_fault(d.when_true@, scopes) {
                    Some(f) => Some(f),
                    None => statements_fault(d.when_false@, scopes),
                }
            },
        },
        Statement::Return(d) => match d.value {
            Some(v) => match resolved(v, scopes) {
                Err(f) => Some(f),
                Ok(_) => None,
            },
            None => None,
        },
        Statement::WhileLoop(d) => match resolved(d.condition, scopes) {
            Err(f) => Some(f),
            Ok(ct) => if !castable(ct, BaseType::Bool) {
                Some((d.tag, "Condition can't evaluate to a boolean"@))
            } else {
                statements_fault(d.body@, scopes)
            },
        },
        _ => None,
    }
}

/// The first type error among the statements, in order.
pub open spec fn statements_fault(ss: Seq<Statement>, scopes: Seq<Seq<SymbolEntry>>) -> Option<TypeFault>
    decreases ss,
{
    if ss.len() == 0 {
        None
    } else {
        match statements_fault(ss.drop_last(), scopes) {
            Some(f) => Some(f),
            None => statement_fault(ss.last(), scopes),
        }
    }
}

/// Whether resolving the types of a statement leaves `s2`: its expressions
/// resolve in place, an assignment records its target's type, and a
/// returned value records its own.
pub open spec fn statement_resolves_to(s: Statement, s2: Statement, scopes: Seq<Seq<SymbolEntry>>) -> bool
    decreases s,
{
    match s {
        Statement::Assign(d) => match s2 {
            Statement::Assign(d2) => {
                &&& d2.tag == d.tag
                &&& resolved(d.left_value, scopes) is Ok
                &&& resolves_to(d.left_value, d2.left_value, scopes)
                &&& resolves_to(
                    implied(d.right_value, resolved(d.left_value, scopes)->Ok_0),
                    d2.right_value,
                    scopes,
                )
                &&& d2.value_type == Some(resolved(d.left_value, scopes)->Ok_0)
            },
            _ => false,
        },
        Statement::Call(d) => s2 matches Statement::Call(d2) && call_resolves_to(d, d2, scopes),
        Statement::Conditional(d) => match s2 {
            Statement::Conditional(d2) => {
                &&& d2.tag == d.tag
                &&& resolves_to(d.condition, d2.condition, scopes)
                &&& d2.when_true@.len() == d.when_true@.len()
                &&& forall|i: int|
                    0 <= i < d.when_true@.len() ==> statement_resolves_to(
                        #[trigger] d.when_true@[i],
                        d2.when_true@[i],
                        scopes,
                    )
                &&& d2.when_false@.len() == d.when_false@.len()
                &&& forall|i: int|
                    0 <= i < d.when_false@.len() ==> statement_resolves_to(
                        #[trigger] d.when_false@[i],
                        d2.when_false@[i],
                        scopes,
                    )
            },
            _ => false,
        },
        Statement::Return(d) => match s2 {
            Statement::Return(d2) => {
                &&& d2.tag == d.tag
                &&& match (d.value, d2.value) {
                    (Some(v), Some(v2)) => resolves_to(v, v2, scopes) && resolved(v, scopes) is Ok
                        && d2.value_type == Some(resolved(v, scopes)->Ok_0),
                    (None, None) => d2.value_type == d.value_type,
                    _ => false,
                }
            },
            _ => false,
        },
        Statement::WhileLoop(d) => match s2 {
            Statement::WhileLoop(d2) => {
                &&& d2.tag == d.tag
                &&& resolves_to(d.condition, d2.condition, scopes)
                &&& d2.body@.len() == d.body@.len()
                &&& forall|i: int|
                    0 <= i < d.body@.len() ==> statement_resolves_to(
                        #[trigger] d.body@[i],
                        d2.body@[i],
                        scopes,
                    )
            },
            _ => false,
        },
        _ => s2 == s,
    }
}

pub open spec fn statements_resolve_to(ss: Seq<Statement>, ss2: Seq<Statement>, scopes: Seq<Seq<SymbolEntry>>) -> bool {
    ss2.len() == ss.len() && forall|i: int|
        0 <= i < ss.len() ==> statement_resolves_to(#[trigger] ss[i], ss2[i], scopes)
}

impl Expr {
    /// Infers the types of the expression from the symbols it reads and the
    /// functions it calls, as `infers_to` says; fails with the first error
    /// that `infer_error` names.
    pub fn infer_types<T: SymbolTable>(&mut self, symbol_table: &T) -> (r: Result<(), Error>)
        requires
            symbols_known(*old(self), symbol_table.scopes()),
        ensures
            match r {
                Ok(()) => infer_error(*old(self), symbol_table.scopes()) is None && infers_to(
                    *old(self),
                    *final(self),
                    symbol_table.scopes(),
                ),
                Err(x) => infer_error(*old(self), symbol_table.scopes()) == Some(x),
            },
        decreases *old(self),
    {
        let ghost scopes = symbol_table.scopes();
        let ghost e0 = *self;
        match self {
            Expr::Number(_) => {},
            Expr::Symbol(data) => {
                match symbol_table.constant(data.symbol) {
                    Some(constant) => {
                        data.value_type = Some(constant.base_type.clone());
                    },
                    None => match symbol_table.variable(data.symbol) {
                        Some(variable) => {
                            data.value_type = Some(variable.base_type.clone());
                        },
                        None => {
                            vstd::pervasive::unreached::<()>();
                        },
                    },
                }
            },
            Expr::BinaryOp(data) => {
                match data.left.infer_types(symbol_table) {
                    Ok(()) => {},
                    Err(x) => {
                        return Err(x);
                    },
                }
                match data.right.infer_types(symbol_table) {
                    Ok(()) => {},
                    Err(x) => {
                        return Err(x);
                    },
                }
                let ghost l1 = *data.left;
                let ghost r1 = *data.right;
                if !data.op.is_arithmetic() && data.left.base_type().is_none()
                    && data.right.base_type().is_none() {
                    data.left.imply_defaults();
                    data.right.imply_defaults();
                }
                let left_type = match data.left.base_type() {
                    Some(t) => Some(t.clone()),
                    None => None,
                };
                let right_type = match data.right.base_type() {
                    Some(t) => Some(t.clone()),
                    None => None,
                };
                if left_type.is_none() && right_type.is_some() {
                    data.left.imply_type(right_type.as_ref().unwrap());
                    data.result_type = right_type;
                } else if left_type.is_some() && right_type.is_none() {
                    data.right.imply_type(left_type.as_ref().unwrap());
                    data.result_type = left_type;
                }
                proof {
                    if let Expr::BinaryOp(d0) = e0 {
                        assert(infers_to(*d0.left, l1, scopes));
                        assert(infers_to(*d0.right, r1, scopes));
                        assert(Expr::BinaryOp(*data) == combined(d0, l1, r1));
                        assert(infers_to(e0, Expr::BinaryOp(*data), scopes));
                    }
                }
            },
            Expr::Call(data) => {
                return data.infer_types(symbol_table);
            },
            Expr::ArrayIndex(data) => {
                match data.index.infer_types(symbol_table) {
                    Ok(()) => {},
                    Err(x) => {
                        return Err(x);
                    },
                }
                let ghost i1 = *data.index;
                if data.index.base_type().is_none() {
                    data.index.imply_type(&BaseType::U16);
                }
                match symbol_table.constant(data.array) {
                    Some(constant) => {
                        data.array_type = Some(constant.base_type.clone());
                    },
                    None => match symbol_table.variable(data.array) {
                        Some(variable) => {
                            data.array_type = Some(variable.base_type.clone());
                        },
                        None => {
                            vstd::pervasive::unreached::<()>();
                        },
                    },
                }
                proof {
                    if let Expr::ArrayIndex(d0) = e0 {
                        assert(infers_to(*d0.index, i1, scopes));
                        assert(*data.index == implied_if_open(i1, BaseType::U16));
                        assert(data.array_type == symbol_type(scopes, d0.array));
                        assert(data.tag == d0.tag && data.array == d0.array);
                        assert(infers_to(e0, Expr::ArrayIndex(*data), scopes));
                    }
                }
            },
        }
        Ok(())
    }
}

impl CallData {
    /// Infers the types of a call: its return type from the called function,
    /// and those of its arguments, each taking its parameter's type if its
    /// own stays open; fails when the function is unknown, when the number
    /// of arguments differs from that of parameters, or on an argument's
    /// first error.
    pub fn infer_types<T: SymbolTable>(&mut self, symbol_table: &T) -> (r: Result<(), Error>)
        requires
            forall|i: int|
                0 <= i < old(self).arguments@.len() ==> symbols_known(
                    #[trigger] old(self).arguments@[i],
                    symbol_table.scopes(),
                ),
        ensures
            match r {
                Ok(()) => call_infer_error(*old(self), symbol_table.scopes()) is None
                    && call_infers_to(*old(self), *final(self), symbol_table.scopes()),
                Err(x) => call_infer_error(*old(self), symbol_table.scopes()) == Some(x),
            },
        decreases *old(self),
    {
        let ghost scopes = symbol_table.scopes();
        let ghost d0 = *self;
        let function = match symbol_table.function_by_name(&self.function) {
            Some(f) => f,
            None => {
                return Err(Error(ErrorKind::SymbolNotFound(self.tag, self.function.clone())));
            },
        };
        self.return_type = Some(function.return_type.clone());
        let expected_arg_count = function.parameters.len();
        if self.arguments.len() != expected_arg_count {
            return Err(
                Error(
                    ErrorKind::ExpectedNArgumentsGotM(
                        self.tag,
                        self.function.clone(),
                        expected_arg_count,
                        self.arguments.len(),
                    ),
                ),
            );
        }
        let mut index: usize = 0;
        while index < self.arguments.len()
            invariant
                d0 == *old(self),
                function_named(scopes, d0.function@) == Some(*function),
                symbol_table.scopes() == scopes,
                index <= self.arguments@.len(),
                self.arguments@.len() == d0.arguments@.len(),
                d0.arguments@.len() == function.parameters@.len(),
                self.tag == d0.tag,
                self.function == d0.function,
                self.return_type == Some(function.return_type),
                first_infer_error(d0.arguments@.take(index as int), scopes) is None,
                forall|j: int|
                    index <= j < self.arguments@.len() ==> self.arguments@[j] == d0.arguments@[j],
                forall|j: int|
                    0 <= j < d0.arguments@.len() ==> symbols_known(
                        #[trigger] d0.arguments@[j],
                        scopes,
                    ),
                forall|j: int|
                    0 <= j < index ==> exists|m: Expr|
                        infers_to(#[trigger] d0.arguments@[j], m, scopes)
                            && self.arguments@[j] == implied_if_open(
                            m,
                            function.parameters@[j].base_type,
                        ),
            decreases self.arguments@.len() - index,
        {
            proof {
                assert(d0.arguments@.take(index + 1).drop_last() =~= d0.arguments@.take(index as int));
            }
            proof {
                assert(decreases_to!(d0 => d0.arguments));
                assert(decreases_to!(d0.arguments => d0.arguments@));
                assert(decreases_to!(d0.arguments@ => d0.arguments@[index as int]));
                assert(decreases_to!(d0 => self.arguments@[index as int]));
            }
            let ghost before = self.arguments@;
            let mut argument = Expr::Number(NumberData { tag: self.tag, value: 0, value_type: None });
            core::mem::swap(&mut argument, &mut self.arguments[index]);
            let result = argument.infer_types(symbol_table);
            core::mem::swap(&mut argument, &mut self.arguments[index]);
            match result {
                Ok(()) => {},
                Err(x) => {
                    proof {
                        assert(first_infer_error(d0.arguments@.take(index + 1), scopes) == Some(x));
                        lemma_first_error_prefix(d0.arguments@, scopes, index + 1);
                        assert(call_infer_error(d0, scopes) == first_infer_error(d0.arguments@, scopes));
                        assert(call_infer_error(d0, scopes) == Some(x));
                        assert(d0 == *old(self));
                    }
                    return Err(x);
                },
            }
            let ghost m = self.arguments@[index as int];
            if self.arguments[index].base_type().is_none() {
                self.arguments[index].imply_type(&function.parameters[index].base_type);
            }
            proof {
                assert(infers_to(d0.arguments@[index as int], m, scopes));
                assert(self.arguments@[index as int] == implied_if_open(
                    m,
                    function.parameters@[index as int].base_type,
                ));
                assert forall|j: int| 0 <= j <= index implies exists|m: Expr|
                    infers_to(#[trigger] d0.arguments@[j], m, scopes)
                        && self.arguments@[j] == implied_if_open(
                        m,
                        function.parameters@[j].base_type,
                    ) by {
                    if j < index {
                        let w = choose|m: Expr|
                            infers_to(#[trigger] d0.arguments@[j], m, scopes) && before[j]
                                == implied_if_open(m, function.parameters@[j].base_type);
                        assert(self.arguments@[j] == before[j]);
                        assert(infers_to(d0.arguments@[j], w, scopes));
                    } else {
                        assert(infers_to(d0.arguments@[j], m, scopes));
                    }
                }
            }
            index += 1;
        }
        proof {
            assert(d0.arguments@.take(d0.arguments@.len() as int) =~= d0.arguments@);
        }
        Ok(())
    }
}

impl Expr {
    /// Resolves the type of the expression, recording in each operation the
    /// type it yields, as `resolved` and `resolves_to` say; fails with the
    /// type error that `resolved` names.
    pub fn resolve_type<T: SymbolTable>(&mut self, symbol_table: &T) -> (r: Result<BaseType, Error>)
        requires
            resolvable(*old(self), symbol_table.scopes()),
        ensures
            match r {
                Ok(t) => resolved(*old(self), symbol_table.scopes()) == Ok::<BaseType, TypeFault>(t)
                    && resolves_to(*old(self), *final(self), symbol_table.scopes()),
                Err(x) => resolved(*old(self), symbol_table.scopes()) matches Err(f)
                    && is_type_error(x, f),
            },
        decreases *old(self),
    {
        let ghost scopes = symbol_table.scopes();
        let ghost e0 = *self;
        match self {
            Expr::Number(data) => match &data.value_type {
                Some(base_type) => Ok(base_type.clone()),
                None => {
                    let mut message = String::new();
                    push_str(&mut message, "Can't infer type of number");
                    proof {
                        assert(message@ =~= "Can't infer type of number"@);
                    }
                    Err(Error(ErrorKind::TypeExprError(data.tag, message)))
                },
            },
            Expr::BinaryOp(data) => {
                let left_type = match data.left.resolve_type(symbol_table) {
                    Ok(t) => t,
                    Err(x) => {
                        return Err(x);
                    },
                };
                let right_type = match data.right.resolve_type(symbol_table) {
                    Ok(t) => t,
                    Err(x) => {
                        return Err(x);
                    },
                };
                match BaseType::choose_type(&left_type, &right_type) {
                    Some(base_type) => {
                        data.result_type = Some(base_type.clone());
                        Ok(base_type)
                    },
                    None => {
                        let mut message = String::new();
                        push_str(&mut message, "Can't perform arithmetic between ");
                        left_type.push_text(&mut message);
                        push_str(&mut message, " and ");
                        right_type.push_text(&mut message);
                        proof {
                            assert(message@ =~= "Can't perform arithmetic between "@ + type_text(
                                left_type,
                            ) + " and "@ + type_text(right_type));
                        }
                        Err(Error(ErrorKind::TypeExprError(data.tag, message)))
                    },
                }
            },
            Expr::Call(data) => data.resolve_type(symbol_table),
            Expr::ArrayIndex(data) => {
                let array_type = data.array_type.as_ref().unwrap();
                if !array_type.can_index() {
                    let mut message = String::new();
                    push_str(&mut message, "Can't index ");
                    array_type.push_text(&mut message);
                    proof {
                        assert(message@ =~= "Can't index "@ + type_text(*array_type));
                    }
                    Err(Error(ErrorKind::TypeExprError(data.tag, message)))
                } else if data.index.base_type().is_none() {
                    let mut message = String::new();
                    push_str(&mut message, "Can't infer type of array index");
                    proof {
                        assert(message@ =~= "Can't infer type of array index"@);
                    }
                    Err(Error(ErrorKind::TypeExprError(data.index.tag(), message)))
                } else {
                    Ok(array_type.underlying_type().unwrap().clone())
                }
            },
            Expr::Symbol(data) => Ok(data.value_type.as_ref().unwrap().clone()),
        }
    }
}

impl CallData {
    /// Resolves the types of a call's arguments and checks that each can be
    /// assigned into its parameter; the call's type is the function's return
    /// type.
    pub fn resolve_type<T: SymbolTable>(&mut self, symbol_table: &T) -> (r: Result<BaseType, Error>)
        requires
            call_resolvable(*old(self), symbol_table.scopes()),
        ensures
            match r {
                Ok(t) => call_resolved(*old(self), symbol_table.scopes()) == Ok::<BaseType, TypeFault>(t)
                    && call_resolves_to(*old(self), *final(self), symbol_table.scopes()),
                Err(x) => call_resolved(*old(self), symbol_table.scopes()) matches Err(f)
                    && is_type_error(x, f),
            },
        decreases *old(self),
    {
        let ghost scopes = symbol_table.scopes();
        let ghost d0 = *self;
        let function = match symbol_table.function_by_name(&self.function) {
            Some(f) => f,
            None => {
                return vstd::pervasive::unreached();
            },
        };
        let ghost parameters = function.parameters@;
        let mut index: usize = 0;
        while index < self.arguments.len()
            invariant
                d0 == *old(self),
                call_resolvable(d0, scopes),
                parameters == function.parameters@,
                function_named(scopes, d0.function@) == Some(*function),
                symbol_table.scopes() == scopes,
                index <= self.arguments@.len(),
                self.arguments@.len() == d0.arguments@.len(),
                self.tag == d0.tag,
                self.function == d0.function,
                self.return_type == d0.return_type,
                arguments_fault(d0.arguments@.take(index as int), parameters, scopes) is None,
                forall|j: int|
                    index <= j < self.arguments@.len() ==> self.arguments@[j] == d0.arguments@[j],
                forall|j: int|
                    0 <= j < index ==> resolves_to(
                        #[trigger] d0.arguments@[j],
                        self.arguments@[j],
                        scopes,
                    ),
            decreases self.arguments@.len() - index,
        {
            proof {
                assert(d0.arguments@.take(index + 1).drop_last() =~= d0.arguments@.take(index as int));
                assert(decreases_to!(d0 => d0.arguments));
                assert(decreases_to!(d0.arguments => d0.arguments@));
                assert(decreases_to!(d0.arguments@ => d0.arguments@[index as int]));
                assert(resolvable(d0.arguments@[index as int], scopes));
            }
            let ghost before = self.arguments@;
            let mut argument = Expr::Number(NumberData { tag: self.tag, value: 0, value_type: None });
            core::mem::swap(&mut argument, &mut self.arguments[index]);
            proof {
                assert(argument == d0.arguments@[index as int]);
                lemma_arguments_fault_step(d0.arguments@, parameters, scopes, index as int);
            }
            let argument_tag = argument.tag();
            let result = argument.resolve_type(symbol_table);
            core::mem::swap(&mut argument, &mut self.arguments[index]);
            match result {
                Ok(argument_type) => {
                    let parameter_type = &function.parameters[index].base_type;
                    if !argument_type.can_assign_into(parameter_type) {
                        let mut message = String::new();
                        push_str(&mut message, "Argument ");
                        push_decimal(&mut message, index as u64 + 1);
                        push_str(&mut message, " expected ");
                        parameter_type.push_text(&mut message);
                        push_str(&mut message, " but got a ");
                        argument_type.push_text(&mut message);
                        proof {
                            assert(message@ =~= "Argument "@ + decimal_text((index + 1) as nat)
                                + " expected "@ + type_text(*parameter_type) + " but got a "@
                                + type_text(argument_type));
                            assert(arguments_fault(d0.arguments@.take(index + 1), parameters, scopes) == Some(
                                (argument_tag, message@),
                            ));
                            lemma_arguments_fault_prefix(d0.arguments@, parameters, scopes, index + 1);
                        }
                        return Err(Error(ErrorKind::TypeExprError(argument_tag, message)));
                    }
                },
                Err(x) => {
                    proof {
                        assert(arguments_fault(d0.arguments@.take(index + 1), parameters, scopes) is Some);
                        lemma_arguments_fault_prefix(d0.arguments@, parameters, scopes, index + 1);
                    }
                    return Err(x);
                },
            }
            proof {
                assert(arguments_fault(d0.arguments@.take(index + 1), parameters, scopes) is None);
                assert forall|j: int| 0 <= j <= index implies resolves_to(
                    #[trigger] d0.arguments@[j],
                    self.arguments@[j],
                    scopes,
                ) by {
                    if j < index {
                        assert(self.arguments@[j] == before[j]);
                    }
                }
            }
            index += 1;
        }
        proof {
            assert(d0.arguments@.take(d0.arguments@.len() as int) =~= d0.arguments@);
        }
        Ok(self.return_type.as_ref().unwrap().clone())
    }
}

/// How the fault among the first `n + 1` arguments follows from that among
/// the first `n`.
proof fn lemma_arguments_fault_step(
    args: Seq<Expr>,
    parameters: Seq<NameType>,
    scopes: Seq<Seq<SymbolEntry>>,
    n: int,
)
    requires
        0 <= n < args.len(),
    ensures
        arguments_fault(args.take(n + 1), parameters, scopes) == match arguments_fault(
            args.take(n),
            parameters,
            scopes,
        ) {
            Some(x) => Some(x),
            None => match resolved(args[n], scopes) {
                Err(x) => Some(x),
                Ok(t) => if assignable(t, parameters[n].base_type) {
                    None
                } else {
                    Some(
                        (
                            expr_tag(args[n]),
                            "Argument "@ + decimal_text((n + 1) as nat) + " expected "@ + type_text(
                                parameters[n].base_type,
                            ) + " but got a "@ + type_text(t),
                        ),
                    )
                },
            },
        },
{
    let a = args.take(n + 1);
    assert(a.drop_last() =~= args.take(n));
    assert(a.last() == args[n]);
    assert(a.len() == n + 1);
}

/// A fault among the first `n` arguments is the first fault among them all.
proof fn lemma_arguments_fault_prefix(
    args: Seq<Expr>,
    parameters: Seq<NameType>,
    scopes: Seq<Seq<SymbolEntry>>,
    n: int,
)
    requires
        0 <= n <= args.len(),
        arguments_fault(args.take(n), parameters, scopes) is Some,
    ensures
        arguments_fault(args, parameters, scopes) == arguments_fault(args.take(n), parameters, scopes),
    decreases args.len() - n,
{
    if n < args.len() {
        assert(args.take(n + 1).drop_last() =~= args.take(n));
        lemma_arguments_fault_prefix(args, parameters, scopes, n + 1);
    } else {
        assert(args.take(n) =~= args);
    }
}

impl Statement {
    /// Infers the types of the statement's expressions and of the statements
    /// it holds, in order, as `statement_infers_to` says; fails with the
    /// first error that `statement_infer_error` names.
    pub fn infer_types<T: SymbolTable>(&mut self, symbol_table: &T) -> (r: Result<(), Error>)
        requires
            statement_symbols_known(*old(self), symbol_table.scopes()),
        ensures
            match r {
                Ok(()) => statement_infer_error(*old(self), symbol_table.scopes()) is None
                    && statement_infers_to(*old(self), *final(self), symbol_table.scopes()),
                Err(x) => statement_infer_error(*old(self), symbol_table.scopes()) == Some(x),
            },
        decreases *old(self),
    {
        let ghost scopes = symbol_table.scopes();
        let ghost s0 = *self;
        match self {
            Statement::Assign(data) => {
                match data.left_value.infer_types(symbol_table) {
                    Ok(()) => {},
                    Err(x) => {
                        return Err(x);
                    },
                }
                match data.right_value.infer_types(symbol_table) {
                    Ok(()) => {},
                    Err(x) => {
                        return Err(x);
                    },
                }
            },
            Statement::Call(data) => {
                return data.infer_types(symbol_table);
            },
            Statement::Conditional(data) => {
                match data.condition.infer_types(symbol_table) {
                    Ok(()) => {},
                    Err(x) => {
                        return Err(x);
                    },
                }
                proof {
                    assert(decreases_to!(s0 => data.when_true@));
                    assert(decreases_to!(s0 => data.when_false@));
                }
                match infer_statements(&mut data.when_true, symbol_table) {
                    Ok(()) => {},
                    Err(x) => {
                        return Err(x);
                    },
                }
                match infer_statements(&mut data.when_false, symbol_table) {
                    Ok(()) => {},
                    Err(x) => {
                        return Err(x);
                    },
                }
            },
            Statement::Return(data) => {
                if let Some(value) = &mut data.value {
                    return value.infer_types(symbol_table);
                }
            },
            Statement::WhileLoop(data) => {
                match data.condition.infer_types(symbol_table) {
                    Ok(()) => {},
                    Err(x) => {
                        return Err(x);
                    },
                }
                proof {
                    assert(decreases_to!(s0 => data.body@));
                }
                match infer_statements(&mut data.body, symbol_table) {
                    Ok(()) => {},
                    Err(x) => {
                        return Err(x);
                    },
                }
            },
            _ => {},
        }
        Ok(())
    }

    /// Gives `base_type` to the values that the statement returns, also in
    /// the statements it holds.
    pub fn imply_type(&mut self, base_type: &BaseType)
        ensures
            statement_implies_to(*old(self), *final(self), *base_type),
        decreases *old(self),
    {
        let ghost s0 = *self;
        match self {
            Statement::Return(data) => {
                if let Some(value) = &mut data.value {
                    value.imply_type(base_type);
                }
            },
            Statement::Conditional(data) => {
                proof {
                    assert(decreases_to!(s0 => data.when_true@));
                    assert(decreases_to!(s0 => data.when_false@));
                }
                imply_statements(&mut data.when_true, base_type);
                imply_statements(&mut data.when_false, base_type);
            },
            Statement::WhileLoop(data) => {
                proof {
                    assert(decreases_to!(s0 => data.body@));
                }
                imply_statements(&mut data.body, base_type);
            },
            _ => {},
        }
    }
}

/// Infers the types of the statements in order, stopping at the first error.
fn infer_statements<T: SymbolTable>(statements: &mut Vec<Statement>, symbol_table: &T) -> (r: Result<(), Error>)
    requires
        statements_symbols_known(old(statements)@, symbol_table.scopes()),
    ensures
        match r {
            Ok(()) => statements_infer_error(old(statements)@, symbol_table.scopes()) is None
                && statements_infer_to(old(statements)@, final(statements)@, symbol_table.scopes()),
            Err(x) => statements_infer_error(old(statements)@, symbol_table.scopes()) == Some(x),
        },
    decreases old(statements)@,
{
    let ghost scopes = symbol_table.scopes();
    let ghost ss0 = statements@;
    let mut index: usize = 0;
    while index < statements.len()
        invariant
            ss0 == old(statements)@,
            symbol_table.scopes() == scopes,
            statements_symbols_known(ss0, scopes),
            index <= statements@.len(),
            statements@.len() == ss0.len(),
            statements_infer_error(ss0.take(index as int), scopes) is None,
            forall|j: int| index <= j < statements@.len() ==> statements@[j] == ss0[j],
            forall|j: int|
                0 <= j < index ==> statement_infers_to(#[trigger] ss0[j], statements@[j], scopes),
        decreases statements@.len() - index,
    {
        proof {
            assert(ss0.take(index + 1).drop_last() =~= ss0.take(index as int));
            assert(ss0.take(index + 1).last() == ss0[index as int]);
            assert(decreases_to!(ss0 => ss0[index as int]));
            assert(statement_symbols_known(ss0[index as int], scopes));
        }
        let ghost before = statements@;
        let mut statement = Statement::Break;
        core::mem::swap(&mut statement, &mut statements[index]);
        let result = statement.infer_types(symbol_table);
        core::mem::swap(&mut statement, &mut statements[index]);
        match result {
            Ok(()) => {},
            Err(x) => {
                proof {
                    lemma_statements_error_prefix(ss0, scopes, index + 1);
                }
                return Err(x);
            },
        }
        proof {
            assert forall|j: int| 0 <= j <= index implies statement_infers_to(
                #[trigger] ss0[j],
                statements@[j],
                scopes,
            ) by {
                if j < index {
                    assert(statements@[j] == before[j]);
                }
            }
        }
        index += 1;
    }
    proof {
        assert(ss0.take(ss0.len() as int) =~= ss0);
    }
    Ok(())
}

/// An error among the first `n` statements is the first error among them all.
proof fn lemma_statements_error_prefix(ss: Seq<Statement>, scopes: Seq<Seq<SymbolEntry>>, n: int)
    requires
        0 <= n <= ss.len(),
        statements_infer_error(ss.take(n), scopes) is Some,
    ensures
        statements_infer_error(ss, scopes) == statements_infer_error(ss.take(n), scopes),
    decreases ss.len() - n,
{
    if n < ss.len() {
        assert(ss.take(n + 1).drop_last() =~= ss.take(n));
        lemma_statements_error_prefix(ss, scopes, n + 1);
    } else {
        assert(ss.take(n) =~= ss);
    }
}

/// Implies `base_type` for each statement.
fn imply_statements(statements: &mut Vec<Statement>, base_type: &BaseType)
    ensures
        statements_imply_to(old(statements)@, final(statements)@, *base_type),
    decreases old(statements)@,
{
    let ghost ss0 = statements@;
    let mut index: usize = 0;
    while index < statements.len()
        invariant
            ss0 == old(statements)@,
            index <= statements@.len(),
            statements@.len() == ss0.len(),
            forall|j: int| index <= j < statements@.len() ==> statements@[j] == ss0[j],
            forall|j: int|
                0 <= j < index ==> statement_implies_to(#[trigger] ss0[j], statements@[j], *base_type),
        decreases statements@.len() - index,
    {
        proof {
            assert(decreases_to!(ss0 => ss0[index as int]));
        }
        let ghost before = statements@;
        let mut statement = Statement::Break;
        core::mem::swap(&mut statement, &mut statements[index]);
        statement.imply_type(base_type);
        core::mem::swap(&mut statement, &mut statements[index]);
        proof {
            assert forall|j: int| 0 <= j <= index implies statement_implies_to(
                #[trigger] ss0[j],
                statements@[j],
                *base_type,
            ) by {
                if j < index {
                    assert(statements@[j] == before[j]);
                }
            }
        }
        index += 1;
    }
}

/// Implying a type keeps an expression resolvable.
pub proof fn lemma_implied_resolvable(e: Expr, t: BaseType, scopes: Seq<Seq<SymbolEntry>>)
    requires
        resolvable(e, scopes),
    ensures
        resolvable(implied(e, t), scopes),
    decreases e,
{
    if let Expr::BinaryOp(d) = e {
        lemma_implied_resolvable(*d.left, t, scopes);
        lemma_implied_resolvable(*d.right, t, scopes);
    }
}

/// Giving a number the default type keeps an expression resolvable.
proof fn lemma_defaulted_resolvable(e: Expr, scopes: Seq<Seq<SymbolEntry>>)
    requires
        resolvable(e, scopes),
    ensures
        resolvable(defaulted(e), scopes),
{
}

/// Inference leaves an expression whose symbols are known ready to resolve.
pub proof fn lemma_inferred_resolvable(e: Expr, e2: Expr, scopes: Seq<Seq<SymbolEntry>>)
    requires
        symbols_known(e, scopes),
        infers_to(e, e2, scopes),
    ensures
        resolvable(e2, scopes),
    decreases e,
{
    match e {
        Expr::BinaryOp(d) => {
            let (l, r) = choose|l: Expr, r: Expr|
                infers_to(*d.left, l, scopes) && infers_to(*d.right, r, scopes) && e2 == combined(
                    d,
                    l,
                    r,
                );
            lemma_inferred_resolvable(*d.left, l, scopes);
            lemma_inferred_resolvable(*d.right, r, scopes);
            lemma_defaulted_resolvable(l, scopes);
            lemma_defaulted_resolvable(r, scopes);
            let both_open = !arithmetic(d.op) && expr_type(l) is None && expr_type(r) is None;
            let l2 = if both_open {
                defaulted(l)
            } else {
                l
            };
            let r2 = if both_open {
                defaulted(r)
            } else {
                r
            };
            assert(resolvable(l2, scopes) && resolvable(r2, scopes));
            if expr_type(l2) is None && expr_type(r2) is Some {
                lemma_implied_resolvable(l2, expr_type(r2)->0, scopes);
            } else if expr_type(l2) is Some && expr_type(r2) is None {
                lemma_implied_resolvable(r2, expr_type(l2)->0, scopes);
            }
        },
        Expr::Call(d) => {
            if let Expr::Call(d2) = e2 {
                let f = function_named(scopes, d.function@)->0;
                assert(call_infers_to(d, d2, scopes));
                assert forall|i: int| 0 <= i < d2.arguments@.len() implies resolvable(
                    #[trigger] d2.arguments@[i],
                    scopes,
                ) by {
                    assert(0 <= i < d.arguments@.len());
                    assert(symbols_known(d.arguments@[i], scopes));
                    assert(decreases_to!(e => d));
                    assert(decreases_to!(d => d.arguments));
                    assert(decreases_to!(d.arguments => d.arguments@));
                    assert(decreases_to!(d.arguments@ => d.arguments@[i]));
                    let m = choose|m: Expr|
                        infers_to(#[trigger] d.arguments@[i], m, scopes) && d2.arguments@[i]
                            == implied_if_open(m, f.parameters@[i].base_type);
                    assert(decreases_to!(e => d.arguments@[i]));
                    lemma_inferred_resolvable(d.arguments@[i], m, scopes);
                    lemma_implied_resolvable(m, f.parameters@[i].base_type, scopes);
                }
                assert(call_resolvable(d2, scopes));
            }
        },
        Expr::Symbol(d) => {
            assert(symbol_type(scopes, d.symbol) is Some);
        },
        Expr::ArrayIndex(d) => {
            assert(symbol_type(scopes, d.array) is Some);
        },
        Expr::Number(_) => {},
    }
}

/// Implying a type keeps a statement resolvable.
pub proof fn lemma_statement_implied_resolvable(
    s: Statement,
    s2: Statement,
    t: BaseType,
    scopes: Seq<Seq<SymbolEntry>>,
)
    requires
        statement_resolvable(s, scopes),
        statement_implies_to(s, s2, t),
    ensures
        statement_resolvable(s2, scopes),
    decreases s,
{
    match s {
        Statement::Return(d) => {
            if let Some(v) = d.value {
                lemma_implied_resolvable(v, t, scopes);
            }
        },
        Statement::Conditional(d) => {
            if let Statement::Conditional(d2) = s2 {
                assert forall|i: int| 0 <= i < d2.when_true@.len() implies statement_resolvable(
                    #[trigger] d2.when_true@[i],
                    scopes,
                ) by {
                    assert(decreases_to!(s => d.when_true@[i]));
                    lemma_statement_implied_resolvable(d.when_true@[i], d2.when_true@[i], t, scopes);
                }
                assert forall|i: int| 0 <= i < d2.when_false@.len() implies statement_resolvable(
                    #[trigger] d2.when_false@[i],
                    scopes,
                ) by {
                    assert(decreases_to!(s => d.when_false@[i]));
                    lemma_statement_implied_resolvable(d.when_false@[i], d2.when_false@[i], t, scopes);
                }
            }
        },
        Statement::WhileLoop(d) => {
            if let Statement::WhileLoop(d2) = s2 {
                assert forall|i: int| 0 <= i < d2.body@.len() implies statement_resolvable(
                    #[trigger] d2.body@[i],
                    scopes,
                ) by {
                    assert(decreases_to!(s => d.body@[i]));
                    lemma_statement_implied_resolvable(d.body@[i], d2.body@[i], t, scopes);
                }
            }
        },
        _ => {},
    }
}

/// Inference leaves a statement whose symbols are known ready to resolve.
pub proof fn lemma_statement_inferred_resolvable(s: Statement, s2: Statement, scopes: Seq<Seq<SymbolEntry>>)
    requires
        statement_symbols_known(s, scopes),
        statement_infers_to(s, s2, scopes),
    ensures
        statement_resolvable(s2, scopes),
    decreases s,
{
    match s {
        Statement::Assign(d) => {
            if let Statement::Assign(d2) = s2 {
                lemma_inferred_resolvable(d.left_value, d2.left_value, scopes);
                lemma_inferred_resolvable(d.right_value, d2.right_value, scopes);
            }
        },
        Statement::Call(d) => {
            if let Statement::Call(d2) = s2 {
                lemma_inferred_resolvable(Expr::Call(d), Expr::Call(d2), scopes);
            }
        },
        Statement::Return(d) => {
            if let Statement::Return(d2) = s2 {
                if let Some(v) = d.value {
                    lemma_inferred_resolvable(v, d2.value->0, scopes);
                }
            }
        },
        Statement::Conditional(d) => {
            if let Statement::Conditional(d2) = s2 {
                lemma_inferred_resolvable(d.condition, d2.condition, scopes);
                assert forall|i: int| 0 <= i < d2.when_true@.len() implies statement_resolvable(
                    #[trigger] d2.when_true@[i],
                    scopes,
                ) by {
                    assert(decreases_to!(s => d.when_true@[i]));
                    lemma_statement_inferred_resolvable(d.when_true@[i], d2.when_true@[i], scopes);
                }
                assert forall|i: int| 0 <= i < d2.when_false@.len() implies statement_resolvable(
                    #[trigger] d2.when_false@[i],
                    scopes,
                ) by {
                    assert(decreases_to!(s => d.when_false@[i]));
                    lemma_statement_inferred_resolvable(d.when_false@[i], d2.when_false@[i], scopes);
                }
            }
        },
        Statement::WhileLoop(d) => {
            if let Statement::WhileLoop(d2) = s2 {
                lemma_inferred_resolvable(d.condition, d2.condition, scopes);
                assert forall|i: int| 0 <= i < d2.body@.len() implies statement_resolvable(
                    #[trigger] d2.body@[i],
                    scopes,
                ) by {
                    assert(decreases_to!(s => d.body@[i]));
                    lemma_statement_inferred_resolvable(d.body@[i], d2.body@[i], scopes);
                }
            }
        },
        _ => {},
    }
}

impl Statement {
    /// Resolves the types of the statement's expressions and of the
    /// statements it holds, as `statement_resolves_to` says; an assignment's
    /// value first takes its target's type where its own is open. Fails with
    /// the type error that `statement_fault` names. A statement has no type
    /// of its own: success gives `void`.
    pub fn resolve_type<T: SymbolTable>(&mut self, symbol_table: &T) -> (r: Result<BaseType, Error>)
        requires
            statement_resolvable(*old(self), symbol_table.scopes()),
        ensures
            match r {
                Ok(t) => t == BaseType::Void && statement_fault(*old(self), symbol_table.scopes()) is None
                    && statement_resolves_to(*old(self), *final(self), symbol_table.scopes()),
                Err(x) => statement_fault(*old(self), symbol_table.scopes()) matches Some(f)
                    && is_type_error(x, f),
            },
        decreases *old(self),
    {
        let ghost scopes = symbol_table.scopes();
        let ghost s0 = *self;
        match self {
            Statement::Assign(data) => {
                let left_type = match data.left_value.resolve_type(symbol_table) {
                    Ok(t) => t,
                    Err(x) => {
                        return Err(x);
                    },
                };
                let ghost right0 = data.right_value;
                data.right_value.imply_type(&left_type);
                proof {
                    lemma_implied_resolvable(right0, left_type, scopes);
                }
                let right_type = match data.right_value.resolve_type(symbol_table) {
                    Ok(t) => t,
                    Err(x) => {
                        return Err(x);
                    },
                };
                if !right_type.can_assign_into(&left_type) {
                    let mut message = String::new();
                    push_str(&mut message, "Can't assign ");
                    right_type.push_text(&mut message);
                    push_str(&mut message, " into ");
                    left_type.push_text(&mut message);
                    proof {
                        assert(message@ =~= "Can't assign "@ + type_text(right_type) + " into "@
                            + type_text(left_type));
                    }
                    return Err(Error(ErrorKind::TypeExprError(data.tag, message)));
                }
                data.value_type = Some(left_type);
            },
            Statement::Call(data) => {
                match data.resolve_type(symbol_table) {
                    Ok(_) => {},
                    Err(x) => {
                        return Err(x);
                    },
                }
            },
            Statement::Conditional(data) => {
                let condition_type = match data.condition.resolve_type(symbol_table) {
                    Ok(t) => t,
                    Err(x) => {
                        return Err(x);
                    },
                };
                if !condition_type.can_cast_into(&BaseType::Bool) {
                    let mut message = String::new();
                    push_str(&mut message, "Condition can't evaluate to a boolean");
                    proof {
                        assert(message@ =~= "Condition can't evaluate to a boolean"@);
                    }
                    return Err(Error(ErrorKind::TypeExprError(data.tag, message)));
                }
                proof {
                    assert(decreases_to!(s0 => data.when_true@));
                    assert(decreases_to!(s0 => data.when_false@));
                }
                match resolve_statements(&mut data.when_true, symbol_table) {
                    Ok(()) => {},
                    Err(x) => {
                        return Err(x);
                    },
                }
                match resolve_statements(&mut data.when_false, symbol_table) {
                    Ok(()) => {},
                    Err(x) => {
                        return Err(x);
                    },
                }
            },
            Statement::Return(data) => {
                if let Some(value) = &mut data.value {
                    match value.resolve_type(symbol_table) {
                        Ok(t) => {
                            data.value_type = Some(t);
                        },
                        Err(x) => {
                            return Err(x);
                        },
                    }
                }
            },
            Statement::WhileLoop(data) => {
                let condition_type = match data.condition.resolve_type(symbol_table) {
                    Ok(t) => t,
                    Err(x) => {
                        return Err(x);
                    },
                };
                if !condition_type.can_cast_into(&BaseType::Bool) {
                    let mut message = String::new();
                    push_str(&mut message, "Condition can't evaluate to a boolean");
                    proof {
                        assert(message@ =~= "Condition can't evaluate to a boolean"@);
                    }
                    return Err(Error(ErrorKind::TypeExprError(data.tag, message)));
                }
                proof {
                    assert(decreases_to!(s0 => data.body@));
                }
                match resolve_statements(&mut data.body, symbol_table) {
                    Ok(()) => {},
                    Err(x) => {
                        return Err(x);
                    },
                }
            },
            _ => {},
        }
        Ok(BaseType::Void)
    }
}

/// Resolves the types of the statements in order, stopping at the first error.
fn resolve_statements<T: SymbolTable>(statements: &mut Vec<Statement>, symbol_table: &T) -> (r: Result<(), Error>)
    requires
        statements_resolvable(old(statements)@, symbol_table.scopes()),
    ensures
        match r {
            Ok(()) => statements_fault(old(statements)@, symbol_table.scopes()) is None
                && statements_resolve_to(old(statements)@, final(statements)@, symbol_table.scopes()),
            Err(x) => statements_fault(old(statements)@, symbol_table.scopes()) matches Some(f)
                && is_type_error(x, f),
        },
    decreases old(statements)@,
{
    let ghost scopes = symbol_table.scopes();
    let ghost ss0 = statements@;
    let mut index: usize = 0;
    while index < statements.len()
        invariant
            ss0 == old(statements)@,
            symbol_table.scopes() == scopes,
            statements_resolvable(ss0, scopes),
            index <= statements@.len(),
            statements@.len() == ss0.len(),
            statements_fault(ss0.take(index as int), scopes) is None,
            forall|j: int| index <= j < statements@.len() ==> statements@[j] == ss0[j],
            forall|j: int|
                0 <= j < index ==> statement_resolves_to(#[trigger] ss0[j], statements@[j], scopes),
        decreases statements@.len() - index,
    {
        proof {
            assert(ss0.take(index + 1).drop_last() =~= ss0.take(index as int));
            assert(ss0.take(index + 1).last() == ss0[index as int]);
            assert(decreases_to!(ss0 => ss0[index as int]));
            assert(statement_resolvable(ss0[index as int], scopes));
        }
        let ghost before = statements@;
        let mut statement = Statement::Break;
        core::mem::swap(&mut statement, &mut statements[index]);
        let result = statement.resolve_type(symbol_table);
        core::mem::swap(&mut statement, &mut statements[index]);
        match result {
            Ok(_) => {},
            Err(x) => {
                proof {
                    lemma_statements_fault_prefix(ss0, scopes, index + 1);
                }
                return Err(x);
            },
        }
        proof {
            assert forall|j: int| 0 <= j <= index implies statement_resolves_to(
                #[trigger] ss0[j],
                statements@[j],
                scopes,
            ) by {
                if j < index {
                    assert(statements@[j] == before[j]);
                }
            }
        }
        index += 1;
    }
    proof {
        assert(ss0.take(ss0.len() as int) =~= ss0);
    }
    Ok(())
}

/// A type error among the first `n` statements is the first among them all.
proof fn lemma_statements_fault_prefix(ss: Seq<Statement>, scopes: Seq<Seq<SymbolEntry>>, n: int)
    requires
        0 <= n <= ss.len(),
        statements_fault(ss.take(n), scopes) is Some,
    ensures
        statements_fault(ss, scopes) == statements_fault(ss.take(n), scopes),
    decreases ss.len() - n,
{
    if n < ss.len() {
        assert(ss.take(n + 1).drop_last() =~= ss.take(n));
        lemma_statements_fault_prefix(ss, scopes, n + 1);
    } else {
        assert(ss.take(n) =~= ss);
    }
}

/// Whether checking a statement gives `s2`: its types are inferred, the
/// function's return type is implied for what it returns, and its types
/// are resolved, all without error.
pub open spec fn statement_checks_to(
    s: Statement,
    s2: Statement,
    scopes: Seq<Seq<SymbolEntry>>,
    return_type: BaseType,
) -> bool {
    exists|s1: Statement, s1b: Statement|
        #![trigger statement_infers_to(s, s1, scopes), statement_implies_to(s1, s1b, return_type)]
        statement_infer_error(s, scopes) is None && statement_infers_to(s, s1, scopes)
            && statement_implies_to(s1, s1b, return_type) && statement_fault(s1b, scopes) is None
            && statement_resolves_to(s1b, s2, scopes)
}

/// Whether checking a statement succeeds.
pub open spec fn statement_checks(s: Statement, scopes: Seq<Seq<SymbolEntry>>, return_type: BaseType) -> bool {
    exists|s2: Statement| #[trigger] statement_checks_to(s, s2, scopes, return_type)
}

/// Whether checking a statement fails with `x`: an error of inference, or
/// a type error once inferred and implied.
pub open spec fn statement_check_fails(
    s: Statement,
    x: Error,
    scopes: Seq<Seq<SymbolEntry>>,
    return_type: BaseType,
) -> bool {
    ||| statement_infer_error(s, scopes) == Some(x)
    ||| exists|s1: Statement, s1b: Statement|
        #![trigger statement_infers_to(s, s1, scopes), statement_implies_to(s1, s1b, return_type)]
        statement_infer_error(s, scopes) is None && statement_infers_to(s, s1, scopes)
            && statement_implies_to(s1, s1b, return_type) && statement_fault(s1b, scopes) is Some
            && is_type_error(x, statement_fault(s1b, scopes)->0)
}

/// Checks the statements in order, stopping at the first error.
fn check_statements<T: SymbolTable>(
    statements: &mut Vec<Statement>,
    symbol_table: &T,
    return_type: &BaseType,
) -> (r: Result<(), Error>)
    requires
        statements_symbols_known(old(statements)@, symbol_table.scopes()),
    ensures
        match r {
            Ok(()) => final(statements)@.len() == old(statements)@.len() && forall|i: int|
                0 <= i < old(statements)@.len() ==> statement_checks_to(
                    #[trigger] old(statements)@[i],
                    final(statements)@[i],
                    symbol_table.scopes(),
                    *return_type,
                ),
            Err(x) => exists|i: int|
                0 <= i < old(statements)@.len() && statement_check_fails(
                    #[trigger] old(statements)@[i],
                    x,
                    symbol_table.scopes(),
                    *return_type,
                ) && forall|j: int|
                    0 <= j < i ==> statement_checks(#[trigger] old(statements)@[j], symbol_table.scopes(), *return_type),
        },
{
    let ghost scopes = symbol_table.scopes();
    let ghost ss0 = statements@;
    let mut index: usize = 0;
    while index < statements.len()
        invariant
            ss0 == old(statements)@,
            symbol_table.scopes() == scopes,
            statements_symbols_known(ss0, scopes),
            index <= statements@.len(),
            statements@.len() == ss0.len(),
            forall|j: int| index <= j < statements@.len() ==> statements@[j] == ss0[j],
            forall|j: int|
                0 <= j < index ==> statement_checks_to(
                    #[trigger] ss0[j],
                    statements@[j],
                    scopes,
                    *return_type,
                ),
        decreases statements@.len() - index,
    {
        proof {
            assert(statement_symbols_known(ss0[index as int], scopes));
        }
        let ghost before = statements@;
        let mut statement = Statement::Break;
        core::mem::swap(&mut statement, &mut statements[index]);
        let ghost s0 = statement;
        proof {
            assert forall|j: int| 0 <= j < index implies statement_checks(#[trigger] ss0[j], scopes, *return_type) by {
                assert(statement_checks_to(ss0[j], before[j], scopes, *return_type));
            }
        }
        let inferred = statement.infer_types(symbol_table);
        if let Err(x) = inferred {
            proof {
                assert(statement_check_fails(ss0[index as int], x, scopes, *return_type));
            }
            return Err(x);
        }
        let ghost s1 = statement;
        proof {
            lemma_statement_inferred_resolvable(s0, s1, scopes);
        }
        statement.imply_type(return_type);
        let ghost s1b = statement;
        proof {
            lemma_statement_implied_resolvable(s1, s1b, *return_type, scopes);
        }
        let resolved = statement.resolve_type(symbol_table);
        if let Err(x) = resolved {
            proof {
                assert(statement_check_fails(ss0[index as int], x, scopes, *return_type));
            }
            return Err(x);
        }
        proof {
            assert(statement_checks_to(s0, statement, scopes, *return_type));
        }
        core::mem::swap(&mut statement, &mut statements[index]);
        proof {
            assert forall|j: int| 0 <= j <= index implies statement_checks_to(
                #[trigger] ss0[j],
                statements@[j],
                scopes,
                *return_type,
            ) by {
                if j < index {
                    assert(statements@[j] == before[j]);
                }
            }
        }
        index += 1;
    }
    Ok(())
}

/// The scopes that a block's code sees: its own scope, if it has one,
/// inside the global one.
pub open spec fn block_scopes(b: Block, global: Seq<SymbolEntry>) -> Seq<Seq<SymbolEntry>> {
    match b.symbol_table {
        Some(t) => seq![t.scopes()[0], global],
        None => seq![global],
    }
}

/// Whether two blocks agree on all but their code.
pub open spec fn same_but_body(a: Block, b: Block) -> bool {
    &&& a.name == b.name
    &&& a.symbol == b.symbol
    &&& a.location == b.location
    &&& a.symbol_table == b.symbol_table
    &&& a.metadata == b.metadata
    &&& a.anonymous == b.anonymous
}

/// Checks the types of every block's code in order: each statement's types
/// are inferred, its function's return type is implied for what it returns,
/// and its types are resolved; stops at the first error. Functions see
/// their own scope inside the global one, other blocks the global scope.
pub fn resolve_types(blocks: &mut Vec<Block>, global_symbol_table: &mut DefaultSymbolTable) -> (r: Result<(), Error>)
    requires
        forall|b: int|
            0 <= b < old(blocks)@.len() ==> statements_symbols_known(
                (#[trigger] old(blocks)@[b]).body@,
                block_scopes(old(blocks)@[b], old(global_symbol_table).scopes()[0]),
            ),
    ensures
        *final(global_symbol_table) == *old(global_symbol_table),
        final(blocks)@.len() == old(blocks)@.len(),
        r is Ok ==> forall|b: int|
            0 <= b < old(blocks)@.len() ==> {
                let ob = #[trigger] old(blocks)@[b];
                let nb = final(blocks)@[b];
                &&& same_but_body(ob, nb)
                &&& nb.body@.len() == ob.body@.len()
                &&& forall|i: int|
                    0 <= i < ob.body@.len() ==> statement_checks_to(
                        #[trigger] ob.body@[i],
                        nb.body@[i],
                        block_scopes(ob, old(global_symbol_table).scopes()[0]),
                        ob.metadata.return_type,
                    )
            },
        r matches Err(x) ==> exists|b: int, i: int|
            0 <= b < old(blocks)@.len() && 0 <= i < old(blocks)@[b].body@.len()
                && statement_check_fails(
                #[trigger] old(blocks)@[b].body@[i],
                x,
                block_scopes(old(blocks)@[b], old(global_symbol_table).scopes()[0]),
                old(blocks)@[b].metadata.return_type,
            ) && (forall|j: int|
                0 <= j < i ==> statement_checks(
                    #[trigger] old(blocks)@[b].body@[j],
                    block_scopes(old(blocks)@[b], old(global_symbol_table).scopes()[0]),
                    old(blocks)@[b].metadata.return_type,
                )) && forall|c: int, j: int|
                0 <= c < b && 0 <= j < old(blocks)@[c].body@.len() ==> statement_checks(
                    #[trigger] old(blocks)@[c].body@[j],
                    block_scopes(old(blocks)@[c], old(global_symbol_table).scopes()[0]),
                    old(blocks)@[c].metadata.return_type,
                ),
{
    let ghost bs0 = blocks@;
    let ghost g0 = *global_symbol_table;
    proof {
        g0.lemma_single_scope();
    }
    let mut index: usize = 0;
    while index < blocks.len()
        invariant
            bs0 == old(blocks)@,
            g0 == *old(global_symbol_table),
            *global_symbol_table == g0,
            g0.scopes() == seq![g0.scopes()[0]],
            index <= blocks@.len(),
            blocks@.len() == bs0.len(),
            forall|b: int|
                0 <= b < bs0.len() ==> statements_symbols_known(
                    (#[trigger] bs0[b]).body@,
                    block_scopes(bs0[b], g0.scopes()[0]),
                ),
            forall|b: int| index <= b < blocks@.len() ==> blocks@[b] == bs0[b],
            forall|b: int|
                0 <= b < index ==> {
                    let ob = #[trigger] bs0[b];
                    let nb = blocks@[b];
                    &&& same_but_body(ob, nb)
                    &&& nb.body@.len() == ob.body@.len()
                    &&& forall|i: int|
                        0 <= i < ob.body@.len() ==> statement_checks_to(
                            #[trigger] ob.body@[i],
                            nb.body@[i],
                            block_scopes(ob, g0.scopes()[0]),
                            ob.metadata.return_type,
                        )
                },
        decreases blocks@.len() - index,
    {
        let ghost before = blocks@;
        let mut block = Block {
            name: String::new(),
            symbol: 0,
            location: None,
            body: Vec::new(),
            symbol_table: None,
            metadata: FunctionMetadata {
                name: String::new(),
                location: None,
                parameters: Vec::new(),
                return_type: BaseType::Void,
                frame_size: 0,
            },
            anonymous: true,
        };
        core::mem::swap(&mut block, &mut blocks[index]);
        let ghost b0 = block;
        proof {
            assert(b0 == bs0[index as int]);
            assert(statements_symbols_known(b0.body@, block_scopes(b0, g0.scopes()[0])));
        }
        let ghost sc = block_scopes(b0, g0.scopes()[0]);
        let return_type = block.metadata.return_type.clone();
        let mut own_table: Option<DefaultSymbolTable> = None;
        core::mem::swap(&mut own_table, &mut block.symbol_table);
        let result = match own_table {
            Some(table) => {
                let mut global = DefaultSymbolTable::new(HandleGenerator::new(), 0);
                core::mem::swap(&mut global, global_symbol_table);
                let wrapper = ParentedSymbolTableWrapper::new(global, table);
                proof {
                    assert(wrapper.scopes() =~= sc);
                }
                let result = check_statements(&mut block.body, &wrapper, &return_type);
                let (outer, inner) = wrapper.into_parts();
                *global_symbol_table = outer;
                block.symbol_table = Some(inner);
                result
            },
            None => check_statements(&mut block.body, &*global_symbol_table, &return_type),
        };
        proof {
            assert(same_but_body(b0, block));
        }
        core::mem::swap(&mut block, &mut blocks[index]);
        if let Err(x) = result {
            proof {
                let i = choose|i: int|
                    0 <= i < b0.body@.len() && statement_check_fails(
                        #[trigger] b0.body@[i],
                        x,
                        sc,
                        b0.metadata.return_type,
                    ) && forall|j: int|
                        0 <= j < i ==> statement_checks(#[trigger] b0.body@[j], sc, b0.metadata.return_type);
                assert(statement_check_fails(bs0[index as int].body@[i], x, sc, bs0[index as int].metadata.return_type));
                assert forall|c: int, j: int|
                    0 <= c < index && 0 <= j < bs0[c].body@.len() implies statement_checks(
                        #[trigger] bs0[c].body@[j],
                        block_scopes(bs0[c], g0.scopes()[0]),
                        bs0[c].metadata.return_type,
                    ) by {
                    assert(statement_checks_to(
                        bs0[c].body@[j],
                        before[c].body@[j],
                        block_scopes(bs0[c], g0.scopes()[0]),
                        bs0[c].metadata.return_type,
                    ));
                }
            }
            return Err(x);
        }
        proof {
            assert forall|b: int| 0 <= b < index implies blocks@[b] == before[b] by {}
        }
        index += 1;
    }
    Ok(())
}

/// The type that resolving an expression yields is the type it then carries.
pub proof fn lemma_resolved_type_recorded(e: Expr, e2: Expr, scopes: Seq<Seq<SymbolEntry>>)
    requires
        resolvable(e, scopes),
        resolved(e, scopes) is Ok,
        resolves_to(e, e2, scopes),
    ensures
        expr_type(e2) == Some(resolved(e, scopes)->Ok_0),
{
    match e {
        Expr::BinaryOp(d) => {
            assert(e2 is BinaryOp);
            if let Expr::BinaryOp(d2) = e2 {
                assert(d2.result_type == Some(resolved(e, scopes)->Ok_0));
            }
        },
        Expr::Call(d) => {
            assert(call_resolves_to(d, e2->Call_0, scopes));
            assert(call_resolvable(d, scopes));
            assert(expr_type(e2) == d.return_type);
            assert(call_resolved(d, scopes) == Ok::<BaseType, TypeFault>(d.return_type->0));
        },
        Expr::ArrayIndex(d) => {
            assert(e2 == e);
            if let BaseType::Pointer(inner) = d.array_type->0 {
                assert(expr_type(e2) == Some(*inner));
                assert(resolved(e, scopes) == Ok::<BaseType, TypeFault>(*inner));
            }
        },
        Expr::Number(d) => {
            assert(e2 == e);
            assert(expr_type(e2) == Some(resolved(e, scopes)->Ok_0));
        },
        Expr::Symbol(d) => {
            assert(e2 == e);
            assert(d.value_type is Some);
            assert(expr_type(e2) == Some(resolved(e, scopes)->Ok_0));
        },
    }
}

/// Whether a checked statement is well typed: an assignment records its
/// target's type and stores a value whose type can be assigned into it; a
/// condition can be taken as a boolean; a returned value records its type;
/// and so for the statements held.
pub open spec fn statement_well_typed(s: Statement) -> bool
    decreases s,
{
    match s {
        Statement::Assign(d) => {
            &&& expr_type(d.left_value) is Some
            &&& expr_type(d.right_value) is Some
            &&& d.value_type == expr_type(d.left_value)
            &&& assignable(expr_type(d.right_value)->0, expr_type(d.left_value)->0)
        },
        Statement::Conditional(d) => {
            &&& expr_type(d.condition) matches Some(t) && castable(t, BaseType::Bool)
            &&& forall|i: int|
                0 <= i < d.when_true@.len() ==> statement_well_typed(#[trigger] d.when_true@[i])
            &&& forall|i: int|
                0 <= i < d.when_false@.len() ==> statement_well_typed(#[trigger] d.when_false@[i])
        },
        Statement::Return(d) => match d.value {
            Some(v) => expr_type(v) is Some && d.value_type == expr_type(v),
            None => true,
        },
        Statement::WhileLoop(d) => {
            &&& expr_type(d.condition) matches Some(t) && castable(t, BaseType::Bool)
            &&& forall|i: int| 0 <= i < d.body@.len() ==> statement_well_typed(#[trigger] d.body@[i])
        },
        _ => true,
    }
}

/// A statement whose types resolve without a fault is well typed afterwards.
pub proof fn lemma_resolved_statement_well_typed(s: Statement, s2: Statement, scopes: Seq<Seq<SymbolEntry>>)
    requires
        statement_resolvable(s, scopes),
        statement_fault(s, scopes) is None,
        statement_resolves_to(s, s2, scopes),
    ensures
        statement_well_typed(s2),
    decreases s,
{
    match s {
        Statement::Assign(d) => {
            if let Statement::Assign(d2) = s2 {
                let lt = resolved(d.left_value, scopes)->Ok_0;
                lemma_resolved_type_recorded(d.left_value, d2.left_value, scopes);
                lemma_implied_resolvable(d.right_value, lt, scopes);
                lemma_resolved_type_recorded(implied(d.right_value, lt), d2.right_value, scopes);
            }
        },
        Statement::Return(d) => {
            if let Statement::Return(d2) = s2 {
                if let Some(v) = d.value {
                    lemma_resolved_type_recorded(v, d2.value->0, scopes);
                }
            }
        },
        Statement::Conditional(d) => {
            if let Statement::Conditional(d2) = s2 {
                lemma_resolved_type_recorded(d.condition, d2.condition, scopes);
                lemma_statements_fault_none(d.when_true@, scopes);
                lemma_statements_fault_none(d.when_false@, scopes);
                assert forall|i: int| 0 <= i < d2.when_true@.len() implies statement_well_typed(
                    #[trigger] d2.when_true@[i],
                ) by {
                    assert(decreases_to!(s => d.when_true@[i]));
                    lemma_resolved_statement_well_typed(d.when_true@[i], d2.when_true@[i], scopes);
                }
                assert forall|i: int| 0 <= i < d2.when_false@.len() implies statement_well_typed(
                    #[trigger] d2.when_false@[i],
                ) by {
                    assert(decreases_to!(s => d.when_false@[i]));
                    lemma_resolved_statement_well_typed(d.when_false@[i], d2.when_false@[i], scopes);
                }
            }
        },
        Statement::WhileLoop(d) => {
            if let Statement::WhileLoop(d2) = s2 {
                lemma_resolved_type_recorded(d.condition, d2.condition, scopes);
                lemma_statements_fault_none(d.body@, scopes);
                assert forall|i: int| 0 <= i < d2.body@.len() implies statement_well_typed(
                    #[trigger] d2.body@[i],
                ) by {
                    assert(decreases_to!(s => d.body@[i]));
                    lemma_resolved_statement_well_typed(d.body@[i], d2.body@[i], scopes);
                }
            }
        },
        _ => {},
    }
}

/// Statements without a first type error have none at all.
proof fn lemma_statements_fault_none(ss: Seq<Statement>, scopes: Seq<Seq<SymbolEntry>>)
    requires
        statements_fault(ss, scopes) is None,
    ensures
        forall|i: int| 0 <= i < ss.len() ==> statement_fault(#[trigger] ss[i], scopes) is None,
    decreases ss.len(),
{
    if ss.len() > 0 {
        lemma_statements_fault_none(ss.drop_last(), scopes);
        assert forall|i: int| 0 <= i < ss.len() implies statement_fault(#[trigger] ss[i], scopes) is None by {
            if i < ss.len() - 1 {
                assert(ss[i] == ss.drop_last()[i]);
            }
        }
    }
}

/// Every statement that checks without error is well typed afterwards.
pub proof fn lemma_checked_statement_well_typed(
    s: Statement,
    s2: Statement,
    scopes: Seq<Seq<SymbolEntry>>,
    return_type: BaseType,
)
    requires
        statement_symbols_known(s, scopes),
        statement_checks_to(s, s2, scopes, return_type),
    ensures
        statement_well_typed(s2),
{
    let (s1, s1b) = choose|s1: Statement, s1b: Statement|
        #![trigger statement_infers_to(s, s1, scopes), statement_implies_to(s1, s1b, return_type)]
        statement_infer_error(s, scopes) is None && statement_infers_to(s, s1, scopes)
            && statement_implies_to(s1, s1b, return_type) && statement_fault(s1b, scopes) is None
            && statement_resolves_to(s1b, s2, scopes);
    lemma_statement_inferred_resolvable(s, s1, scopes);
    lemma_statement_implied_resolvable(s1, s1b, return_type, scopes);
    lemma_resolved_statement_well_typed(s1b, s2, scopes);
}

impl Expr {
    /// Whether every symbol that the expression reads is a constant or a
    /// variable of the table.
    pub fn reads_known_symbols<T: SymbolTable>(&self, symbol_table: &T) -> (r: bool)
        ensures
            r == symbols_known(*self, symbol_table.scopes()),
        decreases *self,
    {
        match self {
            Expr::Number(_) => true,
            Expr::Symbol(data) => symbol_table.constant(data.symbol).is_some() || symbol_table.variable(
                data.symbol,
            ).is_some(),
            Expr::BinaryOp(data) => data.left.reads_known_symbols(symbol_table)
                && data.right.reads_known_symbols(symbol_table),
            Expr::Call(data) => {
                proof {
                    assert(decreases_to!(*self => data.arguments@));
                }
                expressions_read_known_symbols(&data.arguments, symbol_table)
            },
            Expr::ArrayIndex(data) => (symbol_table.constant(data.array).is_some()
                || symbol_table.variable(data.array).is_some()) && data.index.reads_known_symbols(
                symbol_table,
            ),
        }
    }
}

impl Statement {
    /// Whether every symbol that the statement reads is a constant or a
    /// variable of the table.
    pub fn reads_known_symbols<T: SymbolTable>(&self, symbol_table: &T) -> (r: bool)
        ensures
            r == statement_symbols_known(*self, symbol_table.scopes()),
        decreases *self,
    {
        match self {
            Statement::Assign(data) => data.left_value.reads_known_symbols(symbol_table)
                && data.right_value.reads_known_symbols(symbol_table),
            Statement::Call(data) => expressions_read_known_symbols(&data.arguments, symbol_table),
            Statement::Conditional(data) => {
                proof {
                    assert(decreases_to!(*self => data.when_true@));
                    assert(decreases_to!(*self => data.when_false@));
                }
                data.condition.reads_known_symbols(symbol_table) && statements_read_known_symbols(
                    &data.when_true,
                    symbol_table,
                ) && statements_read_known_symbols(&data.when_false, symbol_table)
            },
            Statement::Return(data) => match &data.value {
                Some(v) => v.reads_known_symbols(symbol_table),
                None => true,
            },
            Statement::WhileLoop(data) => {
                proof {
                    assert(decreases_to!(*self => data.body@));
                }
                data.condition.reads_known_symbols(symbol_table) && statements_read_known_symbols(
                    &data.body,
                    symbol_table,
                )
            },
            _ => true,
        }
    }
}

/// Whether every symbol that the expressions read is a constant or a
/// variable of the table.
pub fn expressions_read_known_symbols<T: SymbolTable>(expressions: &Vec<Expr>, symbol_table: &T) -> (r: bool)
    ensures
        r == forall|i: int|
            0 <= i < expressions@.len() ==> symbols_known(#[trigger] expressions@[i], symbol_table.scopes()),
    decreases expressions@,
{
    let mut index: usize = 0;
    while index < expressions.len()
        invariant
            index <= expressions@.len(),
            forall|j: int|
                0 <= j < index ==> symbols_known(#[trigger] expressions@[j], symbol_table.scopes()),
        decreases expressions@.len() - index,
    {
        proof {
            assert(decreases_to!(expressions@ => expressions@[index as int]));
        }
        if !expressions[index].reads_known_symbols(symbol_table) {
            return false;
        }
        index += 1;
    }
    true
}

/// Whether every symbol that the statements read is a constant or a
/// variable of the table.
pub fn statements_read_known_symbols<T: SymbolTable>(statements: &Vec<Statement>, symbol_table: &T) -> (r: bool)
    ensures
        r == statements_symbols_known(statements@, symbol_table.scopes()),
    decreases statements@,
{
    let mut index: usize = 0;
    while index < statements.len()
        invariant
            index <= statements@.len(),
            forall|j: int|
                0 <= j < index ==> statement_symbols_known(#[trigger] statements@[j], symbol_table.scopes()),
        decreases statements@.len() - index,
    {
        proof {
            assert(decreases_to!(statements@ => statements@[index as int]));
        }
        if !statements[index].reads_known_symbols(symbol_table) {
            return false;
        }
        index += 1;
    }
    true
}

/// Whether every symbol that a block's code reads is a constant or a
/// variable of the scopes it sees; leaves the block and the global table
/// as they were.
pub fn block_reads_known_symbols(block: &mut Block, global_symbol_table: &mut DefaultSymbolTable) -> (r: bool)
    ensures
        *final(block) == *old(block),
        *final(global_symbol_table) == *old(global_symbol_table),
        r == statements_symbols_known(
            old(block).body@,
            block_scopes(*old(block), old(global_symbol_table).scopes()[0]),
        ),
{
    proof {
        global_symbol_table.lemma_single_scope();
    }
    let mut own_table: Option<DefaultSymbolTable> = None;
    core::mem::swap(&mut own_table, &mut block.symbol_table);
    match own_table {
        Some(table) => {
            let mut global = DefaultSymbolTable::new(HandleGenerator::new(), 0);
            core::mem::swap(&mut global, global_symbol_table);
            let wrapper = ParentedSymbolTableWrapper::new(global, table);
            let known = statements_read_known_symbols(&block.body, &wrapper);
            proof {
                assert(wrapper.scopes() =~= block_scopes(*old(block), old(global_symbol_table).scopes()[0]));
            }
            let (outer, inner) = wrapper.into_parts();
            *global_symbol_table = outer;
            block.symbol_table = Some(inner);
            known
        },
        None => {
            block.symbol_table = None;
            proof {
                assert(global_symbol_table.scopes() =~= block_scopes(
                    *old(block),
                    old(global_symbol_table).scopes()[0],
                ));
            }
            statements_read_known_symbols(&block.body, &*global_symbol_table)
        },
    }
}

/// An error among the first `n` expressions is the first error among them all.
proof fn lemma_first_error_prefix(es: Seq<Expr>, scopes: Seq<Seq<SymbolEntry>>, n: int)
    requires
        0 <= n <= es.len(),
        first_infer_error(es.take(n), scopes) is Some,
    ensures
        first_infer_error(es, scopes) == first_infer_error(es.take(n), scopes),
    decreases es.len() - n,
{
    if n < es.len() {
        assert(es.take(n + 1).drop_last() =~= es.take(n));
        lemma_first_error_prefix(es, scopes, n + 1);
    } else {
        assert(es.take(n) =~= es);
    }
}

} // verus!
