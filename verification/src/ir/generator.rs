//! Building the intermediate representation from the syntax tree.
use vstd::prelude::*;
use crate::base_type::{type_size, BaseType};
use crate::error::{Error, ErrorKind};
use crate::ir::block::{
    ArrayIndexData, AssignData, Block, BinaryOpData, CallData, ConditionalData, Expr, GoToData,
    InlineAsmData, NumberData, ReturnData, Statement, SymbolData, WhileLoopData, handle_after, parameter_offset,
    parameter_scope, shares_a_name,
};
use crate::ir::type_checker::{
    block_reads_known_symbols, block_scopes, lemma_checked_statement_well_typed, resolve_types, same_but_body, statement_check_fails, statement_checks, statement_checks_to,
    statement_symbols_known, statement_well_typed, statements_symbols_known, symbol_type,
};
use crate::parse::ast::{self, is_tagged, tag_of, BinaryOperator};
use crate::src_tag::SrcTag;
use crate::symbol_table::{
    clone_parameters, DefaultSymbolTable, FunctionMetadata, HandleGenerator,
    ParentedSymbolTableWrapper, constant_named, entry_named, following, inserted, insertable, visible_named, Constant, ConstantValue,
    Location, Symbol, SymbolEntry, SymbolRef, SymbolTable, Variable,
};

verus! {

/// The largest value that a constant of the type can hold; `void` holds none.
pub open spec fn value_limit(t: BaseType) -> Option<int> {
    match t {
        BaseType::U8 | BaseType::Bool => Some(0xFF),
        BaseType::U16 | BaseType::Pointer(_) => Some(0xFFFF),
        BaseType::Void => None,
    }
}

/// The value of an operation between two values of a type that holds
/// values up to `max`, or `None` when it leaves that range or divides by
/// zero; a comparison gives 1 or 0.
pub open spec fn binop_value(op: BinaryOperator, l: int, r: int, max: int) -> Option<int> {
    match op {
        BinaryOperator::Add => if l + r <= max {
            Some(l + r)
        } else {
            None
        },
        BinaryOperator::Sub => if l - r >= 0 {
            Some(l - r)
        } else {
            None
        },
        BinaryOperator::Mul => if l * r <= max {
            Some(l * r)
        } else {
            None
        },
        BinaryOperator::Div => if r != 0 {
            Some(l / r)
        } else {
            None
        },
        BinaryOperator::LessThan => Some(if l < r { 1 } else { 0 }),
        BinaryOperator::GreaterThan => Some(if l > r { 1 } else { 0 }),
        BinaryOperator::LessThanEqual => Some(if l <= r { 1 } else { 0 }),
        BinaryOperator::GreaterThanEqual => Some(if l >= r { 1 } else { 0 }),
        BinaryOperator::Equal => Some(if l == r { 1 } else { 0 }),
        BinaryOperator::NotEqual => Some(if l != r { 1 } else { 0 }),
    }
}

/// Whether every node of a constant's expression knows where it came from.
pub open spec fn constant_tagged(a: ast::Expression) -> bool
    decreases a,
{
    match a {
        ast::Expression::BinaryOp(d) => constant_tagged(*d.left) && constant_tagged(*d.right),
        _ => is_tagged(a),
    }
}

/// The value of a constant's expression for a constant of type `t`: numbers
/// must fit the type, operations must stay in its range, names must be
/// numeric constants that fit; anything else cannot be evaluated.
pub open spec fn constant_value(scopes: Seq<Seq<SymbolEntry>>, t: BaseType, a: ast::Expression) -> Result<
    int,
    Error,
>
    decreases a,
{
    match a {
        ast::Expression::Number(d) => match value_limit(t) {
            None => Err(Error(ErrorKind::ConstCantBeVoid(d.tag))),
            Some(m) => if d.value < 0 || d.value > m {
                Err(Error(ErrorKind::OutOfBounds(d.tag, d.value as isize, 0, m as isize)))
            } else {
                Ok(d.value as int)
            },
        },
        ast::Expression::BinaryOp(d) => match constant_value(scopes, t, *d.left) {
            Err(x) => Err(x),
            Ok(l) => match constant_value(scopes, t, *d.right) {
                Err(x) => Err(x),
                Ok(r) => match value_limit(t) {
                    None => Err(Error(ErrorKind::ConstCantBeVoid(d.tag))),
                    Some(m) => match binop_value(d.op, l, r, m) {
                        Some(v) => Ok(v),
                        None => Err(Error(ErrorKind::ConstEvaluationFailed(d.tag))),
                    },
                },
            },
        },
        ast::Expression::Name(d) => match constant_named(scopes, d.name@) {
            None => Err(Error(ErrorKind::SymbolNotFound(d.tag, d.name))),
            Some(c) => match c.value {
                ConstantValue::Number(v) => match value_limit(t) {
                    Some(m) => if v < 0 || v > m {
                        Err(Error(ErrorKind::OutOfBounds(d.tag, v as isize, 0, m as isize)))
                    } else {
                        Ok(v as int)
                    },
                    None => Ok(v as int),
                },
                ConstantValue::Bytes(_) => Err(Error(ErrorKind::ConstEvaluationFailed(d.tag))),
            },
        },
        _ => Err(Error(ErrorKind::ConstEvaluationFailed(tag_of(a)))),
    }
}

/// A constant operation between two constants that evaluate to `l` and
/// `r`, in a type that holds values up to `max`, is the arithmetic on them:
/// the sum, the difference of left minus right, the product and the
/// quotient when these stay in the type's range (and the divisor is not
/// zero), 1 or 0 for a comparison as it holds; an evaluation failure at
/// the operation's tag otherwise.
pub proof fn lemma_constant_operation(scopes: Seq<Seq<SymbolEntry>>, t: BaseType, d: ast::BinaryOpData)
    requires
        value_limit(t) is Some,
        constant_value(scopes, t, *d.left) is Ok,
        constant_value(scopes, t, *d.right) is Ok,
    ensures
        ({
            let l = constant_value(scopes, t, *d.left)->Ok_0;
            let r = constant_value(scopes, t, *d.right)->Ok_0;
            let max = value_limit(t)->0;
            let v = constant_value(scopes, t, ast::Expression::BinaryOp(d));
            let failed = Err::<int, Error>(Error(ErrorKind::ConstEvaluationFailed(d.tag)));
            &&& d.op is Add ==> v == if l + r <= max { Ok(l + r) } else { failed }
            &&& d.op is Sub ==> v == if l >= r { Ok(l - r) } else { failed }
            &&& d.op is Mul ==> v == if l * r <= max { Ok(l * r) } else { failed }
            &&& d.op is Div ==> v == if r != 0 { Ok(l / r) } else { failed }
            &&& d.op is LessThan ==> v == Ok::<int, Error>(if l < r { 1 } else { 0 })
            &&& d.op is GreaterThan ==> v == Ok::<int, Error>(if l > r { 1 } else { 0 })
            &&& d.op is LessThanEqual ==> v == Ok::<int, Error>(if l <= r { 1 } else { 0 })
            &&& d.op is GreaterThanEqual ==> v == Ok::<int, Error>(if l >= r { 1 } else { 0 })
            &&& d.op is Equal ==> v == Ok::<int, Error>(if l == r { 1 } else { 0 })
            &&& d.op is NotEqual ==> v == Ok::<int, Error>(if l != r { 1 } else { 0 })
        }),
{
}

/// Checks that a literal number fits a constant of type `base_type`.
pub fn constant_eval_number(base_type: &BaseType, input: &ast::NumberData) -> (r: Result<i32, Error>)
    ensures
        match r {
            Ok(v) => constant_value(
                Seq::empty(),
                *base_type,
                ast::Expression::Number(ast::NumberData { tag: input.tag, value: input.value }),
            ) == Ok::<int, Error>(v as int),
            Err(x) => constant_value(
                Seq::empty(),
                *base_type,
                ast::Expression::Number(ast::NumberData { tag: input.tag, value: input.value }),
            ) == Err::<int, Error>(x),
        },
{
    let max: i32 = match base_type {
        BaseType::U8 | BaseType::Bool => 0xFF,
        BaseType::U16 | BaseType::Pointer(_) => 0xFFFF,
        BaseType::Void => {
            return Err(Error(ErrorKind::ConstCantBeVoid(input.tag)));
        },
    };
    if input.value < 0 || input.value > max {
        Err(Error(ErrorKind::OutOfBounds(input.tag, input.value as isize, 0, max as isize)))
    } else {
        Ok(input.value)
    }
}

/// Applies an operator to two values of a constant's type, which holds
/// values up to `max`; fails when the result leaves that range or on a
/// division by zero.
pub fn constant_eval_binop(tag: SrcTag, op: BinaryOperator, left: u16, right: u16, max: u16) -> (r: Result<u16, Error>)
    requires
        left <= max,
        right <= max,
    ensures
        r == match binop_value(op, left as int, right as int, max as int) {
            Some(v) => Ok::<u16, Error>(v as u16),
            None => Err(Error(ErrorKind::ConstEvaluationFailed(tag))),
        },
{
    let result: Option<u16> = match op {
        BinaryOperator::Add => match left.checked_add(right) {
            Some(v) => if v <= max {
                Some(v)
            } else {
                None
            },
            None => None,
        },
        BinaryOperator::Sub => left.checked_sub(right),
        BinaryOperator::Mul => match left.checked_mul(right) {
            Some(v) => if v <= max {
                Some(v)
            } else {
                None
            },
            None => None,
        },
        BinaryOperator::Div => left.checked_div(right),
        BinaryOperator::LessThan => Some(if left < right { 1 } else { 0 }),
        BinaryOperator::GreaterThan => Some(if left > right { 1 } else { 0 }),
        BinaryOperator::LessThanEqual => Some(if left <= right { 1 } else { 0 }),
        BinaryOperator::GreaterThanEqual => Some(if left >= right { 1 } else { 0 }),
        BinaryOperator::Equal => Some(if left == right { 1 } else { 0 }),
        BinaryOperator::NotEqual => Some(if left != right { 1 } else { 0 }),
    };
    match result {
        Some(v) => Ok(v),
        None => Err(Error(ErrorKind::ConstEvaluationFailed(tag))),
    }
}

/// Evaluates the expression of a constant of type `base_type`, as
/// `constant_value` says.
pub fn constant_eval<T: SymbolTable>(symbol_table: &T, base_type: &BaseType, input: &ast::Expression) -> (r: Result<i32, Error>)
    requires
        constant_tagged(*input),
    ensures
        match r {
            Ok(v) => constant_value(symbol_table.scopes(), *base_type, *input) == Ok::<int, Error>(v as int),
            Err(x) => constant_value(symbol_table.scopes(), *base_type, *input) == Err::<int, Error>(x),
        },
    decreases *input,
{
    match input {
        ast::Expression::Number(data) => {
            let r = constant_eval_number(base_type, data);
            proof {
                assert(*input == ast::Expression::Number(ast::NumberData { tag: data.tag, value: data.value }));
            }
            r
        },
        ast::Expression::BinaryOp(data) => {
            let left = match constant_eval(symbol_table, base_type, &data.left) {
                Ok(v) => v,
                Err(x) => {
                    return Err(x);
                },
            };
            let right = match constant_eval(symbol_table, base_type, &data.right) {
                Ok(v) => v,
                Err(x) => {
                    return Err(x);
                },
            };
            let max: u16 = match base_type {
                BaseType::U8 | BaseType::Bool => 0xFF,
                BaseType::U16 | BaseType::Pointer(_) => 0xFFFF,
                BaseType::Void => {
                    return Err(Error(ErrorKind::ConstCantBeVoid(data.tag)));
                },
            };
            proof {
                lemma_constant_value_range(symbol_table.scopes(), *base_type, *data.left);
                lemma_constant_value_range(symbol_table.scopes(), *base_type, *data.right);
            }
            match constant_eval_binop(data.tag, data.op, left as u16, right as u16, max) {
                Ok(v) => Ok(v as i32),
                Err(x) => Err(x),
            }
        },
        ast::Expression::Name(data) => match symbol_table.constant_by_name(&data.name) {
            None => Err(Error(ErrorKind::SymbolNotFound(data.tag, data.name.clone()))),
            Some(constant) => match &constant.value {
                ConstantValue::Number(v) => {
                    let v = *v;
                    match base_type {
                        BaseType::U8 | BaseType::Bool => if v < 0 || v > 0xFF {
                            Err(Error(ErrorKind::OutOfBounds(data.tag, v as isize, 0, 0xFF)))
                        } else {
                            Ok(v)
                        },
                        BaseType::U16 | BaseType::Pointer(_) => if v < 0 || v > 0xFFFF {
                            Err(Error(ErrorKind::OutOfBounds(data.tag, v as isize, 0, 0xFFFF)))
                        } else {
                            Ok(v)
                        },
                        BaseType::Void => Ok(v),
                    }
                },
                ConstantValue::Bytes(_) => Err(Error(ErrorKind::ConstEvaluationFailed(data.tag))),
            },
        },
        _ => Err(Error(ErrorKind::ConstEvaluationFailed(input.src_tag()))),
    }
}

/// A constant's value lies in the range of its type.
proof fn lemma_constant_value_range(scopes: Seq<Seq<SymbolEntry>>, t: BaseType, a: ast::Expression)
    requires
        value_limit(t) is Some,
        constant_value(scopes, t, a) is Ok,
    ensures
        0 <= constant_value(scopes, t, a)->Ok_0 <= value_limit(t)->0,
    decreases a,
{
    if let ast::Expression::BinaryOp(d) = a {
        lemma_constant_value_range(scopes, t, *d.left);
        lemma_constant_value_range(scopes, t, *d.right);
        let l = constant_value(scopes, t, *d.left)->Ok_0;
        let r = constant_value(scopes, t, *d.right)->Ok_0;
        let m = value_limit(t)->0;
        if d.op is Div {
            assert(0 <= l / r <= l) by (nonlinear_arith)
                requires
                    0 <= l,
                    r > 0,
            ;
        }
        if d.op is Mul {
            assert(0 <= l * r) by (nonlinear_arith)
                requires
                    0 <= l,
                    0 <= r,
            ;
        }
    }
}

/// The handle that a name stands for in an expression: the symbol visible
/// under it, when that is a constant or a variable.
pub open spec fn name_ref(scopes: Seq<Seq<SymbolEntry>>, name: Seq<char>) -> Option<SymbolRef> {
    match visible_named(scopes, name) {
        Some(e) => if symbol_type(scopes, e.symbol_ref) is Some {
            Some(e.symbol_ref)
        } else {
            None
        },
        None => None,
    }
}

/// Whether a node of the syntax tree is an expression: an operation, a
/// name, a number, a call or an array index, made of expressions.
pub open spec fn is_expression(a: ast::Expression) -> bool
    decreases a,
{
    match a {
        ast::Expression::BinaryOp(d) => is_expression(*d.left) && is_expression(*d.right),
        ast::Expression::Name(_) | ast::Expression::Number(_) => true,
        ast::Expression::CallFunction(d) => forall|i: int|
            0 <= i < d.arguments@.len() ==> is_expression(#[trigger] d.arguments@[i]),
        ast::Expression::ArrayIndex(d) => is_expression(*d.index),
        _ => false,
    }
}

/// The first name in an expression that stands for no constant or
/// variable, as an error; left before right, arguments in order, an
/// array's name before its index.
pub open spec fn expression_error(a: ast::Expression, scopes: Seq<Seq<SymbolEntry>>) -> Option<Error>
    decreases a,
{
    match a {
        ast::Expression::BinaryOp(d) => match expression_error(*d.left, scopes) {
            Some(x) => Some(x),
            None => expression_error(*d.right, scopes),
        },
        ast::Expression::Name(d) => if name_ref(scopes, d.name@) is None {
            Some(Error(ErrorKind::SymbolNotFound(d.tag, d.name)))
        } else {
            None
        },
        ast::Expression::CallFunction(d) => expressions_error(d.arguments@, scopes),
        ast::Expression::ArrayIndex(d) => if name_ref(scopes, d.array@) is None {
            Some(Error(ErrorKind::SymbolNotFound(d.tag, d.array)))
        } else {
            expression_error(*d.index, scopes)
        },
        _ => None,
    }
}

/// The first error among expressions, in order.
pub open spec fn expressions_error(aa: Seq<ast::Expression>, scopes: Seq<Seq<SymbolEntry>>) -> Option<Error>
    decreases aa,
{
    if aa.len() == 0 {
        None
    } else {
        match expressions_error(aa.drop_last(), scopes) {
            Some(x) => Some(x),
            None => expression_error(aa.last(), scopes),
        }
    }
}

/// Whether `e` is the intermediate form of the expression `a`: the same
/// operations, numbers and calls, with names replaced by the handles they
/// stand for, and no types known yet.
pub open spec fn expr_generated(a: ast::Expression, e: Expr, scopes: Seq<Seq<SymbolEntry>>) -> bool
    decreases a,
{
    match a {
        ast::Expression::BinaryOp(d) => match e {
            Expr::BinaryOp(d2) => {
                &&& d2.tag == d.tag
                &&& d2.op == d.op
                &&& d2.result_type is None
                &&& expr_generated(*d.left, *d2.left, scopes)
                &&& expr_generated(*d.right, *d2.right, scopes)
            },
            _ => false,
        },
        ast::Expression::Name(d) => e == Expr::Symbol(
            SymbolData { tag: d.tag, symbol: name_ref(scopes, d.name@)->0, value_type: None },
        ),
        ast::Expression::Number(d) => e == Expr::Number(
            NumberData { tag: d.tag, value: d.value, value_type: None },
        ),
        ast::Expression::CallFunction(d) => match e {
            Expr::Call(d2) => {
                &&& d2.tag == d.tag
                &&& d2.function == d.name
                &&& d2.return_type is None
                &&& d2.arguments@.len() == d.arguments@.len()
                &&& forall|i: int|
                    0 <= i < d.arguments@.len() ==> expr_generated(
                        #[trigger] d.arguments@[i],
                        d2.arguments@[i],
                        scopes,
                    )
            },
            _ => false,
        },
        ast::Expression::ArrayIndex(d) => match e {
            Expr::ArrayIndex(d2) => {
                &&& d2.tag == d.tag
                &&& d2.array == name_ref(scopes, d.array@)->0
                &&& d2.array_type is None
                &&& expr_generated(*d.index, *d2.index, scopes)
            },
            _ => false,
        },
        _ => false,
    }
}

/// Looks up the handle of a name that stands for a constant or a variable.
fn lookup_value<T: SymbolTable>(symbol_table: &T, name: &String) -> (r: Option<SymbolRef>)
    ensures
        r == name_ref(symbol_table.scopes(), name@),
{
    match symbol_table.find_symbol(name) {
        Some(symbol_ref) => if symbol_table.constant(symbol_ref).is_some() || symbol_table.variable(
            symbol_ref,
        ).is_some() {
            Some(symbol_ref)
        } else {
            None
        },
        None => None,
    }
}

/// Builds the intermediate form of an expression, as `expr_generated`
/// says; fails on the first name that stands for no constant or variable.
pub fn generate_expression<T: SymbolTable>(symbol_table: &T, input: &ast::Expression) -> (r: Result<Expr, Error>)
    requires
        is_expression(*input),
    ensures
        match r {
            Ok(e) => expression_error(*input, symbol_table.scopes()) is None && expr_generated(
                *input,
                e,
                symbol_table.scopes(),
            ),
            Err(x) => expression_error(*input, symbol_table.scopes()) == Some(x),
        },
    decreases *input,
{
    match input {
        ast::Expression::BinaryOp(data) => {
            let left = match generate_expression(symbol_table, &data.left) {
                Ok(e) => e,
                Err(x) => {
                    return Err(x);
                },
            };
            let right = match generate_expression(symbol_table, &data.right) {
                Ok(e) => e,
                Err(x) => {
                    return Err(x);
                },
            };
            Ok(Expr::BinaryOp(BinaryOpData::new(data.tag, data.op, Box::new(left), Box::new(right), None)))
        },
        ast::Expression::Name(data) => match lookup_value(symbol_table, &data.name) {
            Some(symbol_ref) => Ok(Expr::Symbol(SymbolData::new(data.tag, symbol_ref, None))),
            None => Err(Error(ErrorKind::SymbolNotFound(data.tag, data.name.clone()))),
        },
        ast::Expression::Number(data) => Ok(Expr::Number(NumberData::new(data.tag, data.value, None))),
        ast::Expression::CallFunction(data) => {
            proof {
                assert(decreases_to!(*input => data.arguments@));
            }
            let arguments = match generate_expressions(symbol_table, &data.arguments) {
                Ok(a) => a,
                Err(x) => {
                    return Err(x);
                },
            };
            Ok(Expr::Call(CallData::new(data.tag, data.name.clone(), arguments, None)))
        },
        ast::Expression::ArrayIndex(data) => match lookup_value(symbol_table, &data.array) {
            Some(symbol_ref) => {
                let index = match generate_expression(symbol_table, &data.index) {
                    Ok(e) => e,
                    Err(x) => {
                        return Err(x);
                    },
                };
                Ok(Expr::ArrayIndex(ArrayIndexData::new(data.tag, symbol_ref, Box::new(index), None)))
            },
            None => Err(Error(ErrorKind::SymbolNotFound(data.tag, data.array.clone()))),
        },
        _ => vstd::pervasive::unreached(),
    }
}

/// Builds the intermediate forms of expressions in order, stopping at the
/// first error.
pub fn generate_expressions<T: SymbolTable>(symbol_table: &T, input: &Vec<ast::Expression>) -> (r: Result<Vec<Expr>, Error>)
    requires
        forall|i: int| 0 <= i < input@.len() ==> is_expression(#[trigger] input@[i]),
    ensures
        match r {
            Ok(es) => expressions_error(input@, symbol_table.scopes()) is None && es@.len()
                == input@.len() && forall|i: int|
                0 <= i < input@.len() ==> expr_generated(
                    #[trigger] input@[i],
                    es@[i],
                    symbol_table.scopes(),
                ),
            Err(x) => expressions_error(input@, symbol_table.scopes()) == Some(x),
        },
    decreases input@,
{
    let ghost scopes = symbol_table.scopes();
    let mut result: Vec<Expr> = Vec::new();
    let mut index: usize = 0;
    while index < input.len()
        invariant
            symbol_table.scopes() == scopes,
            forall|i: int| 0 <= i < input@.len() ==> is_expression(#[trigger] input@[i]),
            index <= input@.len(),
            result@.len() == index,
            expressions_error(input@.take(index as int), scopes) is None,
            forall|i: int|
                0 <= i < index ==> expr_generated(#[trigger] input@[i], result@[i], scopes),
        decreases input@.len() - index,
    {
        proof {
            assert(input@.take(index + 1).drop_last() =~= input@.take(index as int));
            assert(input@.take(index + 1).last() == input@[index as int]);
            assert(decreases_to!(input@ => input@[index as int]));
        }
        let expression = match generate_expression(symbol_table, &input[index]) {
            Ok(e) => e,
            Err(x) => {
                proof {
                    lemma_expressions_error_prefix(input@, scopes, index + 1);
                }
                return Err(x);
            },
        };
        result.push(expression);
        index += 1;
    }
    proof {
        assert(input@.take(input@.len() as int) =~= input@);
    }
    Ok(result)
}

/// An error among the first `n` expressions is the first among them all.
proof fn lemma_expressions_error_prefix(aa: Seq<ast::Expression>, scopes: Seq<Seq<SymbolEntry>>, n: int)
    requires
        0 <= n <= aa.len(),
        expressions_error(aa.take(n), scopes) is Some,
    ensures
        expressions_error(aa, scopes) == expressions_error(aa.take(n), scopes),
    decreases aa.len() - n,
{
    if n < aa.len() {
        assert(aa.take(n + 1).drop_last() =~= aa.take(n));
        lemma_expressions_error_prefix(aa, scopes, n + 1);
    } else {
        assert(aa.take(n) =~= aa);
    }
}

/// What generating statements reads and changes of a symbol table: its
/// scopes, the next free frame offset and the next handle.
pub type GenState = (Seq<Seq<SymbolEntry>>, i8, nat);

/// The state of a symbol table.
pub open spec fn gen_state<T: SymbolTable>(t: T) -> GenState {
    (t.scopes(), t.frame(), t.handle())
}

/// Whether a node of the syntax tree can stand as a statement inside a
/// block: an assignment, call, conditional, declaration of a constant,
/// variable or register, return, goto, loop, inline assembly, comment or
/// break, made of expressions and such statements.
pub open spec fn is_statement(a: ast::Expression) -> bool
    decreases a,
{
    match a {
        ast::Expression::Assignment(d) => is_expression(*d.left_value) && is_expression(*d.right_value),
        ast::Expression::CallFunction(d) => forall|i: int|
            0 <= i < d.arguments@.len() ==> is_expression(#[trigger] d.arguments@[i]),
        ast::Expression::Conditional(d) => is_expression(*d.condition) && (forall|i: int|
            0 <= i < d.when_true@.len() ==> is_statement(#[trigger] d.when_true@[i])) && (forall|
            i: int,
        | 0 <= i < d.when_false@.len() ==> is_statement(#[trigger] d.when_false@[i])),
        ast::Expression::DeclareConst(d) => constant_tagged(*d.value),
        ast::Expression::DeclareVariable(d) => is_expression(*d.value),
        ast::Expression::DeclareRegister(_) => true,
        ast::Expression::Return(d) => match d.value {
            Some(v) => is_expression(*v),
            None => true,
        },
        ast::Expression::GoTo(_) | ast::Expression::InlineAsm(_) | ast::Expression::Comment
        | ast::Expression::Break => true,
        ast::Expression::WhileLoop(d) => is_expression(*d.condition) && forall|i: int|
            0 <= i < d.body@.len() ==> is_statement(#[trigger] d.body@[i]),
        _ => false,
    }
}

pub open spec fn are_statements(aa: Seq<ast::Expression>) -> bool {
    forall|i: int| 0 <= i < aa.len() ==> is_statement(#[trigger] aa[i])
}

/// The size a declared variable takes in its frame; `void` takes none.
pub open spec fn declared_size(t: BaseType) -> usize {
    match type_size(t) {
        Some(s) => s,
        None => 0,
    }
}

/// The state after a declaration inserts `s` under `name` with the next
/// handle, the frame moving on by `grow` bytes.
pub open spec fn declared(st: GenState, name: String, s: Symbol, grow: usize) -> GenState {
    (
        st.0.update(0, inserted(st.0[0], name, st.2 as SymbolRef, s)),
        st.1.wrapping_add(grow as i8),
        following(st.2),
    )
}

/// The state of the symbol table after a statement is generated: a
/// declaration adds its symbol, statements held are generated in order.
pub open spec fn statement_state(a: ast::Expression, st: GenState) -> GenState
    decreases a,
{
    match a {
        ast::Expression::DeclareConst(d) => declared(
            st,
            d.name_type.name,
            Symbol::Constant(
                Constant {
                    base_type: d.name_type.base_type,
                    value: ConstantValue::Number(
                        constant_value(st.0, d.name_type.base_type, *d.value)->Ok_0 as i32,
                    ),
                },
            ),
            0,
        ),
        ast::Expression::DeclareVariable(d) => declared(
            st,
            d.name_type.name,
            Symbol::Variable(
                Variable { base_type: d.name_type.base_type, location: Location::FrameOffset(st.1) },
            ),
            declared_size(d.name_type.base_type),
        ),
        ast::Expression::DeclareRegister(d) => declared(
            st,
            d.name_type.name,
            Symbol::Variable(
                Variable {
                    base_type: d.name_type.base_type,
                    location: Location::Global(d.location as u16),
                },
            ),
            0,
        ),
        ast::Expression::Conditional(d) => statements_state(
            d.when_false@,
            statements_state(d.when_true@, st),
        ),
        ast::Expression::WhileLoop(d) => statements_state(d.body@, st),
        _ => st,
    }
}

/// Whether generating code took the state `st0` to `st1` keeping every
/// scope but the innermost as it was, and every name of the innermost one.
pub open spec fn names_persist(st0: GenState, st1: GenState) -> bool {
    &&& st1.0.len() == st0.0.len()
    &&& forall|k: int| 1 <= k < st0.0.len() ==> st1.0[k] == st0.0[k]
    &&& forall|n: Seq<char>|
        entry_named(st0.0[0], n) is Some ==> (#[trigger] entry_named(st1.0[0], n)) is Some
}

proof fn lemma_declared_keeps(st: GenState, name: String, s: Symbol, grow: usize)
    requires
        st.0.len() >= 1,
    ensures
        names_persist(st, declared(st, name, s, grow)),
{
    let st1 = declared(st, name, s, grow);
    assert forall|n: Seq<char>| entry_named(st.0[0], n) is Some implies (#[trigger] entry_named(st1.0[0], n)) is Some by {
        crate::symbol_table::lemma_inserted_keeps_name(st.0[0], name, st.2 as SymbolRef, s, n);
    }
}

/// Generating a statement keeps the outer scopes, and the names of the
/// innermost one.
proof fn lemma_statement_keeps(a: ast::Expression, st: GenState)
    requires
        st.0.len() >= 1,
    ensures
        names_persist(st, statement_state(a, st)),
    decreases a,
{
    match a {
        ast::Expression::DeclareConst(d) => {
            lemma_declared_keeps(
                st,
                d.name_type.name,
                Symbol::Constant(
                    Constant {
                        base_type: d.name_type.base_type,
                        value: ConstantValue::Number(
                            constant_value(st.0, d.name_type.base_type, *d.value)->Ok_0 as i32,
                        ),
                    },
                ),
                0,
            );
        },
        ast::Expression::DeclareVariable(d) => {
            lemma_declared_keeps(
                st,
                d.name_type.name,
                Symbol::Variable(
                    Variable { base_type: d.name_type.base_type, location: Location::FrameOffset(st.1) },
                ),
                declared_size(d.name_type.base_type),
            );
        },
        ast::Expression::DeclareRegister(d) => {
            lemma_declared_keeps(
                st,
                d.name_type.name,
                Symbol::Variable(
                    Variable {
                        base_type: d.name_type.base_type,
                        location: Location::Global(d.location as u16),
                    },
                ),
                0,
            );
        },
        ast::Expression::Conditional(d) => {
            lemma_statements_keep(d.when_true@, st);
            let mid = statements_state(d.when_true@, st);
            lemma_statements_keep(d.when_false@, mid);
        },
        ast::Expression::WhileLoop(d) => {
            lemma_statements_keep(d.body@, st);
        },
        _ => {},
    }
}

/// Generating statements keeps the outer scopes, and the names of the
/// innermost one.
proof fn lemma_statements_keep(aa: Seq<ast::Expression>, st: GenState)
    requires
        st.0.len() >= 1,
    ensures
        names_persist(st, statements_state(aa, st)),
    decreases aa,
{
    if aa.len() > 0 {
        lemma_statements_keep(aa.drop_last(), st);
        let mid = statements_state(aa.drop_last(), st);
        lemma_statement_keeps(aa.last(), mid);
    }
}

/// The state after statements are generated in order.
pub open spec fn statements_state(aa: Seq<ast::Expression>, st: GenState) -> GenState
    decreases aa,
{
    if aa.len() == 0 {
        st
    } else {
        statement_state(aa.last(), statements_state(aa.drop_last(), st))
    }
}

/// The first error that generating a statement meets: a name that stands
/// for nothing usable, a constant that cannot be evaluated, a register
/// outside the address space, or a name declared twice in a scope.
pub open spec fn statement_error(a: ast::Expression, st: GenState) -> Option<Error>
    decreases a,
{
    match a {
        ast::Expression::Assignment(d) => match expression_error(*d.left_value, st.0) {
            Some(x) => Some(x),
            None => expression_error(*d.right_value, st.0),
        },
        ast::Expression::CallFunction(d) => expressions_error(d.arguments@, st.0),
        ast::Expression::Conditional(d) => match expression_error(*d.condition, st.0) {
            Some(x) => Some(x),
            None => match statements_error(d.when_true@, st) {
                Some(x) => Some(x),
                None => statements_error(d.when_false@, statements_state(d.when_true@, st)),
            },
        },
        ast::Expression::DeclareConst(d) => match constant_value(
            st.0,
            d.name_type.base_type,
            *d.value,
        ) {
            Err(x) => Some(x),
            Ok(_) => if insertable(st.0[0], d.name_type.name@, st.2 as SymbolRef) {
                None
            } else {
                Some(Error(ErrorKind::DuplicateSymbol(d.tag, d.name_type.name)))
            },
        },
        ast::Expression::DeclareVariable(d) => if !insertable(
            st.0[0],
            d.name_type.name@,
            st.2 as SymbolRef,
        ) {
            Some(Error(ErrorKind::DuplicateSymbol(d.tag, d.name_type.name)))
        } else {
            expression_error(*d.value, statement_state(a, st).0)
        },
        ast::Expression::DeclareRegister(d) => if d.location < 0 || d.location > 0xFFFF {
            Some(Error(ErrorKind::OutOfBounds(d.tag, d.location as isize, 0, 0xFFFF)))
        } else if !insertable(st.0[0], d.name_type.name@, st.2 as SymbolRef) {
            Some(Error(ErrorKind::DuplicateSymbol(d.tag, d.name_type.name)))
        } else {
            None
        },
        ast::Expression::Return(d) => match d.value {
            Some(v) => expression_error(*v, st.0),
            None => None,
        },
        ast::Expression::WhileLoop(d) => match expression_error(*d.condition, st.0) {
            Some(x) => Some(x),
            None => statements_error(d.body@, st),
        },
        _ => None,
    }
}

/// The first error that generating statements in order meets.
pub open spec fn statements_error(aa: Seq<ast::Expression>, st: GenState) -> Option<Error>
    decreases aa,
{
    if aa.len() == 0 {
        None
    } else {
        match statements_error(aa.drop_last(), st) {
            Some(x) => Some(x),
            None => statement_error(aa.last(), statements_state(aa.drop_last(), st)),
        }
    }
}

/// How many statements a node yields: declarations of constants and
/// registers and comments yield none, every other statement one.
pub open spec fn yield_count(a: ast::Expression) -> int {
    match a {
        ast::Expression::DeclareConst(_) | ast::Expression::DeclareRegister(_)
        | ast::Expression::Comment => 0,
        _ => 1,
    }
}

pub open spec fn yields_count(aa: Seq<ast::Expression>) -> int
    decreases aa.len(),
{
    if aa.len() == 0 {
        0
    } else {
        yields_count(aa.drop_last()) + yield_count(aa.last())
    }
}

/// Whether `out` is what generating the statement `a` from state `st`
/// yields: the intermediate form of each statement, its expressions
/// generated as `expr_generated` says; a declared variable becomes an
/// assignment of its initial value to the new variable.
pub open spec fn statement_generated(a: ast::Expression, out: Seq<Statement>, st: GenState) -> bool
    decreases a,
{
    &&& out.len() == yield_count(a)
    &&& match a {
        ast::Expression::Assignment(d) => match out[0] {
            Statement::Assign(d2) => {
                &&& d2.tag == d.tag
                &&& d2.value_type is None
                &&& expr_generated(*d.left_value, d2.left_value, st.0)
                &&& expr_generated(*d.right_value, d2.right_value, st.0)
            },
            _ => false,
        },
        ast::Expression::CallFunction(d) => match out[0] {
            Statement::Call(d2) => {
                &&& d2.tag == d.tag
                &&& d2.function == d.name
                &&& d2.return_type is None
                &&& d2.arguments@.len() == d.arguments@.len()
                &&& forall|i: int|
                    0 <= i < d.arguments@.len() ==> expr_generated(
                        #[trigger] d.arguments@[i],
                        d2.arguments@[i],
                        st.0,
                    )
            },
            _ => false,
        },
        ast::Expression::Conditional(d) => match out[0] {
            Statement::Conditional(d2) => {
                &&& d2.tag == d.tag
                &&& expr_generated(*d.condition, d2.condition, st.0)
                &&& statements_generated(d.when_true@, d2.when_true@, st)
                &&& statements_generated(
                    d.when_false@,
                    d2.when_false@,
                    statements_state(d.when_true@, st),
                )
            },
            _ => false,
        },
        ast::Expression::DeclareVariable(d) => match out[0] {
            Statement::Assign(d2) => {
                &&& d2.tag == d.tag
                &&& d2.value_type is None
                &&& d2.left_value == Expr::Symbol(
                    SymbolData { tag: d.tag, symbol: st.2 as SymbolRef, value_type: None },
                )
                &&& expr_generated(*d.value, d2.right_value, statement_state(a, st).0)
            },
            _ => false,
        },
        ast::Expression::Return(d) => match out[0] {
            Statement::Return(d2) => {
                &&& d2.tag == d.tag
                &&& d2.value_type is None
                &&& match (d.value, d2.value) {
                    (Some(v), Some(v2)) => expr_generated(*v, v2, st.0),
                    (None, None) => true,
                    _ => false,
                }
            },
            _ => false,
        },
        ast::Expression::GoTo(d) => out[0] == Statement::GoTo(
            GoToData { tag: d.tag, destination: d.destination },
        ),
        ast::Expression::WhileLoop(d) => match out[0] {
            Statement::WhileLoop(d2) => {
                &&& d2.tag == d.tag
                &&& expr_generated(*d.condition, d2.condition, st.0)
                &&& statements_generated(d.body@, d2.body@, st)
            },
            _ => false,
        },
        ast::Expression::InlineAsm(d) => out[0] == Statement::InlineAsm(
            InlineAsmData { tag: d.tag, text: d.text },
        ),
        ast::Expression::Break => out[0] == Statement::Break,
        _ => true,
    }
}

/// Whether `out` is what generating the statements `aa` in order yields.
pub open spec fn statements_generated(aa: Seq<ast::Expression>, out: Seq<Statement>, st: GenState) -> bool
    decreases aa,
{
    if aa.len() == 0 {
        out.len() == 0
    } else {
        let k = yields_count(aa.drop_last());
        &&& out.len() == yields_count(aa)
        &&& statements_generated(aa.drop_last(), out.take(k), st)
        &&& statement_generated(aa.last(), out.skip(k), statements_state(aa.drop_last(), st))
    }
}

/// Builds the intermediate form of a statement, declaring what it declares
/// in the innermost scope, as `statement_generated` and `statement_state`
/// say; fails with the first error that `statement_error` names.
pub fn generate_statement_ir<T: SymbolTable>(symbol_table: &mut T, input: &ast::Expression) -> (r: Result<Vec<Statement>, Error>)
    requires
        is_statement(*input),
    ensures
        final(symbol_table).outer_frames() == old(symbol_table).outer_frames(),
        match r {
            Ok(out) => {
                &&& statement_error(*input, gen_state(*old(symbol_table))) is None
                &&& statement_generated(*input, out@, gen_state(*old(symbol_table)))
                &&& gen_state(*final(symbol_table)) == statement_state(*input, gen_state(*old(symbol_table)))
            },
            Err(x) => statement_error(*input, gen_state(*old(symbol_table))) == Some(x),
        },
    decreases *input,
{
    let ghost st0 = gen_state(*symbol_table);
    proof {
        symbol_table.lemma_scopes();
    }
    let mut statements: Vec<Statement> = Vec::new();
    match input {
        ast::Expression::Assignment(data) => {
            let left = match generate_expression(&*symbol_table, &data.left_value) {
                Ok(e) => e,
                Err(x) => {
                    return Err(x);
                },
            };
            let right = match generate_expression(&*symbol_table, &data.right_value) {
                Ok(e) => e,
                Err(x) => {
                    return Err(x);
                },
            };
            statements.push(Statement::Assign(AssignData::new(data.tag, None, left, right)));
        },
        ast::Expression::CallFunction(data) => {
            let arguments = match generate_expressions(&*symbol_table, &data.arguments) {
                Ok(a) => a,
                Err(x) => {
                    return Err(x);
                },
            };
            statements.push(Statement::Call(CallData::new(data.tag, data.name.clone(), arguments, None)));
        },
        ast::Expression::Conditional(data) => {
            let condition = match generate_expression(&*symbol_table, &data.condition) {
                Ok(e) => e,
                Err(x) => {
                    return Err(x);
                },
            };
            proof {
                assert(decreases_to!(*input => data.when_true@));
                assert(decreases_to!(*input => data.when_false@));
            }
            let when_true = match generate_statement_irs(symbol_table, &data.when_true) {
                Ok(s) => s,
                Err(x) => {
                    return Err(x);
                },
            };
            let when_false = match generate_statement_irs(symbol_table, &data.when_false) {
                Ok(s) => s,
                Err(x) => {
                    return Err(x);
                },
            };
            statements.push(
                Statement::Conditional(ConditionalData::new(data.tag, condition, when_true, when_false)),
            );
        },
        ast::Expression::DeclareConst(data) => {
            let value = match constant_eval(&*symbol_table, &data.name_type.base_type, &data.value) {
                Ok(v) => v,
                Err(x) => {
                    return Err(x);
                },
            };
            if symbol_table.insert_constant(
                data.name_type.name.clone(),
                &data.name_type.base_type,
                ConstantValue::Number(value),
            ).is_none() {
                return Err(Error(ErrorKind::DuplicateSymbol(data.tag, data.name_type.name.clone())));
            }
        },
        ast::Expression::DeclareVariable(data) => {
            let size: usize = match data.name_type.base_type.size() {
                Some(s) => s,
                None => 0,
            };
            let offset = symbol_table.next_frame_offset(size);
            let variable = Variable::new(data.name_type.base_type.clone(), Location::FrameOffset(offset));
            let symbol_ref = match symbol_table.insert_variable(data.name_type.name.clone(), variable) {
                Some(r) => r,
                None => {
                    return Err(Error(ErrorKind::DuplicateSymbol(data.tag, data.name_type.name.clone())));
                },
            };
            let value = match generate_expression(&*symbol_table, &data.value) {
                Ok(e) => e,
                Err(x) => {
                    return Err(x);
                },
            };
            statements.push(
                Statement::Assign(
                    AssignData::new(
                        data.tag,
                        None,
                        Expr::Symbol(SymbolData::new(data.tag, symbol_ref, None)),
                        value,
                    ),
                ),
            );
        },
        ast::Expression::DeclareRegister(data) => {
            if data.location < 0 || data.location > 0xFFFF {
                return Err(Error(ErrorKind::OutOfBounds(data.tag, data.location as isize, 0, 0xFFFF)));
            }
            let variable = Variable::new(
                data.name_type.base_type.clone(),
                Location::Global(data.location as u16),
            );
            if symbol_table.insert_variable(data.name_type.name.clone(), variable).is_none() {
                return Err(Error(ErrorKind::DuplicateSymbol(data.tag, data.name_type.name.clone())));
            }
        },
        ast::Expression::Return(data) => {
            let value = match &data.value {
                Some(v) => match generate_expression(&*symbol_table, v) {
                    Ok(e) => Some(e),
                    Err(x) => {
                        return Err(x);
                    },
                },
                None => None,
            };
            statements.push(Statement::Return(ReturnData::new(data.tag, None, value)));
        },
        ast::Expression::GoTo(data) => {
            statements.push(Statement::GoTo(GoToData::new(data.tag, data.destination.clone())));
        },
        ast::Expression::WhileLoop(data) => {
            let condition = match generate_expression(&*symbol_table, &data.condition) {
                Ok(e) => e,
                Err(x) => {
                    return Err(x);
                },
            };
            proof {
                assert(decreases_to!(*input => data.body@));
            }
            let body = match generate_statement_irs(symbol_table, &data.body) {
                Ok(s) => s,
                Err(x) => {
                    return Err(x);
                },
            };
            statements.push(Statement::WhileLoop(WhileLoopData::new(data.tag, condition, body)));
        },
        ast::Expression::InlineAsm(data) => {
            statements.push(Statement::InlineAsm(InlineAsmData::new(data.tag, data.text.clone())));
        },
        ast::Expression::Break => {
            statements.push(Statement::Break);
        },
        ast::Expression::Comment => {},
        _ => {
            return vstd::pervasive::unreached();
        },
    }
    Ok(statements)
}

/// Builds the intermediate forms of statements in order, as
/// `statements_generated` says, stopping at the first error.
pub fn generate_statement_irs<T: SymbolTable>(symbol_table: &mut T, input: &Vec<ast::Expression>) -> (r: Result<Vec<Statement>, Error>)
    requires
        are_statements(input@),
    ensures
        final(symbol_table).outer_frames() == old(symbol_table).outer_frames(),
        match r {
            Ok(out) => {
                &&& statements_error(input@, gen_state(*old(symbol_table))) is None
                &&& statements_generated(input@, out@, gen_state(*old(symbol_table)))
                &&& gen_state(*final(symbol_table)) == statements_state(input@, gen_state(*old(symbol_table)))
            },
            Err(x) => statements_error(input@, gen_state(*old(symbol_table))) == Some(x),
        },
    decreases input@,
{
    let ghost st0 = gen_state(*symbol_table);
    let mut statements: Vec<Statement> = Vec::new();
    let mut index: usize = 0;
    while index < input.len()
        invariant
            symbol_table.outer_frames() == old(symbol_table).outer_frames(),
            st0 == gen_state(*old(symbol_table)),
            are_statements(input@),
            index <= input@.len(),
            statements_error(input@.take(index as int), st0) is None,
            statements_generated(input@.take(index as int), statements@, st0),
            gen_state(*symbol_table) == statements_state(input@.take(index as int), st0),
        decreases input@.len() - index,
    {
        let ghost prefix = input@.take(index as int);
        let ghost next = input@.take(index + 1);
        let ghost mid = gen_state(*symbol_table);
        let ghost before = statements@;
        proof {
            assert(next.drop_last() =~= prefix);
            assert(next.last() == input@[index as int]);
            assert(decreases_to!(input@ => input@[index as int]));
        }
        let produced = match generate_statement_ir(symbol_table, &input[index]) {
            Ok(s) => s,
            Err(x) => {
                proof {
                    lemma_statements_error_prefix(input@, st0, index + 1);
                }
                return Err(x);
            },
        };
        let ghost produced_view = produced@;
        let mut produced = produced;
        statements.append(&mut produced);
        proof {
            lemma_statements_generated_length(prefix, before, st0);
            assert(statements@ =~= before + produced_view);
            assert(statements@.take(before.len() as int) =~= before);
            assert(statements@.skip(before.len() as int) =~= produced_view);
            assert(statements_generated(next, statements@, st0));
        }
        index += 1;
    }
    proof {
        assert(input@.take(input@.len() as int) =~= input@);
    }
    Ok(statements)
}

/// What statements yield has the length that `yields_count` gives.
proof fn lemma_statements_generated_length(aa: Seq<ast::Expression>, out: Seq<Statement>, st: GenState)
    requires
        statements_generated(aa, out, st),
    ensures
        out.len() == yields_count(aa),
{
}

/// An error among the first `n` statements is the first among them all.
proof fn lemma_statements_error_prefix(aa: Seq<ast::Expression>, st: GenState, n: int)
    requires
        0 <= n <= aa.len(),
        statements_error(aa.take(n), st) is Some,
    ensures
        statements_error(aa, st) == statements_error(aa.take(n), st),
    decreases aa.len() - n,
{
    if n < aa.len() {
        assert(aa.take(n + 1).drop_last() =~= aa.take(n));
        lemma_statements_error_prefix(aa, st, n + 1);
    } else {
        assert(aa.take(n) =~= aa);
    }
}

/// Whether a node can stand at the top of a program: a function
/// declaration whose body is made of statements, an `org`, or a statement.
pub open spec fn is_top_level(a: ast::Expression) -> bool {
    match a {
        ast::Expression::DeclareFunction(d) => are_statements(d.body@),
        ast::Expression::Org(_) => true,
        _ => is_statement(a),
    }
}

/// Whether no two functions of a program are declared under one name.
pub open spec fn distinct_functions(input: Seq<ast::Expression>) -> bool {
    forall|i: int, j: int|
        #![trigger input[i], input[j]]
        0 <= i < j < input.len() ==> (input[i] matches ast::Expression::DeclareFunction(a) ==> (
        input[j] matches ast::Expression::DeclareFunction(b) ==> a.name@ != b.name@))
}

/// Whether a block is ready for the next stage: functions have a scope of
/// their own and top-level code has none, a fixed location is an absolute
/// address, and every statement is well typed.
pub open spec fn block_ready(b: Block) -> bool {
    &&& (b.anonymous <==> b.symbol_table is None)
    &&& (b.location is None || b.location matches Some(Location::Global(_)))
    &&& forall|i: int| 0 <= i < b.body@.len() ==> statement_well_typed(#[trigger] b.body@[i])
}

/// The names of the functions that a program declares, in order.
pub open spec fn declared_functions(input: Seq<ast::Expression>) -> Seq<Seq<char>>
    decreases input.len(),
{
    if input.len() == 0 {
        Seq::empty()
    } else {
        let rest = declared_functions(input.drop_last());
        match input.last() {
            ast::Expression::DeclareFunction(d) => rest.push(d.name@),
            _ => rest,
        }
    }
}

/// The names of the blocks that hold functions, in order.
pub open spec fn function_blocks(blocks: Seq<Block>) -> Seq<Seq<char>>
    decreases blocks.len(),
{
    if blocks.len() == 0 {
        Seq::empty()
    } else {
        let rest = function_blocks(blocks.drop_last());
        if blocks.last().anonymous {
            rest
        } else {
            rest.push(blocks.last().name@)
        }
    }
}

/// What the layout of the program says of a block: whether it is top-level
/// code, the function's name (none for top-level code), its location, and
/// how many statements it holds.
pub type BlockShape = (bool, Seq<char>, Option<Location>, int);

/// The shape of a block.
pub open spec fn block_shape(b: Block) -> BlockShape {
    (b.anonymous, if b.anonymous { Seq::empty() } else { b.name@ }, b.location, b.body@.len() as int)
}

/// The blocks a program is laid out in, in order: a block of top-level code
/// first; a function declaration opens a block of its own, which takes over
/// the location of the top-level block before it when that block is still
/// empty, and replaces it; an `org` places the last block; a comment adds
/// nothing; any other statement adds its statements to the last block.
pub open spec fn program_layout(input: Seq<ast::Expression>) -> Seq<BlockShape>
    decreases input.len(),
{
    if input.len() == 0 {
        seq![(true, Seq::empty(), None, 0)]
    } else {
        let ls = program_layout(input.drop_last());
        let k = ls.len() - 1;
        let last = ls[k];
        match input.last() {
            ast::Expression::DeclareFunction(d) => if last.0 && last.3 == 0 {
                ls.drop_last().push((false, d.name@, last.2, yields_count(d.body@)))
            } else {
                ls.push((false, d.name@, None, yields_count(d.body@)))
            },
            ast::Expression::Org(o) => ls.update(k, (last.0, last.1, Some(Location::Global(o.address as u16)), last.3)),
            ast::Expression::Comment => ls,
            other => ls.update(k, (last.0, last.1, last.2, last.3 + yield_count(other))),
        }
    }
}

/// Whether the blocks have the shapes that a layout gives.
pub open spec fn laid_out(blocks: Seq<Block>, layout: Seq<BlockShape>) -> bool {
    &&& blocks.len() == layout.len()
    &&& forall|b: int| 0 <= b < blocks.len() ==> block_shape(#[trigger] blocks[b]) == layout[b]
}

proof fn lemma_generated_count(aa: Seq<ast::Expression>, out: Seq<Statement>, st: GenState)
    requires
        statements_generated(aa, out, st),
    ensures
        out.len() == yields_count(aa),
{
}

pub(crate) proof fn lemma_function_blocks_same(a: Seq<Block>, b: Seq<Block>)
    requires
        a.len() == b.len(),
        forall|k: int| 0 <= k < a.len() ==> (#[trigger] a[k]).anonymous == b[k].anonymous && a[k].name == b[k].name,
    ensures
        function_blocks(a) == function_blocks(b),
    decreases a.len(),
{
    if a.len() > 0 {
        lemma_function_blocks_same(a.drop_last(), b.drop_last());
    }
}

/// The location a function declared after blocks laid out as `layout`
/// takes: that of the last block when it is top-level code that is still
/// empty, else none.
pub open spec fn function_location(layout: Seq<BlockShape>) -> Option<Location> {
    let last = layout.last();
    if last.0 && last.3 == 0 {
        last.2
    } else {
        None
    }
}

/// Whether `md` is the entry that declaring the function `d` puts into the
/// global table, at the location `location`.
pub open spec fn function_entry(d: ast::DeclareFunctionData, md: FunctionMetadata, location: Option<Location>) -> bool {
    &&& md.name == d.name
    &&& md.location == location
    &&& md.parameters@ == d.parameters@
    &&& md.return_type == d.return_type
    &&& md.frame_size == 127
}

/// The handle that the function `d` takes when the global table's next
/// handle is `h`: the one after its parameters'.
pub open spec fn function_handle(d: ast::DeclareFunctionData, h: nat) -> nat {
    handle_after(h, d.parameters@.len() as int)
}

/// The state in which the body of the function `d` is generated, once it is
/// declared with the entry `md` in the global state `st`: its parameters'
/// scope inside the global scope that holds it, with the frame its
/// parameters take and the handle after the function's.
pub open spec fn body_state(d: ast::DeclareFunctionData, md: FunctionMetadata, st: GenState) -> GenState {
    let h = function_handle(d, st.2);
    (
        seq![
            parameter_scope(d.parameters@, st.2),
            inserted(st.0[0], d.name, h as SymbolRef, Symbol::Function(md)),
        ],
        parameter_offset(d.parameters@, d.parameters@.len() as int),
        following(h),
    )
}

/// Whether the top-level node `a`, generated after blocks laid out as
/// `layout` in the global state `st`, succeeds and leaves the global state
/// `st1`: a function without two parameters of one name, whose name (with
/// the entry `md`) can be inserted, and whose body has no error, leaving
/// the global scope and next handle its body leaves and the global frame
/// as it was; an `org` in range; a comment; a statement without an
/// error, leaving the state `statement_state` says. `out` is what it yields:
/// the function's body, or the statement's intermediate form.
pub open spec fn item_step(
    a: ast::Expression,
    st: GenState,
    layout: Seq<BlockShape>,
    md: FunctionMetadata,
    out: Seq<Statement>,
    st1: GenState,
) -> bool {
    match a {
        ast::Expression::DeclareFunction(d) => {
            let bs = body_state(d, md, st);
            let we = statements_state(d.body@, bs);
            &&& statements_generated(d.body@, out, bs)
            &&& !shares_a_name(d.parameters@)
            &&& function_entry(d, md, function_location(layout))
            &&& insertable(st.0[0], d.name@, function_handle(d, st.2) as SymbolRef)
            &&& statements_error(d.body@, bs) is None
            &&& st1.0 == seq![we.0[1]]
            &&& st1.1 == st.1
            &&& st1.2 == we.2
        },
        ast::Expression::Org(o) => 0x200 <= o.address <= 0xFFFF && st1 == st && out.len() == 0,
        ast::Expression::Comment => st1 == st && out.len() == 0,
        _ => statement_error(a, st) is None && st1 == statement_state(a, st) && statement_generated(a, out, st),
    }
}

/// Whether the top-level node `a`, generated after blocks laid out as
/// `layout` in the global state `st`, fails with `x`: a function with two
/// parameters of one name fails with that name; one whose name cannot be
/// inserted fails with its name; one whose body has an error fails with
/// that error; an `org` out of the range `$0200..=$FFFF` fails as such; a
/// statement fails with its first error. A comment never fails.
pub open spec fn item_fails(a: ast::Expression, st: GenState, layout: Seq<BlockShape>, x: Error) -> bool {
    match a {
        ast::Expression::DeclareFunction(d) => {
            ||| shares_a_name(d.parameters@) && reports_shared_name(d, x)
            ||| !shares_a_name(d.parameters@) && !insertable(
                st.0[0],
                d.name@,
                function_handle(d, st.2) as SymbolRef,
            ) && x == Error(ErrorKind::DuplicateSymbol(d.tag, d.name))
            ||| !shares_a_name(d.parameters@) && insertable(st.0[0], d.name@, function_handle(d, st.2) as SymbolRef)
                && exists|md: FunctionMetadata|
                #[trigger] function_entry(d, md, function_location(layout)) && statements_error(
                    d.body@,
                    body_state(d, md, st),
                ) == Some(x)
        },
        ast::Expression::Org(o) => !(0x200 <= o.address <= 0xFFFF) && x == Error(ErrorKind::OrgOutOfRange(o.tag)),
        ast::Expression::Comment => false,
        _ => statement_error(a, st) == Some(x),
    }
}

/// Whether `x` reports a name that two parameters of the function `d`
/// share.
pub open spec fn reports_shared_name(d: ast::DeclareFunctionData, x: Error) -> bool {
    x.0 matches ErrorKind::DuplicateSymbol(t, name) && t == d.tag && exists|i: int, j: int|
        #![trigger d.parameters@[i], d.parameters@[j]]
        0 <= i < j < d.parameters@.len() && d.parameters@[i].name@ == name@ && d.parameters@[j].name@ == name@
}

/// Whether `st` is the global state that generation starts from: one scope
/// that holds only the label of the first block, frame 0, and the handle
/// after that label's.
pub open spec fn initial_state(st: GenState) -> bool {
    &&& st.1 == 0
    &&& st.2 == following(0)
    &&& exists|name: crate::symbol_table::SymbolName|
        name@ == crate::symbol_table::block_label(0) && #[trigger] inserted(Seq::empty(), name, 0, Symbol::Block) == st.0[0] && st.0.len()
            == 1
}

/// Whether the first `k` top-level nodes of `input` succeed in order, the
/// global state going through `gs` from the initial one, functions
/// declared with the entries `ms`, the nodes yielding `outs`.
pub open spec fn items_succeed(
    input: Seq<ast::Expression>,
    gs: Seq<GenState>,
    ms: Seq<FunctionMetadata>,
    outs: Seq<Seq<Statement>>,
    k: int,
) -> bool {
    &&& 0 <= k <= input.len()
    &&& gs.len() == k + 1
    &&& ms.len() == k
    &&& outs.len() == k
    &&& initial_state(gs[0])
    &&& forall|j: int|
        0 <= j < k ==> #[trigger] item_step(input[j], gs[j], program_layout(input.take(j)), ms[j], outs[j], gs[j + 1])
}

/// What a block holds for its check: its statements, its own scope (a
/// function's), and the type it returns.
pub type BlockContent = (Seq<Statement>, Option<Seq<SymbolEntry>>, BaseType);

/// What the blocks of a program hold, top-level node by node, from what the
/// nodes yield (`outs`), the global states they were generated in (`gs`)
/// and the entries of its functions (`ms`): a function opens a block with
/// its body, the scope its body leaves and its return type, replacing the
/// last block when that is top-level code that is still empty; any other
/// statement adds what it yields to the last block.
pub open spec fn program_contents(
    input: Seq<ast::Expression>,
    gs: Seq<GenState>,
    ms: Seq<FunctionMetadata>,
    outs: Seq<Seq<Statement>>,
) -> Seq<BlockContent>
    decreases input.len(),
{
    if input.len() == 0 {
        seq![(Seq::empty(), None, BaseType::Void)]
    } else {
        let k = input.len() - 1;
        let cs = program_contents(input.drop_last(), gs, ms, outs);
        let last = cs.last();
        match input.last() {
            ast::Expression::DeclareFunction(d) => {
                let entry = (
                    outs[k],
                    Some(statements_state(d.body@, body_state(d, ms[k], gs[k])).0[0]),
                    d.return_type,
                );
                if last.1 is None && last.0.len() == 0 {
                    cs.drop_last().push(entry)
                } else {
                    cs.push(entry)
                }
            },
            ast::Expression::Org(_) | ast::Expression::Comment => cs,
            _ => cs.update(cs.len() - 1, (last.0 + outs[k], last.1, last.2)),
        }
    }
}

proof fn lemma_contents_same(
    input: Seq<ast::Expression>,
    gs1: Seq<GenState>,
    ms1: Seq<FunctionMetadata>,
    outs1: Seq<Seq<Statement>>,
    gs2: Seq<GenState>,
    ms2: Seq<FunctionMetadata>,
    outs2: Seq<Seq<Statement>>,
)
    requires
        forall|j: int| 0 <= j < input.len() ==> gs1[j] == gs2[j] && ms1[j] == ms2[j] && outs1[j] == outs2[j],
    ensures
        program_contents(input, gs1, ms1, outs1) == program_contents(input, gs2, ms2, outs2),
    decreases input.len(),
{
    if input.len() > 0 {
        lemma_contents_same(input.drop_last(), gs1, ms1, outs1, gs2, ms2, outs2);
        let k = input.len() - 1;
        assert(gs1[k] == gs2[k] && ms1[k] == ms2[k] && outs1[k] == outs2[k]);
    }
}

/// Whether the blocks hold what `contents` says.
pub open spec fn holds_contents(blocks: Seq<Block>, contents: Seq<BlockContent>) -> bool {
    &&& blocks.len() == contents.len()
    &&& forall|b: int|
        0 <= b < blocks.len() ==> {
            let blk = #[trigger] blocks[b];
            &&& blk.body@ == contents[b].0
            &&& blk.metadata.return_type == contents[b].2
            &&& match blk.symbol_table {
                Some(t) => contents[b].1 == Some(t.scopes()[0]),
                None => contents[b].1 is None,
            }
        }
}

/// Whether checking blocks, with the global scope `global`, fails with
/// `x`: some statement reads a symbol that is not known; or, every symbol
/// being known, the first statement (in the order of the blocks, then of
/// their code) whose types cannot be checked fails with `x`.
pub open spec fn check_fails(blocks: Seq<Block>, global: Seq<SymbolEntry>, x: Error) -> bool {
    ||| x.0 matches ErrorKind::SymbolNotFound(t, name) && t.0 == usize::MAX && name@.len() == 0 && exists|b: int|
        0 <= b < blocks.len() && !statements_symbols_known(
            (#[trigger] blocks[b]).body@,
            block_scopes(blocks[b], global),
        )
    ||| (forall|b: int|
        0 <= b < blocks.len() ==> statements_symbols_known(
            (#[trigger] blocks[b]).body@,
            block_scopes(blocks[b], global),
        )) && exists|b: int, i: int|
        0 <= b < blocks.len() && 0 <= i < blocks[b].body@.len() && statement_check_fails(
            #[trigger] blocks[b].body@[i],
            x,
            block_scopes(blocks[b], global),
            blocks[b].metadata.return_type,
        ) && (forall|j: int|
            0 <= j < i ==> statement_checks(
                #[trigger] blocks[b].body@[j],
                block_scopes(blocks[b], global),
                blocks[b].metadata.return_type,
            )) && forall|c: int, j: int|
            0 <= c < b && 0 <= j < blocks[c].body@.len() ==> statement_checks(
                #[trigger] blocks[c].body@[j],
                block_scopes(blocks[c], global),
                blocks[c].metadata.return_type,
            )
}

/// Whether building the intermediate representation of `input` fails with
/// `x`: the top-level nodes before the `k`th succeed, as `items_succeed`
/// says, and the `k`th fails with `x` in the global state they left, as
/// `item_fails` says; or all succeed and the blocks they lay out, holding
/// what `program_contents` says, checked with the global scope they left,
/// fail as `check_fails` says.
pub open spec fn generate_fails(input: Seq<ast::Expression>, x: Error) -> bool {
    ||| exists|gs: Seq<GenState>, ms: Seq<FunctionMetadata>, outs: Seq<Seq<Statement>>, k: int|
        #[trigger] items_succeed(input, gs, ms, outs, k) && k < input.len() && item_fails(
            input[k],
            gs[k],
            program_layout(input.take(k)),
            x,
        )
    ||| exists|gs: Seq<GenState>, ms: Seq<FunctionMetadata>, outs: Seq<Seq<Statement>>, blocks: Seq<Block>|
        #![trigger items_succeed(input, gs, ms, outs, input.len() as int), check_fails(blocks, gs[input.len() as int].0[0], x)]
        items_succeed(input, gs, ms, outs, input.len() as int) && laid_out(blocks, program_layout(input))
            && holds_contents(blocks, program_contents(input, gs, ms, outs)) && check_fails(
            blocks,
            gs[input.len() as int].0[0],
            x,
        )
}

/// Whether checking the types of the blocks `pre`, with the global scope
/// `global`, gives `post`: each block keeps all but its statements, and
/// each statement checks to the one in its place, as `statement_checks_to`
/// says.
pub open spec fn checked_blocks(pre: Seq<Block>, post: Seq<Block>, global: Seq<SymbolEntry>) -> bool {
    &&& pre.len() == post.len()
    &&& forall|b: int|
        0 <= b < pre.len() ==> {
            let ob = #[trigger] pre[b];
            let nb = post[b];
            &&& same_but_body(ob, nb)
            &&& nb.body@.len() == ob.body@.len()
            &&& forall|i: int|
                0 <= i < ob.body@.len() ==> statement_checks_to(
                    #[trigger] ob.body@[i],
                    nb.body@[i],
                    block_scopes(ob, global),
                    ob.metadata.return_type,
                )
        }
}

/// Whether `blocks` and the global state `g` are what building the
/// intermediate representation of `input` gives: every top-level node
/// succeeds, leaving `g`, as `items_succeed` says; the blocks they lay out
/// hold what `program_contents` says; and `blocks` are those blocks with
/// their types checked.
pub open spec fn generated_program(input: Seq<ast::Expression>, blocks: Seq<Block>, g: GenState) -> bool {
    exists|gs: Seq<GenState>, ms: Seq<FunctionMetadata>, outs: Seq<Seq<Statement>>, pre: Seq<Block>|
        #![trigger items_succeed(input, gs, ms, outs, input.len() as int), checked_blocks(pre, blocks, g.0[0])]
        items_succeed(input, gs, ms, outs, input.len() as int) && g == gs[input.len() as int] && laid_out(
            pre,
            program_layout(input),
        ) && holds_contents(pre, program_contents(input, gs, ms, outs)) && checked_blocks(pre, blocks, g.0[0])
}

/// Builds the intermediate representation of a program: one block for the
/// top-level code before the first function, or after an `org`, and one per
/// function, which takes over the location of an empty top-level block
/// before it; names are resolved, constants evaluated, and the types of
/// every block checked. Returns the blocks with the global symbol table.
/// An error carries only its tag, an offset in the program text: it is the
/// compiler that places it in a unit, with the unit's name and the row and
/// column there.
pub fn generate(input: &Vec<ast::Expression>) -> (r: Result<(Vec<Block>, DefaultSymbolTable), Error>)
    requires
        forall|i: int| 0 <= i < input@.len() ==> is_top_level(#[trigger] input@[i]),
    ensures
        r matches Ok((blocks, _)) ==> blocks@.len() >= 1 && forall|b: int|
            0 <= b < blocks@.len() ==> block_ready(#[trigger] blocks@[b]),
        r matches Ok((blocks, _)) ==> function_blocks(blocks@) == declared_functions(input@),
        r matches Ok((blocks, _)) ==> laid_out(blocks@, program_layout(input@)),
        r is Ok ==> forall|i: int|
            0 <= i < input@.len() ==> (#[trigger] input@[i] matches ast::Expression::Org(o) ==> 0x200 <= o.address
                <= 0xFFFF),
        r is Ok ==> distinct_functions(input@),
        r matches Err(x) ==> generate_fails(input@, x),
        r matches Ok((blocks, table)) ==> generated_program(input@, blocks@, gen_state(table)),
        r is Ok ==> exists|gs: Seq<GenState>, ms: Seq<FunctionMetadata>, outs: Seq<Seq<Statement>>|
            #[trigger] items_succeed(input@, gs, ms, outs, input@.len() as int),
{
    let mut global_symbol_table = DefaultSymbolTable::new(HandleGenerator::new(), 0);
    let mut blocks: Vec<Block> = Vec::new();
    blocks.push(Block::new_anonymous(&mut global_symbol_table));
    let ghost mut gs: Seq<GenState> = seq![gen_state(global_symbol_table)];
    let ghost mut ms: Seq<FunctionMetadata> = Seq::empty();
    let ghost mut outs: Seq<Seq<Statement>> = Seq::empty();
    proof {
        let name = blocks@[0].name;
        assert(inserted(Seq::empty(), name, 0, Symbol::Block) == gs[0].0[0]);
        assert(initial_state(gs[0]));
        assert(items_succeed(input@, gs, ms, outs, 0));
        assert(input@.take(0) =~= Seq::<ast::Expression>::empty());
        assert(blocks@[0].body@ =~= Seq::<Statement>::empty());
        assert(holds_contents(blocks@, program_contents(input@.take(0), gs, ms, outs)));
        assert(blocks@.drop_last() =~= Seq::<Block>::empty());
        assert(blocks@.last().anonymous);
        assert(function_blocks(blocks@) == function_blocks(Seq::<Block>::empty()));
        assert(input@.take(0) =~= Seq::<ast::Expression>::empty());
        assert(declared_functions(input@.take(0)) == Seq::<Seq<char>>::empty());
        assert(laid_out(blocks@, program_layout(input@.take(0))));
    }
    let mut index: usize = 0;
    while index < input.len()
        invariant
            forall|i: int| 0 <= i < input@.len() ==> is_top_level(#[trigger] input@[i]),
            index <= input@.len(),
            blocks@.len() >= 1,
            forall|b: int|
                0 <= b < blocks@.len() ==> {
                    let blk = #[trigger] blocks@[b];
                    &&& (blk.anonymous <==> blk.symbol_table is None)
                    &&& (blk.location is None || blk.location matches Some(Location::Global(_)))
                },
            function_blocks(blocks@) == declared_functions(input@.take(index as int)),
            laid_out(blocks@, program_layout(input@.take(index as int))),
            forall|i: int|
                0 <= i < index ==> (#[trigger] input@[i] matches ast::Expression::Org(o) ==> 0x200 <= o.address
                    <= 0xFFFF),
            global_symbol_table.scopes().len() == 1,
            forall|i: int|
                0 <= i < index ==> (#[trigger] input@[i] matches ast::Expression::DeclareFunction(d) ==> entry_named(
                    global_symbol_table.scopes()[0],
                    d.name@,
                ) is Some),
            forall|i: int, j: int|
                #![trigger input@[i], input@[j]]
                0 <= i < j < index ==> (input@[i] matches ast::Expression::DeclareFunction(a) ==> (
                input@[j] matches ast::Expression::DeclareFunction(b) ==> a.name@ != b.name@)),
            items_succeed(input@, gs, ms, outs, index as int),
            gs[index as int] == gen_state(global_symbol_table),
            holds_contents(blocks@, program_contents(input@.take(index as int), gs, ms, outs)),
        decreases input@.len() - index,
    {
        let ghost before = blocks@;
        let ghost global_before = gen_state(global_symbol_table);
        let ghost layout = program_layout(input@.take(index as int));
        let ghost mut next_md: FunctionMetadata = vstd::pervasive::arbitrary();
        let ghost mut next_out: Seq<Statement> = Seq::empty();
        proof {
            assert(input@.take(index + 1).drop_last() =~= input@.take(index as int));
            global_symbol_table.lemma_single_scope();
        }
        let last = blocks.len() - 1;
        match &input[index] {
            ast::Expression::DeclareFunction(data) => {
                let location = if blocks[last].is_empty_anonymous() {
                    let old_block = blocks.pop().unwrap();
                    proof {
                        assert(before.drop_last() =~= blocks@);
                    }
                    old_block.location
                } else {
                    None
                };
                assert(function_blocks(blocks@) == function_blocks(before));
                let metadata = FunctionMetadata {
                    name: data.name.clone(),
                    location: location,
                    parameters: clone_parameters(&data.parameters),
                    return_type: data.return_type.clone(),
                    frame_size: 127,
                };
                let declared = metadata.duplicate();
                let ghost parameters = metadata.parameters@;
                let mut function = match Block::new_named(
                    data.tag,
                    0,
                    &mut global_symbol_table,
                    location,
                    metadata,
                ) {
                    Ok(b) => b,
                    Err(x) => {
                        proof {
                            assert(parameters == data.parameters@);
                            assert(item_fails(input@[index as int], global_before, layout, x));
                            assert(items_succeed(input@, gs, ms, outs, index as int));
                        }
                        return Err(x);
                    },
                };
                let ghost scope_before = global_symbol_table.scopes()[0];
                let ghost handle_before = global_symbol_table.handle();
                let function_ref = match global_symbol_table.insert_function(data.name.clone(), declared) {
                    Some(r) => r,
                    None => {
                        let x = Error(ErrorKind::DuplicateSymbol(data.tag, data.name.clone()));
                        proof {
                            assert(parameters == data.parameters@);
                            assert(handle_before == function_handle(*data, global_before.2));
                            assert(item_fails(input@[index as int], global_before, layout, x));
                            assert(items_succeed(input@, gs, ms, outs, index as int));
                        }
                        return Err(x);
                    },
                };
                let ghost scope_inserted = global_symbol_table.scopes()[0];
                proof {
                    global_symbol_table.lemma_single_scope();
                    assert(insertable(scope_before, data.name@, handle_before as SymbolRef));
                    assert forall|i: int|
                        0 <= i < index && #[trigger] input@[i] is DeclareFunction implies input@[i]->DeclareFunction_0.name@
                        != data.name@ && entry_named(scope_inserted, input@[i]->DeclareFunction_0.name@) is Some by {
                        let a = input@[i]->DeclareFunction_0;
                        assert(entry_named(scope_before, a.name@) is Some);
                        crate::symbol_table::lemma_inserted_keeps_name(
                            scope_before,
                            data.name,
                            handle_before as SymbolRef,
                            Symbol::Function(declared),
                            a.name@,
                        );
                    }
                    crate::symbol_table::lemma_inserted_has_name(
                        scope_before,
                        data.name,
                        handle_before as SymbolRef,
                        Symbol::Function(declared),
                    );
                }
                function.symbol = function_ref;
                let mut own_table: Option<DefaultSymbolTable> = None;
                core::mem::swap(&mut own_table, &mut function.symbol_table);
                let table = own_table.unwrap();
                let mut global = DefaultSymbolTable::new(HandleGenerator::new(), 0);
                core::mem::swap(&mut global, &mut global_symbol_table);
                let mut wrapper = ParentedSymbolTableWrapper::new(global, table);
                let ghost wrapper_before = wrapper;
                proof {
                    assert(parameters == data.parameters@);
                    assert(handle_before == function_handle(*data, global_before.2));
                    assert(function_entry(*data, declared, function_location(layout)));
                    assert(gen_state(wrapper_before).0 =~= body_state(*data, declared, global_before).0);
                    assert(gen_state(wrapper_before) == body_state(*data, declared, global_before));
                }
                assert(wrapper.outer_frames() == seq![global_before.1]);
                let body = generate_statement_irs(&mut wrapper, &data.body);
                let ghost before_parts = wrapper;
                let (outer, inner) = wrapper.into_parts();
                assert(outer.frame() == global_before.1) by {
                    assert(before_parts.outer_frames()[0] == global_before.1);
                    assert(before_parts.outer_frames()[0] == outer.frame());
                }
                global_symbol_table = outer;
                function.symbol_table = Some(inner);
                match body {
                    Ok(statements) => {
                        proof {
                            lemma_generated_count(data.body@, statements@, gen_state(wrapper_before));
                            lemma_statements_keep(data.body@, gen_state(wrapper_before));
                            global_symbol_table.lemma_single_scope();
                            assert(global_symbol_table.scopes()[0] == scope_inserted);
                            assert(global_symbol_table.scopes() =~= seq![
                                statements_state(data.body@, body_state(*data, declared, global_before)).0[1],
                            ]);
                            assert(item_step(
                                input@[index as int],
                                global_before,
                                layout,
                                declared,
                                statements@,
                                gen_state(global_symbol_table),
                            ));
                            next_md = declared;
                            next_out = statements@;
                        }
                        function.body = statements;
                    },
                    Err(x) => {
                        proof {
                            assert(statements_error(data.body@, gen_state(wrapper_before)) == Some(x));
                            assert(item_fails(input@[index as int], global_before, layout, x));
                            assert(items_succeed(input@, gs, ms, outs, index as int));
                        }
                        return Err(x);
                    },
                }
                let ghost pushed_onto = blocks@;
                blocks.push(function);
                proof {
                    assert(blocks@.drop_last() =~= pushed_onto);
                }
            },
            ast::Expression::Org(data) => {
                if data.address < 0x200 || data.address > 0xFFFF {
                    let x = Error(ErrorKind::OrgOutOfRange(data.tag));
                    proof {
                        assert(item_fails(input@[index as int], global_before, layout, x));
                        assert(items_succeed(input@, gs, ms, outs, index as int));
                    }
                    return Err(x);
                }
                let mut block = blocks.pop().unwrap();
                block.location = Some(Location::Global(data.address as u16));
                blocks.push(block);
                proof {
                    lemma_function_blocks_same(before, blocks@);
                }
            },
            ast::Expression::Comment => {},
            other => {
                let mut statements = match generate_statement_ir(&mut global_symbol_table, other) {
                    Ok(s) => {
                        proof {
                            next_out = s@;
                        }
                        s
                    },
                    Err(x) => {
                        proof {
                            assert(item_fails(input@[index as int], global_before, layout, x));
                            assert(items_succeed(input@, gs, ms, outs, index as int));
                        }
                        return Err(x);
                    },
                };
                proof {
                    lemma_statement_keeps(*other, global_before);
                    global_symbol_table.lemma_single_scope();
                }
                let mut block = blocks.pop().unwrap();
                block.body.append(&mut statements);
                blocks.push(block);
                proof {
                    lemma_function_blocks_same(before, blocks@);
                }
            },
        }
        proof {
            assert(item_step(input@[index as int], global_before, layout, next_md, next_out, gen_state(global_symbol_table)));
            let old_gs = gs;
            let old_ms = ms;
            let old_outs = outs;
            gs = gs.push(gen_state(global_symbol_table));
            ms = ms.push(next_md);
            outs = outs.push(next_out);
            assert forall|j: int| 0 <= j < index + 1 implies #[trigger] item_step(
                input@[j],
                gs[j],
                program_layout(input@.take(j)),
                ms[j],
                outs[j],
                gs[j + 1],
            ) by {
                if j < index {
                    assert(gs[j] == old_gs[j] && gs[j + 1] == old_gs[j + 1] && ms[j] == old_ms[j] && outs[j] == old_outs[j]);
                }
            }
            lemma_contents_same(input@.take(index as int), old_gs, old_ms, old_outs, gs, ms, outs);
            assert(holds_contents(blocks@, program_contents(input@.take(index + 1), gs, ms, outs)));
            assert(items_succeed(input@, gs, ms, outs, index + 1));
        }
        index += 1;
    }
    proof {
        assert(input@.take(index as int) =~= input@);
    }
    let mut b: usize = 0;
    while b < blocks.len()
        invariant
            b <= blocks@.len(),
            forall|k: int|
                0 <= k < b ==> statements_symbols_known(
                    (#[trigger] blocks@[k]).body@,
                    block_scopes(blocks@[k], global_symbol_table.scopes()[0]),
                ),
            function_blocks(blocks@) == declared_functions(input@),
            laid_out(blocks@, program_layout(input@)),
            items_succeed(input@, gs, ms, outs, input@.len() as int),
            gs[input@.len() as int] == gen_state(global_symbol_table),
            holds_contents(blocks@, program_contents(input@, gs, ms, outs)),
            forall|k: int|
                0 <= k < blocks@.len() ==> {
                    let blk = #[trigger] blocks@[k];
                    &&& (blk.anonymous <==> blk.symbol_table is None)
                    &&& (blk.location is None || blk.location matches Some(Location::Global(_)))
                },
            blocks@.len() >= 1,
        decreases blocks@.len() - b,
    {
        let ghost before = blocks@;
        let mut block = empty_block();
        core::mem::swap(&mut block, &mut blocks[b]);
        let known = block_reads_known_symbols(&mut block, &mut global_symbol_table);
        core::mem::swap(&mut block, &mut blocks[b]);
        proof {
            assert(blocks@ =~= before);
        }
        if !known {
            let x = Error(ErrorKind::SymbolNotFound(SrcTag::invalid(), String::new()));
            proof {
                let global = global_symbol_table.scopes()[0];
                assert(!statements_symbols_known(blocks@[b as int].body@, block_scopes(blocks@[b as int], global)));
                assert(check_fails(blocks@, global, x));
                assert(items_succeed(input@, gs, ms, outs, input@.len() as int));
                assert(global == gs[input@.len() as int].0[0]);
                assert(check_fails(blocks@, gs[input@.len() as int].0[0], x));
                assert(generate_fails(input@, x));
                assert(laid_out(blocks@, program_layout(input@)));
            }
            return Err(x);
        }
        b += 1;
    }
    let ghost checked = blocks@;
    let ghost global = global_symbol_table.scopes()[0];
    match resolve_types(&mut blocks, &mut global_symbol_table) {
        Ok(()) => {},
        Err(x) => {
            proof {
                assert(check_fails(checked, global, x));
                assert(items_succeed(input@, gs, ms, outs, input@.len() as int));
                assert(global == gs[input@.len() as int].0[0]);
                assert(check_fails(checked, gs[input@.len() as int].0[0], x));
                assert(generate_fails(input@, x));
                assert(laid_out(checked, program_layout(input@)));
            }
            return Err(x);
        },
    }
    proof {
        assert(checked_blocks(checked, blocks@, global));
        assert(gen_state(global_symbol_table) == gs[input@.len() as int]);
        assert(gen_state(global_symbol_table).0[0] == global);
        assert(checked_blocks(checked, blocks@, gen_state(global_symbol_table).0[0]));
        assert(laid_out(checked, program_layout(input@)));
        assert(holds_contents(checked, program_contents(input@, gs, ms, outs)));
        assert(items_succeed(input@, gs, ms, outs, input@.len() as int));
        assert(generated_program(input@, blocks@, gen_state(global_symbol_table)));
        lemma_function_blocks_same(checked, blocks@);
        assert forall|k: int| 0 <= k < blocks@.len() implies block_shape(#[trigger] blocks@[k]) == block_shape(
            checked[k],
        ) by {
            assert(same_but_body(checked[k], blocks@[k]));
        }
        assert forall|k: int| 0 <= k < blocks@.len() implies block_ready(#[trigger] blocks@[k]) by {
            let ob = checked[k];
            let nb = blocks@[k];
            assert forall|i: int| 0 <= i < nb.body@.len() implies statement_well_typed(
                #[trigger] nb.body@[i],
            ) by {
                assert(statement_symbols_known(ob.body@[i], block_scopes(ob, global)));
                lemma_checked_statement_well_typed(
                    ob.body@[i],
                    nb.body@[i],
                    block_scopes(ob, global),
                    ob.metadata.return_type,
                );
            }
        }
    }
    Ok((blocks, global_symbol_table))
}

/// An empty top-level block, to stand in while a block is taken out.
pub(crate) fn empty_block() -> (r: Block)
    ensures
        r.anonymous,
        r.symbol_table is None,
        r.location is None,
{
    Block {
        name: String::new(),
        symbol: 0,
        location: None,
        body: Vec::new(),
        symbol_table: None,
        metadata: FunctionMetadata {
            name: String::new(),
            location: None,
            parameters: Vec::new(),
            return_type: BaseType::Void,
            frame_size: 0,
        },
        anonymous: true,
    }
}

} // verus!
