//! Building the low-level representation from the intermediate one.
use vstd::prelude::*;
use crate::base_type::{type_size, BaseType};
use crate::error::{Error, ErrorKind};
use crate::ir::block as ir;
use crate::llir::binop::{
    binop_fails, binop_generated, grows, lemma_added_statement_grows, lemma_grows_refl, lemma_grows_trans, value_type_of,
    BinopGenerator,
};
use crate::llir::block::{
    has_high_byte, high_byte_of, high_byte_value, low_byte_value, splittable,
    AddToDataStackPointerData, BranchIfZeroData, CopyData, FrameBlock, GoToData, ImmediateValue,
    InlineAsmData, JumpRoutineData, Location, MemoryData, ReturnData, RunBlock, SPOffset, Statement,
    Value,
};
use crate::llir::builder::{labelled, table_state, RunBuilder, TableState};
use crate::llir::common::{convert_location, converted_location, unsupported, unsupported_at};
use crate::parse::ast::{BinaryOperator, NameType};
use crate::src_tag::SrcTag;
use crate::symbol_table::{
    self, scope_variables, DefaultSymbolTable, HandleGenerator, ParentedSymbolTableWrapper, SymbolName,
    SymbolRef, SymbolTable, Variable,
};
use crate::text::push_str;

verus! {

/// Where a function leaves the value it returns.
pub open spec fn return_location() -> Location {
    Location::Global(0x0001)
}

fn return_location_lo() -> (r: Location)
    ensures
        r == return_location(),
{
    Location::Global(0x0001)
}

/// The place of the low byte of a two-byte value.
pub open spec fn low_byte_of(l: Location) -> Location {
    match l {
        Location::UnresolvedGlobal(symbol) => Location::UnresolvedGlobalLowByte(symbol),
        _ => l,
    }
}

/// Whether `part` is the high (or low) byte of `v`: for a value in memory,
/// the same type at the place of that byte; for an immediate, that byte.
pub open spec fn byte_part(v: Value, part: Value, high: bool) -> bool {
    match v {
        Value::Memory(m) => part matches Value::Memory(n) && n.base_type == m.base_type
            && n.location == if high {
            high_byte_of(m.location)
        } else {
            low_byte_of(m.location)
        },
        _ => part == if high {
            high_byte_value(v)
        } else {
            low_byte_value(v)
        },
    }
}

/// Whether `added` are the statements that copy a value of type `t` into
/// `destination`: one copy for an 8-bit type; for a 16-bit type the high
/// byte, then the low byte.
pub open spec fn copies(tag: SrcTag, t: BaseType, value: Value, destination: Location, added: Seq<Statement>) -> bool {
    match t {
        BaseType::Bool | BaseType::U8 => added == seq![
            Statement::Copy(CopyData { tag, destination, value }),
        ],
        BaseType::U16 | BaseType::Pointer(_) => {
            &&& added.len() == 2
            &&& added[0] matches Statement::Copy(c) && c.tag == tag && c.destination == high_byte_of(
                destination,
            ) && byte_part(value, c.value, true)
            &&& added[1] matches Statement::Copy(c) && c.tag == tag && c.destination == low_byte_of(
                destination,
            ) && byte_part(value, c.value, false)
        },
        BaseType::Void => false,
    }
}

/// Whether a copy of a value of type `t` into `destination` can be made:
/// the type has a size, and a 16-bit value and its destination split into
/// bytes.
pub open spec fn copyable(t: BaseType, value: Value, destination: Location) -> bool {
    match t {
        BaseType::Bool | BaseType::U8 => true,
        BaseType::U16 | BaseType::Pointer(_) => splittable(value) && has_high_byte(destination),
        BaseType::Void => false,
    }
}

/// Whether only the current run of the builder changed, by the statements
/// `added` appended to it.
pub open spec fn appended(before: RunBuilder, after: RunBuilder, added: Seq<Statement>) -> bool {
    &&& after.wf()
    &&& after.blocks().len() == before.blocks().len()
    &&& after.current() == before.current()
    &&& forall|i: int|
        0 <= i < before.blocks().len() && i != before.current() ==> after.blocks()[i]
            == before.blocks()[i]
    &&& after.blocks()[before.current()].name == before.blocks()[before.current()].name
    &&& after.blocks()[before.current()].symbol == before.blocks()[before.current()].symbol
    &&& after.blocks()[before.current()].statements@ == before.blocks()[before.current()].statements@
        + added
}

/// Appending statements to the current run grows the builder.
proof fn lemma_appended_grows(before: RunBuilder, after: RunBuilder, added: Seq<Statement>)
    requires
        before.wf(),
        appended(before, after, added),
    ensures
        grows(before, after),
{
    assert forall|i: int| 0 <= i < before.blocks().len() implies crate::llir::binop::kept_run(
        #[trigger] before.blocks()[i],
        after.blocks()[i],
    ) by {
        let s = before.blocks()[i].statements@;
        if i == before.current() {
            assert(s =~= (s + added).subrange(0, s.len() as int));
        } else {
            assert(s =~= s.subrange(0, s.len() as int));
        }
    }
}

/// Appending in two steps is appending both.
proof fn lemma_appended_trans(
    b0: RunBuilder,
    b1: RunBuilder,
    b2: RunBuilder,
    first: Seq<Statement>,
    second: Seq<Statement>,
)
    requires
        appended(b0, b1, first),
        appended(b1, b2, second),
    ensures
        appended(b0, b2, first + second),
{
    let c = b0.current();
    assert(b2.blocks()[c].statements@ =~= b0.blocks()[c].statements@ + (first + second));
}

/// Adding a statement to the current run appends it.
proof fn lemma_added_to_current(b0: RunBuilder, b1: RunBuilder, statement: Statement)
    requires
        b1.wf(),
        b0.current() < b0.blocks().len(),
        b1.blocks().len() == b0.blocks().len(),
        b1.current() == b0.current(),
        forall|i: int| 0 <= i < b0.blocks().len() && i != b0.current() ==> b1.blocks()[i] == b0.blocks()[i],
        b1.blocks()[b0.current()].name == b0.blocks()[b0.current()].name,
        b1.blocks()[b0.current()].symbol == b0.blocks()[b0.current()].symbol,
        b1.blocks()[b0.current()].statements@ == b0.blocks()[b0.current()].statements@.push(statement),
    ensures
        appended(b0, b1, seq![statement]),
{
    assert(b0.blocks()[b0.current()].statements@.push(statement) =~= b0.blocks()[b0.current()].statements@
        + seq![statement]);
}

/// Appends to the current run the copy of a value of type `value_type`
/// into `destination`, as `copies` says; fails, changing nothing, when the
/// copy cannot be made.
pub fn generate_copy(
    run_builder: &mut RunBuilder,
    tag: SrcTag,
    value_type: &BaseType,
    value: Value,
    destination: Location,
) -> (r: Result<(), Error>)
    requires
        old(run_builder).wf(),
    ensures
        r matches Err(x) ==> unsupported_at(x, tag),
        r is Ok <==> copyable(*value_type, value, destination),
        r is Ok ==> exists|added: Seq<Statement>|
            appended(*old(run_builder), *final(run_builder), added) && copies(
                tag,
                *value_type,
                value,
                destination,
                added,
            ),
        r is Err ==> *final(run_builder) == *old(run_builder),
{
    let current = run_builder.current_block().block_ref;
    match value_type {
        BaseType::Bool | BaseType::U8 => {
            run_builder.add_statement(current, Statement::Copy(CopyData::new(tag, destination, value)));
            proof {
                let added = seq![Statement::Copy(CopyData { tag, destination, value })];
                assert(run_builder.blocks()[current as int].statements@ =~= old(run_builder).blocks()[current as int].statements@ + added);
                assert(appended(*old(run_builder), *run_builder, added));
            }
        },
        BaseType::U16 | BaseType::Pointer(_) => {
            if !destination.has_high_byte() || !value.is_splittable() {
                return Err(unsupported(tag, "Can't split this copy into bytes"));
            }
            let first = Statement::Copy(CopyData::new(tag, destination.high_byte(), Value::high_byte(&value)));
            let second = Statement::Copy(CopyData::new(tag, destination.low_byte(), Value::low_byte(&value)));
            let ghost added = seq![first, second];
            run_builder.add_statement(current, first);
            run_builder.add_statement(current, second);
            proof {
                assert(run_builder.blocks()[current as int].statements@ =~= old(run_builder).blocks()[current as int].statements@ + added);
                assert(copies(tag, *value_type, value, destination, added));
                assert(appended(*old(run_builder), *run_builder, added));
            }
        },
        BaseType::Void => {
            return Err(unsupported(tag, "Can't copy a void value"));
        },
    }
    Ok(())
}

/// The value of a call's argument as seen from within the called function's
/// frame: a place in the caller's frame is named relative to the call.
pub open spec fn offset_value(calling_frame: SymbolRef, value: Value) -> Value {
    match value {
        Value::Memory(data) => Value::Memory(
            MemoryData {
                base_type: data.base_type,
                location: match data.location {
                    Location::FrameOffset(frame, offset) => Location::FrameOffsetBeforeCall(
                        frame,
                        calling_frame,
                        offset,
                    ),
                    _ => data.location,
                },
                debug: None,
            },
        ),
        _ => value,
    }
}

pub fn offset_call(calling_frame: SymbolRef, value: Value) -> (r: Value)
    ensures
        r == offset_value(calling_frame, value),
{
    match value {
        Value::Memory(data) => {
            let location = match data.location {
                Location::FrameOffset(frame, offset) => Location::FrameOffsetBeforeCall(
                    frame,
                    calling_frame,
                    offset,
                ),
                other => other,
            };
            Value::Memory(MemoryData::new(data.base_type, location, None))
        },
        _ => value,
    }
}

/// The size of a frame that holds the variables: their sizes summed, as an
/// 8-bit signed offset that wraps around.
pub open spec fn frame_size_of(variables: Seq<Variable>) -> i8
    decreases variables.len(),
{
    if variables.len() == 0 {
        0
    } else {
        frame_size_of(variables.drop_last()).wrapping_add(
            type_size(variables.last().base_type)->0 as i8,
        )
    }
}

/// A frame that holds one variable takes exactly that variable's size: two
/// bytes for a 16-bit one, one for a byte.
pub proof fn lemma_frame_of_one_variable(v: Variable)
    requires
        type_size(v.base_type) is Some,
    ensures
        frame_size_of(seq![v]) as int == type_size(v.base_type)->0,
{
    assert(seq![v].drop_last() =~= Seq::<Variable>::empty());
    assert(frame_size_of(Seq::<Variable>::empty()) == 0);
    assert(seq![v].last() == v);
    let size = type_size(v.base_type)->0;
    assert(size == 1 || size == 2);
    assert((0i8).wrapping_add(size as i8) as int == size);
}

/// Adding byte offsets as the frame does: summed, wrapping around as 8-bit
/// signed numbers do.
proof fn lemma_wrapping_add_associative(x: i8, y: i8, z: i8)
    ensures
        x.wrapping_add(y).wrapping_add(z) == x.wrapping_add(y.wrapping_add(z)),
{
    let xy = x.wrapping_add(y);
    let yz = y.wrapping_add(z);
    assert(xy as int == x + y || xy as int == x + y - 256 || xy as int == x + y + 256);
    assert(yz as int == y + z || yz as int == y + z - 256 || yz as int == y + z + 256);
    let l = xy.wrapping_add(z);
    let r = x.wrapping_add(yz);
    assert(l as int == xy + z || l as int == xy + z - 256 || l as int == xy + z + 256);
    assert(r as int == x + yz || r as int == x + yz - 256 || r as int == x + yz + 256);
    assert(-128 <= l <= 127 && -128 <= r <= 127);
    let t = x + y + z;
    assert(l == t || l == t - 256 || l == t + 256 || l == t - 512 || l == t + 512);
    assert(r == t || r == t - 256 || r == t + 256 || r == t - 512 || r == t + 512);
    assert(l == r);
}

/// The frame of variables laid out one group after another takes the
/// frames of the groups added together (wrapping as an 8-bit offset does):
/// each variable counts its own size, whatever comes before or after it.
pub proof fn lemma_frame_of_groups(a: Seq<Variable>, b: Seq<Variable>)
    ensures
        frame_size_of(a + b) == frame_size_of(a).wrapping_add(frame_size_of(b)),
    decreases b.len(),
{
    if b.len() == 0 {
        assert(a + b =~= a);
    } else {
        assert((a + b).drop_last() =~= a + b.drop_last());
        assert((a + b).last() == b.last());
        lemma_frame_of_groups(a, b.drop_last());
        lemma_wrapping_add_associative(
            frame_size_of(a),
            frame_size_of(b.drop_last()),
            type_size(b.last().base_type)->0 as i8,
        );
    }
}

/// The size of the frame that the variables of the innermost scope take.
pub fn calculate_frame_size<T: SymbolTable>(symbol_table: &T) -> (r: i8)
    requires
        forall|i: int|
            0 <= i < scope_variables(symbol_table.scopes()[0]).len() ==> type_size(
                (#[trigger] scope_variables(symbol_table.scopes()[0])[i]).base_type,
            ) is Some,
    ensures
        r == frame_size_of(scope_variables(symbol_table.scopes()[0])),
{
    let variables = symbol_table.variables();
    let mut size: i8 = 0;
    let mut i: usize = 0;
    while i < variables.len()
        invariant
            variables@ == scope_variables(symbol_table.scopes()[0]),
            forall|k: int| 0 <= k < variables@.len() ==> type_size((#[trigger] variables@[k]).base_type) is Some,
            i <= variables@.len(),
            size == frame_size_of(variables@.take(i as int)),
        decreases variables@.len() - i,
    {
        proof {
            assert(variables@.take(i + 1).drop_last() =~= variables@.take(i as int));
        }
        let s = variables[i].base_type.size().unwrap();
        size = size.wrapping_add(s as i8);
        i += 1;
    }
    proof {
        assert(variables@.take(i as int) =~= variables@);
    }
    size
}

/// The type of the value that an expression's low-level form yields: a
/// number's or constant's type; a variable's type, or `u16` for the
/// address of an array; `u8` for an operation; a call's return type; the
/// element type of an indexed array.
pub open spec fn expr_value_type(e: ir::Expr, scopes: Seq<Seq<symbol_table::SymbolEntry>>) -> BaseType {
    match e {
        ir::Expr::Number(d) => d.value_type->0,
        ir::Expr::Symbol(d) => match symbol_table::variable_with_ref(scopes, d.symbol) {
            Some(v) => if v.base_type is Pointer {
                BaseType::U16
            } else {
                v.base_type
            },
            None => d.value_type->0,
        },
        ir::Expr::BinaryOp(_) => BaseType::U8,
        ir::Expr::Call(d) => d.return_type->0,
        ir::Expr::ArrayIndex(d) => match d.array_type {
            Some(BaseType::Pointer(inner)) => *inner,
            _ => BaseType::Void,
        },
    }
}

/// The value that a symbol stands for, as the generator reads it: a
/// variable from its place (a pointer held at a fixed address is that
/// address), a constant as an immediate value; `None` when the symbol has
/// no value that can be used.
pub open spec fn symbol_value(
    scopes: Seq<Seq<symbol_table::SymbolEntry>>,
    frame_ref: SymbolRef,
    d: ir::SymbolData,
) -> Option<Value> {
    match symbol_table::variable_with_ref(scopes, d.symbol) {
        Some(v) => match symbol_table::visible_with_ref(scopes, d.symbol) {
            None => None,
            Some(e) => if v.location is UndeterminedGlobal {
                None
            } else if v.base_type is Pointer {
                match v.location {
                    symbol_table::Location::Global(addr) => Some(
                        Value::Immediate(BaseType::U16, ImmediateValue::Number(addr as i32)),
                    ),
                    _ => Some(
                        Value::Memory(
                            MemoryData {
                                base_type: BaseType::U16,
                                location: converted_location(frame_ref, v.location),
                                debug: Some(e.name),
                            },
                        ),
                    ),
                }
            } else {
                Some(
                    Value::Memory(
                        MemoryData {
                            base_type: v.base_type,
                            location: converted_location(frame_ref, v.location),
                            debug: Some(e.name),
                        },
                    ),
                )
            },
        },
        None => match symbol_table::constant_with_ref(scopes, d.symbol) {
            Some(c) => match d.value_type {
                None => None,
                Some(t) => if c.base_type is Pointer {
                    Some(Value::Immediate(t, ImmediateValue::Symbol(d.symbol)))
                } else {
                    match c.value {
                        symbol_table::ConstantValue::Number(n) => Some(
                            Value::Immediate(t, ImmediateValue::Number(n)),
                        ),
                        symbol_table::ConstantValue::Bytes(_) => None,
                    }
                },
            },
            None => None,
        },
    }
}

/// Whether `t1` is the table `t0` once a temporary of type `t` is made at
/// the next free offset of the frame, under the next handle.
pub open spec fn temporary_made(t0: TableState, t1: TableState, t: BaseType) -> bool {
    &&& t1.2 == symbol_table::following(t0.2)
    &&& t1.1 == t0.1.wrapping_add(type_size(t)->0 as i8)
    &&& exists|name: SymbolName|
        name@ == symbol_table::temporary_label(t0.1) && #[trigger] t1.0 == t0.0.update(
            0,
            symbol_table::inserted(
                t0.0[0],
                name,
                t0.2 as SymbolRef,
                symbol_table::Symbol::Variable(
                    Variable { base_type: t, location: symbol_table::Location::FrameOffset(t0.1) },
                ),
            ),
        )
}

/// The steps of an operation `d` that are not its operands': `t0` becomes
/// `ta` as the temporary for the result is made; the left operand yields
/// `lv`, leaving the runs `bl` and the table `tl` to the right one, which
/// yields `rv` and leaves `br` and `tr`; from there the operation is
/// generated into the temporary, as `binop_generated` says, reaching `b1`
/// and `t1`.
pub open spec fn binary_step(
    d: ir::BinaryOpData,
    frame_ref: SymbolRef,
    t0: TableState,
    ta: TableState,
    lv: Value,
    bl: RunBuilder,
    tl: TableState,
    br: RunBuilder,
    tr: TableState,
    rv: Value,
    b1: RunBuilder,
    t1: TableState,
) -> bool {
    &&& d.result_type is Some
    &&& type_size(d.result_type->0) is Some
    &&& temporary_made(t0, ta, d.result_type->0)
    &&& binop_generated(
        BinopGenerator {
            frame_ref,
            src_tag: d.tag,
            dest_type: d.result_type->0,
            dest: Location::FrameOffset(frame_ref, t0.1),
            left_value: lv,
            right_value: rv,
        },
        d.op,
        br,
        tr,
        b1,
        t1,
    )
}

/// The offset in a called function's frame of the parameter after the
/// first `k`: the sizes of those before it, added up (wrapping).
pub open spec fn argument_offset(params: Seq<NameType>, k: int) -> i8
    decreases k,
{
    if k <= 0 {
        0
    } else {
        argument_offset(params, k - 1).wrapping_add(type_size(params[k - 1].base_type)->0 as i8)
    }
}

/// The statements of the segments, one segment after another.
pub open spec fn joined(segments: Seq<Seq<Statement>>) -> Seq<Statement>
    decreases segments.len(),
{
    if segments.len() == 0 {
        Seq::empty()
    } else {
        joined(segments.drop_last()) + segments.last()
    }
}

/// What a call appends to the current run once its arguments are
/// computed: the data stack pointer moves up by the called function's
/// frame, the copies of the arguments into their parameters follow, then
/// the call and the move back down, then the copy of the returned value.
pub open spec fn call_statements(
    tag: SrcTag,
    function_ref: SymbolRef,
    arguments: Seq<Seq<Statement>>,
    returned: Seq<Statement>,
) -> Seq<Statement> {
    seq![
        Statement::AddToDataStackPointer(
            AddToDataStackPointerData { tag, offset: SPOffset::FrameSize(function_ref) },
        ),
    ] + joined(arguments) + seq![
        Statement::JumpRoutine(JumpRoutineData { tag, destination: Location::UnresolvedGlobal(function_ref) }),
        Statement::AddToDataStackPointer(
            AddToDataStackPointerData { tag, offset: SPOffset::NegativeFrameSize(function_ref) },
        ),
    ] + returned
}

/// The steps of a call `d` that are not its arguments': from the runs
/// `bs[0]` and table `ts[0]`, its arguments leave the runs and the table at
/// `bs[i]` and `ts[i]` after the `i`th, yielding `vs`; the called
/// function is looked up in `ts[0]`; then the statements of
/// `call_statements` are appended to the current run, each argument copied,
/// with the frame of the call, into the place of its parameter, and a
/// returned value with a size copied into a new one-byte temporary, which
/// the call yields (a call that returns nothing yields the place of the
/// returned value).
pub open spec fn call_step(
    d: ir::CallData,
    frame_ref: SymbolRef,
    bs: Seq<RunBuilder>,
    ts: Seq<TableState>,
    vs: Seq<Value>,
    b1: RunBuilder,
    t1: TableState,
    v: Value,
) -> bool {
    let n = d.arguments@.len();
    &&& bs.len() == n + 1
    &&& ts.len() == n + 1
    &&& vs.len() == n
    &&& symbol_table::visible_named(ts[0].0, d.function@) matches Some(e)
    &&& symbol_table::function_named(ts[0].0, d.function@) matches Some(f)
    &&& f.parameters@.len() == n
    &&& forall|k: int| 0 <= k < n ==> type_size((#[trigger] f.parameters@[k]).base_type) is Some
    &&& d.return_type matches Some(rt)
    &&& exists|arguments: Seq<Seq<Statement>>, returned: Seq<Statement>|
        #[trigger] appended(bs[n as int], b1, call_statements(d.tag, e.symbol_ref, arguments, returned))
            && arguments.len() == n && (forall|k: int|
            0 <= k < n ==> copies(
                d.tag,
                value_type_of(vs[k]),
                offset_value(e.symbol_ref, vs[k]),
                Location::FrameOffset(e.symbol_ref, argument_offset(f.parameters@, k)),
                #[trigger] arguments[k],
            )) && if type_size(rt) is Some {
            &&& temporary_made(ts[n as int], t1, BaseType::U8)
            &&& copies(
                d.tag,
                rt,
                Value::Memory(MemoryData { base_type: rt, location: return_location(), debug: None }),
                Location::FrameOffset(frame_ref, ts[n as int].1),
                returned,
            )
            &&& v == Value::Memory(
                MemoryData { base_type: rt, location: Location::FrameOffset(frame_ref, ts[n as int].1), debug: None },
            )
        } else {
            &&& t1 == ts[n as int]
            &&& returned.len() == 0
            &&& v == Value::Memory(MemoryData { base_type: rt, location: return_location(), debug: None })
        }
}

/// Whether computing the call `d` takes the runs from `b0` to `b1` and the
/// table from `t0` to `t1`, and yields `v`: its arguments are computed in
/// order, each as `lowered` says, then the rest as `call_step` says.
pub open spec fn call_lowered(
    d: ir::CallData,
    frame_ref: SymbolRef,
    b0: RunBuilder,
    t0: TableState,
    b1: RunBuilder,
    t1: TableState,
    v: Value,
) -> bool
    decreases d,
{
    exists|bs: Seq<RunBuilder>, ts: Seq<TableState>, vs: Seq<Value>|
        #[trigger] call_step(d, frame_ref, bs, ts, vs, b1, t1, v) && bs[0] == b0 && ts[0] == t0 && forall|k: int|
            0 <= k < d.arguments@.len() ==> lowered(
                #[trigger] d.arguments@[k],
                frame_ref,
                bs[k],
                ts[k],
                bs[k + 1],
                ts[k + 1],
                vs[k],
            )
}

/// Whether a name for reading the generated code is there and reads `text`.
pub open spec fn named_as(debug: Option<String>, text: Seq<char>) -> bool {
    debug matches Some(name) && name@ == text
}

/// The frame part of indexing an array held in the frame: from the runs
/// `bi` and table `ti` that the index left, a two-byte temporary is made
/// (giving `ta`), the array's address is copied into it (the statements
/// `added`, copying `copied`), the index is added to it as `binop_generated`
/// says (its left operand `left` being the temporary), reaching `b1` and
/// `t1`.
pub open spec fn frame_index_step(
    d: ir::ArrayIndexData,
    frame_ref: SymbolRef,
    array: Variable,
    name: Seq<char>,
    bi: RunBuilder,
    ti: TableState,
    iv: Value,
    ta: TableState,
    bc: RunBuilder,
    added: Seq<Statement>,
    copied: Value,
    left: Value,
    b1: RunBuilder,
    t1: TableState,
) -> bool {
    let at = d.array_type->0;
    let addr = Location::FrameOffset(frame_ref, ti.1);
    &&& temporary_made(ti, ta, at)
    &&& copied matches Value::Memory(m) && m.base_type == at && m.location == converted_location(
        frame_ref,
        array.location,
    ) && named_as(m.debug, name + "[]"@)
    &&& appended(bi, bc, added)
    &&& copies(d.tag, at, copied, addr, added)
    &&& left matches Value::Memory(m) && m.base_type == BaseType::U16 && m.location == addr && named_as(
        m.debug,
        "tmp_"@ + name + "[]"@,
    )
    &&& binop_generated(
        BinopGenerator {
            frame_ref,
            src_tag: d.tag,
            dest_type: BaseType::U16,
            dest: addr,
            left_value: left,
            right_value: iv,
        },
        BinaryOperator::Add,
        bc,
        ta,
        b1,
        t1,
    )
}

/// The steps of indexing the array `d` that are not its index's: the
/// array, a variable with a name and a place, is looked up in `t0`; the
/// index yields `iv`, leaving the runs `bi` and table `ti`. An array at a
/// fixed address is read at that address indexed by `iv`, with nothing
/// more; one in the frame has its address computed into a temporary, as
/// `frame_index_step` says, and is read through it.
pub open spec fn index_step(
    d: ir::ArrayIndexData,
    frame_ref: SymbolRef,
    t0: TableState,
    bi: RunBuilder,
    ti: TableState,
    iv: Value,
    b1: RunBuilder,
    t1: TableState,
    v: Value,
) -> bool {
    &&& symbol_table::variable_with_ref(t0.0, d.array) matches Some(array)
    &&& symbol_table::visible_with_ref(t0.0, d.array) matches Some(entry)
    &&& d.array_type matches Some(BaseType::Pointer(element))
    &&& match array.location {
        symbol_table::Location::UndeterminedGlobal => false,
        symbol_table::Location::Global(addr) => {
            &&& b1 == bi
            &&& t1 == ti
            &&& v matches Value::Memory(m) && m.base_type == *element && m.location == Location::GlobalIndexed(
                addr,
                Box::new(iv),
            ) && named_as(m.debug, entry.name@ + "[]"@)
        },
        symbol_table::Location::FrameOffset(_) => {
            &&& v matches Value::Memory(m) && m.base_type == *element && m.location
                == Location::FrameOffsetIndirect(frame_ref, ti.1) && named_as(m.debug, "indexed:"@ + entry.name@)
            &&& exists|ta: TableState, bc: RunBuilder, added: Seq<Statement>, copied: Value, left: Value|
                #[trigger] frame_index_step(d, frame_ref, array, entry.name@, bi, ti, iv, ta, bc, added, copied, left, b1, t1)
        },
    }
}

/// Whether computing `e` takes the runs from `b0` to `b1` and the table
/// from `t0` to `t1`, and yields `v`. A number or a symbol changes nothing
/// and yields its value. An operation makes a temporary for its result,
/// computes its left operand, then its right one, and generates itself
/// into the temporary, as `binop_generated` says; it yields the temporary.
/// A call and an indexed array compute as `call_lowered` and `index_step`
/// say.
pub open spec fn lowered(
    e: ir::Expr,
    frame_ref: SymbolRef,
    b0: RunBuilder,
    t0: TableState,
    b1: RunBuilder,
    t1: TableState,
    v: Value,
) -> bool
    decreases e,
{
    match e {
        ir::Expr::Number(d) => match d.value_type {
            Some(t) => v == Value::Immediate(t, ImmediateValue::Number(d.value)) && b1 == b0 && t1 == t0,
            None => false,
        },
        ir::Expr::Symbol(d) => symbol_value(t0.0, frame_ref, d) == Some(v) && b1 == b0 && t1 == t0,
        ir::Expr::BinaryOp(d) => {
            &&& v == Value::Memory(
                MemoryData { base_type: BaseType::U8, location: Location::FrameOffset(frame_ref, t0.1), debug: None },
            )
            &&& exists|ta: TableState, bl: RunBuilder, tl: TableState, lv: Value, br: RunBuilder, tr: TableState, rv: Value|
                #[trigger] binary_step(d, frame_ref, t0, ta, lv, bl, tl, br, tr, rv, b1, t1) && lowered(
                    *d.left,
                    frame_ref,
                    b0,
                    ta,
                    bl,
                    tl,
                    lv,
                ) && lowered(*d.right, frame_ref, bl, tl, br, tr, rv)
        },
        ir::Expr::Call(d) => call_lowered(d, frame_ref, b0, t0, b1, t1, v),
        ir::Expr::ArrayIndex(d) => exists|bi: RunBuilder, ti: TableState, iv: Value|
            #[trigger] index_step(d, frame_ref, t0, bi, ti, iv, b1, t1, v) && lowered(*d.index, frame_ref, b0, t0, bi, ti, iv),
    }
}

/// Whether the first `k` arguments of the call `d`, computed in order from
/// the runs `b0` and table `t0`, leave the runs and the table at `bs[i]`
/// and `ts[i]` after the `i`th, yielding `vs`, each as `lowered` says.
pub open spec fn arguments_lowered(
    d: ir::CallData,
    frame_ref: SymbolRef,
    b0: RunBuilder,
    t0: TableState,
    bs: Seq<RunBuilder>,
    ts: Seq<TableState>,
    vs: Seq<Value>,
    k: int,
) -> bool {
    &&& 0 <= k <= d.arguments@.len()
    &&& bs.len() == k + 1
    &&& ts.len() == k + 1
    &&& vs.len() == k
    &&& bs[0] == b0
    &&& ts[0] == t0
    &&& forall|j: int|
        0 <= j < k ==> lowered(#[trigger] d.arguments@[j], frame_ref, bs[j], ts[j], bs[j + 1], ts[j + 1], vs[j])
}

/// Whether a call whose arguments were computed, yielding `vs` and leaving
/// the table at `tn`, fails afterwards: an argument that cannot be copied
/// into its parameter's place, as `copyable` says, or a parameter without a
/// size; a return type that was not inferred; a returned value with a size
/// that cannot be copied into a new one-byte temporary.
pub open spec fn call_rest_fails(d: ir::CallData, frame_ref: SymbolRef, t0: TableState, tn: TableState, vs: Seq<Value>) -> bool {
    let e = symbol_table::visible_named(t0.0, d.function@)->0;
    let f = symbol_table::function_named(t0.0, d.function@)->0;
    ||| exists|k: int|
        0 <= k < vs.len() && (!copyable(
            value_type_of(vs[k]),
            offset_value(e.symbol_ref, #[trigger] vs[k]),
            Location::FrameOffset(e.symbol_ref, argument_offset(f.parameters@, k)),
        ) || type_size(f.parameters@[k].base_type) is None)
    ||| d.return_type is None
    ||| d.return_type matches Some(rt) && type_size(rt) is Some && !copyable(
        rt,
        Value::Memory(MemoryData { base_type: rt, location: return_location(), debug: None }),
        Location::FrameOffset(frame_ref, tn.1),
    )
}

/// Whether computing the call `d` from the runs `b0` and table `t0` fails
/// with `x`: the function is not visible (a symbol not found), or is no
/// function, or takes another number of arguments (that error, with both
/// numbers); or, it taking as many as given, an argument fails with `x`
/// once those before it were computed, or the rest fails once all were
/// computed, as `call_rest_fails` says. Errors of its own are reported at
/// the call's tag.
pub open spec fn call_fails(d: ir::CallData, frame_ref: SymbolRef, b0: RunBuilder, t0: TableState, x: Error) -> bool
    decreases d,
{
    let n = d.arguments@.len() as int;
    let known = symbol_table::visible_named(t0.0, d.function@) is Some;
    let fits = (symbol_table::function_named(t0.0, d.function@) matches Some(f) && f.parameters@.len() == n);
    ||| !known && x == Error(ErrorKind::SymbolNotFound(d.tag, d.function))
    ||| known && symbol_table::function_named(t0.0, d.function@) is None && unsupported_at(x, d.tag)
    ||| known && (symbol_table::function_named(t0.0, d.function@) matches Some(f) && f.parameters@.len() != n && x
        == Error(
        ErrorKind::ExpectedNArgumentsGotM(d.tag, d.function, f.parameters@.len() as usize, n as usize),
    ))
    ||| known && fits && exists|bs: Seq<RunBuilder>, ts: Seq<TableState>, vs: Seq<Value>, k: int|
        #[trigger] arguments_lowered(d, frame_ref, b0, t0, bs, ts, vs, k) && k < n && expr_fails(
            d.arguments@[k],
            frame_ref,
            bs[k],
            ts[k],
            x,
        )
    ||| known && fits && exists|bs: Seq<RunBuilder>, ts: Seq<TableState>, vs: Seq<Value>|
        #[trigger] arguments_lowered(d, frame_ref, b0, t0, bs, ts, vs, n) && call_rest_fails(d, frame_ref, t0, ts[n], vs)
            && unsupported_at(x, d.tag)
}

/// Whether `copied` is the value that holds the address of the array
/// `array`, named `name`, of type `at`, in the frame.
pub open spec fn array_copied(copied: Value, at: BaseType, frame_ref: SymbolRef, array: Variable, name: Seq<char>) -> bool {
    copied matches Value::Memory(m) && m.base_type == at && m.location == converted_location(frame_ref, array.location)
        && named_as(m.debug, name + "[]"@)
}

/// Whether `left` is the temporary at `addr` that holds the address of the
/// array named `name`.
pub open spec fn address_held(left: Value, addr: Location, name: Seq<char>) -> bool {
    left matches Value::Memory(m) && m.base_type == BaseType::U16 && m.location == addr && named_as(
        m.debug,
        "tmp_"@ + name + "[]"@,
    )
}

/// Whether indexing the array `d` (the variable `array`, named `name`) in
/// the frame fails once its index was computed, yielding `iv` and leaving
/// the runs `bi` and table `ti`: an array without a place yet; or, for one
/// in the frame, a temporary for its address is made (giving `ta`) and
/// either the array's address cannot be copied into it, or the index
/// cannot be added to it, as `binop_fails` says.
pub open spec fn index_fails_after(
    d: ir::ArrayIndexData,
    frame_ref: SymbolRef,
    array: Variable,
    name: Seq<char>,
    bi: RunBuilder,
    ti: TableState,
    iv: Value,
) -> bool {
    let at = d.array_type->0;
    let addr = Location::FrameOffset(frame_ref, ti.1);
    match array.location {
        symbol_table::Location::UndeterminedGlobal => true,
        symbol_table::Location::Global(_) => false,
        symbol_table::Location::FrameOffset(_) => exists|ta: TableState, copied: Value|
            #![trigger temporary_made(ti, ta, at), array_copied(copied, at, frame_ref, array, name)]
            temporary_made(ti, ta, at) && array_copied(copied, at, frame_ref, array, name) && (!copyable(
                at,
                copied,
                addr,
            ) || exists|bc: RunBuilder, added: Seq<Statement>, left: Value|
                #![trigger appended(bi, bc, added), address_held(left, addr, name)]
                appended(bi, bc, added) && copies(d.tag, at, copied, addr, added) && address_held(
                    left,
                    addr,
                    name,
                ) && binop_fails(
                    BinopGenerator {
                        frame_ref,
                        src_tag: d.tag,
                        dest_type: BaseType::U16,
                        dest: addr,
                        left_value: left,
                        right_value: iv,
                    },
                    BinaryOperator::Add,
                    bc,
                    ta,
                )),
    }
}

/// Whether computing `e` from the runs `b0` and table `t0` fails with `x`:
/// a number without a type; a symbol without a value, as `symbol_value`
/// says; an operation without a type with a size, or whose left operand
/// fails once its temporary is made, or whose right operand fails once the
/// left one is computed, or that cannot be generated once both are, as
/// `binop_fails` says; a call that fails as `call_fails` says; an indexed
/// array that is no variable with a name and a pointer type, whose index
/// fails, or that fails once its index is computed, as `index_fails_after`
/// says. A failing operand passes its error on; the others are reported at
/// the tag of the expression that fails.
pub open spec fn expr_fails(e: ir::Expr, frame_ref: SymbolRef, b0: RunBuilder, t0: TableState, x: Error) -> bool
    decreases e,
{
    match e {
        ir::Expr::Number(d) => d.value_type is None && unsupported_at(x, d.tag),
        ir::Expr::Symbol(d) => symbol_value(t0.0, frame_ref, d) is None && unsupported_at(x, d.tag),
        ir::Expr::BinaryOp(d) => match d.result_type {
            None => unsupported_at(x, d.tag),
            Some(rt) => type_size(rt) is None && unsupported_at(x, d.tag) || type_size(rt) is Some && exists|ta: TableState|
                #[trigger] temporary_made(t0, ta, rt) && (expr_fails(*d.left, frame_ref, b0, ta, x) || exists|
                    bl: RunBuilder,
                    tl: TableState,
                    lv: Value,
                |
                    #[trigger] lowered(*d.left, frame_ref, b0, ta, bl, tl, lv) && (expr_fails(
                        *d.right,
                        frame_ref,
                        bl,
                        tl,
                        x,
                    ) || exists|br: RunBuilder, tr: TableState, rv: Value|
                        #[trigger] lowered(*d.right, frame_ref, bl, tl, br, tr, rv) && binop_fails(
                            BinopGenerator {
                                frame_ref,
                                src_tag: d.tag,
                                dest_type: rt,
                                dest: Location::FrameOffset(frame_ref, t0.1),
                                left_value: lv,
                                right_value: rv,
                            },
                            d.op,
                            br,
                            tr,
                        ) && unsupported_at(x, d.tag))),
        },
        ir::Expr::Call(d) => call_fails(d, frame_ref, b0, t0, x),
        ir::Expr::ArrayIndex(d) => {
            let indexable = symbol_table::variable_with_ref(t0.0, d.array) is Some
                && symbol_table::visible_with_ref(t0.0, d.array) is Some && d.array_type matches Some(
                BaseType::Pointer(_),
            );
            ||| !indexable && unsupported_at(x, d.tag)
            ||| indexable && expr_fails(*d.index, frame_ref, b0, t0, x)
            ||| indexable && exists|bi: RunBuilder, ti: TableState, iv: Value|
                #[trigger] lowered(*d.index, frame_ref, b0, t0, bi, ti, iv) && index_fails_after(
                    d,
                    frame_ref,
                    symbol_table::variable_with_ref(t0.0, d.array)->0,
                    symbol_table::visible_with_ref(t0.0, d.array)->0.name@,
                    bi,
                    ti,
                    iv,
                ) && unsupported_at(x, d.tag)
        },
    }
}

/// Whether computing the place that `e` names, from the runs `b0` and the
/// table `t0`, fails with `x`: computing `e` fails with it, or `e` yields an
/// immediate value, which names no place: an invalid left value at its tag.
pub open spec fn location_fails(e: ir::Expr, frame_ref: SymbolRef, b0: RunBuilder, t0: TableState, x: Error) -> bool {
    ||| expr_fails(e, frame_ref, b0, t0, x)
    ||| exists|b1: RunBuilder, t1: TableState, v: Value|
        #[trigger] lowered(e, frame_ref, b0, t0, b1, t1, v) && v is Immediate && x == Error(
            ErrorKind::InvalidLeftValue(ir::expr_tag(e)),
        )
}

/// A name with a suffix, for reading the generated code.
fn suffixed(prefix: &str, name: &String, suffix: &str) -> (r: String)
    ensures
        r@ == prefix@ + name@ + suffix@,
{
    let mut s = String::new();
    push_str(&mut s, prefix);
    push_str(&mut s, name.as_str());
    push_str(&mut s, suffix);
    s
}

/// Generates the code that computes an expression and returns where its
/// value is: numbers and constants are immediate; variables are in memory;
/// an operation is computed into a new temporary; an element of an array
/// in a frame is reached through a temporary pointer. Fails on what the
/// low-level representation cannot express.
pub fn resolve_expr_to_value<T: SymbolTable>(
    run_builder: &mut RunBuilder,
    symbol_table: &mut T,
    frame_ref: SymbolRef,
    expr: &ir::Expr,
) -> (r: Result<Value, Error>)
    requires
        old(run_builder).wf(),
    ensures
        final(symbol_table).outer_frames() == old(symbol_table).outer_frames(),
        grows(*old(run_builder), *final(run_builder)),
        r matches Ok(v) ==> crate::llir::binop::value_type_of(v) == expr_value_type(
            *expr,
            old(symbol_table).scopes(),
        ),
        (r is Ok && *expr is Number) ==> r->Ok_0 == Value::Immediate(
            expr->Number_0.value_type->0,
            ImmediateValue::Number(expr->Number_0.value),
        ),
        *expr is Number ==> (r is Ok <==> expr->Number_0.value_type is Some),
        *expr is Symbol ==> match symbol_value(old(symbol_table).scopes(), frame_ref, expr->Symbol_0) {
            Some(v) => r == Ok::<Value, Error>(v),
            None => r is Err,
        },
        (*expr is Number || *expr is Symbol) ==> *final(run_builder) == *old(run_builder)
            && *final(symbol_table) == *old(symbol_table),
        (r is Ok && *expr is BinaryOp) ==> r->Ok_0 == Value::Memory(
            MemoryData {
                base_type: BaseType::U8,
                location: Location::FrameOffset(frame_ref, old(symbol_table).frame()),
                debug: None,
            },
        ),
        r matches Ok(v) ==> lowered(
            *expr,
            frame_ref,
            *old(run_builder),
            table_state(*old(symbol_table)),
            *final(run_builder),
            table_state(*final(symbol_table)),
            v,
        ),
        r matches Err(x) ==> expr_fails(*expr, frame_ref, *old(run_builder), table_state(*old(symbol_table)), x),
    decreases *expr,
{
    match expr {
        ir::Expr::ArrayIndex(data) => {
            let ghost t0 = table_state(*symbol_table);
            let array = match symbol_table.variable(data.array) {
                Some(v) => v.clone(),
                None => {
                    return Err(unsupported(data.tag, "Only a variable can be indexed"));
                },
            };
            let array_name = match symbol_table.get_symbol_name(data.array) {
                Some(n) => n,
                None => {
                    return Err(unsupported(data.tag, "Only a variable can be indexed"));
                },
            };
            let array_type = match &data.array_type {
                Some(t) => t.clone(),
                None => {
                    return Err(unsupported(data.tag, "Can't infer the type of the array"));
                },
            };
            let element_type = match array_type.underlying_type() {
                Some(t) => t.clone(),
                None => {
                    return Err(unsupported(data.tag, "Only a pointer can be indexed"));
                },
            };
            let index_value = match resolve_expr_to_value(run_builder, symbol_table, frame_ref, &data.index) {
                Ok(v) => v,
                Err(x) => {
                    proof {
                        assert(expr_fails(*data.index, frame_ref, *old(run_builder), t0, x));
                    }
                    return Err(x);
                },
            };
            let ghost bi = *run_builder;
            let ghost ti = table_state(*symbol_table);
            let ghost iv = index_value;
            proof {
                reveal_strlit("");
            }
            match array.location {
                symbol_table::Location::UndeterminedGlobal => {
                    proof {
                        assert(index_fails_after(*data, frame_ref, array, array_name@, bi, ti, iv));
                    }
                    Err(unsupported(data.tag, "The array has no place yet"))
                },
                symbol_table::Location::Global(addr) => {
                    let result = Value::Memory(
                        MemoryData::new(
                            element_type,
                            Location::GlobalIndexed(addr, Box::new(index_value)),
                            Some(suffixed("", &array_name, "[]")),
                        ),
                    );
                    proof {
                        assert(index_step(*data, frame_ref, t0, bi, ti, iv, *run_builder, table_state(*symbol_table), result));
                    }
                    Ok(result)
                },
                symbol_table::Location::FrameOffset(_) => {
                    let addr = convert_location(
                        frame_ref,
                        &symbol_table.create_temporary_location(&array_type),
                    );
                    let ghost ta = table_state(*symbol_table);
                    let (frame, offset) = match &addr {
                        Location::FrameOffset(f, o) => (*f, *o),
                        _ => {
                            return vstd::pervasive::unreached();
                        },
                    };
                    let copied = Value::Memory(
                        MemoryData::new(
                            array_type.clone(),
                            convert_location(frame_ref, &array.location),
                            Some(suffixed("", &array_name, "[]")),
                        ),
                    );
                    let ghost copied_value = copied;
                    let ghost b2 = *run_builder;
                    match generate_copy(run_builder, data.tag, &array_type, copied, addr.clone_location()) {
                        Ok(()) => {},
                        Err(x) => {
                            proof {
                                assert((""@ + array_name@ + "[]"@) =~= array_name@ + "[]"@);
                                assert(array_copied(copied_value, array_type, frame_ref, array, array_name@));
                                assert(temporary_made(ti, ta, array_type));
                                assert(index_fails_after(*data, frame_ref, array, array_name@, bi, ti, iv));
                            }
                            return Err(x);
                        },
                    }
                    let ghost bc = *run_builder;
                    let ghost added = choose|added: Seq<Statement>| appended(b2, bc, added) && copies(
                        data.tag,
                        array_type,
                        copied_value,
                        addr,
                        added,
                    );
                    let left = Value::Memory(
                        MemoryData::new(
                            BaseType::U16,
                            addr.clone_location(),
                            Some(suffixed("tmp_", &array_name, "[]")),
                        ),
                    );
                    let ghost left_value = left;
                    match BinopGenerator::new(
                        frame_ref,
                        data.tag,
                        BaseType::U16,
                        addr.clone_location(),
                        left,
                        index_value,
                    ).generate(run_builder, symbol_table, BinaryOperator::Add) {
                        Ok(()) => {},
                        Err(x) => {
                            proof {
                                assert((""@ + array_name@ + "[]"@) =~= array_name@ + "[]"@);
                                assert(array_copied(copied_value, array_type, frame_ref, array, array_name@));
                                assert(address_held(left_value, addr, array_name@));
                                assert(temporary_made(ti, ta, array_type));
                                assert(appended(bi, bc, added));
                                assert(index_fails_after(*data, frame_ref, array, array_name@, bi, ti, iv));
                            }
                            return Err(x);
                        },
                    }
                    let result = Value::Memory(
                        MemoryData::new(
                            element_type,
                            Location::FrameOffsetIndirect(frame, offset),
                            Some(suffixed("indexed:", &array_name, "")),
                        ),
                    );
                    proof {
                        assert(frame_index_step(
                            *data,
                            frame_ref,
                            array,
                            array_name@,
                            bi,
                            ti,
                            iv,
                            ta,
                            bc,
                            added,
                            copied_value,
                            left_value,
                            *run_builder,
                            table_state(*symbol_table),
                        ));
                        assert(index_step(*data, frame_ref, t0, bi, ti, iv, *run_builder, table_state(*symbol_table), result));
                    }
                    Ok(result)
                },
            }
        },
        ir::Expr::Number(data) => match &data.value_type {
            Some(t) => Ok(Value::Immediate(t.clone(), ImmediateValue::Number(data.value))),
            None => Err(unsupported(data.tag, "Can't infer type of number")),
        },
        ir::Expr::Symbol(data) => {
            if let Some(variable) = symbol_table.variable(data.symbol) {
                let variable = variable.clone();
                let name = match symbol_table.get_symbol_name(data.symbol) {
                    Some(n) => n,
                    None => {
                        return Err(unsupported(data.tag, "The variable has no name"));
                    },
                };
                if let symbol_table::Location::UndeterminedGlobal = variable.location {
                    return Err(unsupported(data.tag, "The variable has no place yet"));
                }
                match variable.base_type {
                    BaseType::Pointer(_) => match variable.location {
                        symbol_table::Location::Global(addr) => Ok(
                            Value::Immediate(BaseType::U16, ImmediateValue::Number(addr as i32)),
                        ),
                        _ => Ok(
                            Value::Memory(
                                MemoryData::new(
                                    BaseType::U16,
                                    convert_location(frame_ref, &variable.location),
                                    Some(name),
                                ),
                            ),
                        ),
                    },
                    _ => Ok(
                        Value::Memory(
                            MemoryData::new(
                                variable.base_type.clone(),
                                convert_location(frame_ref, &variable.location),
                                Some(name),
                            ),
                        ),
                    ),
                }
            } else if let Some(constant) = symbol_table.constant(data.symbol) {
                let value_type = match &data.value_type {
                    Some(t) => t.clone(),
                    None => {
                        return Err(unsupported(data.tag, "Can't infer type of constant"));
                    },
                };
                if constant.base_type.is_pointer() {
                    Ok(Value::Immediate(value_type, ImmediateValue::Symbol(data.symbol)))
                } else {
                    match &constant.value {
                        symbol_table::ConstantValue::Number(n) => Ok(
                            Value::Immediate(value_type, ImmediateValue::Number(*n)),
                        ),
                        symbol_table::ConstantValue::Bytes(_) => Err(
                            unsupported(data.tag, "Data can't be used as a number"),
                        ),
                    }
                }
            } else {
                Err(unsupported(data.tag, "Only constants and variables have values"))
            }
        },
        ir::Expr::BinaryOp(data) => {
            let dest_type = match &data.result_type {
                Some(t) => t.clone(),
                None => {
                    return Err(unsupported(data.tag, "Can't infer type of operation"));
                },
            };
            if dest_type.size().is_none() {
                return Err(unsupported(data.tag, "An operation can't yield void"));
            }
            let dest = convert_location(frame_ref, &symbol_table.create_temporary_location(&dest_type));
            let ghost ta = table_state(*symbol_table);
            let left_value = match resolve_expr_to_value(run_builder, symbol_table, frame_ref, &data.left) {
                Ok(v) => v,
                Err(x) => {
                    proof {
                        assert(temporary_made(table_state(*old(symbol_table)), ta, dest_type));
                    }
                    return Err(x);
                },
            };
            let ghost bl = *run_builder;
            let ghost tl = table_state(*symbol_table);
            let ghost lv = left_value;
            let right_value = match resolve_expr_to_value(run_builder, symbol_table, frame_ref, &data.right) {
                Ok(v) => v,
                Err(x) => {
                    proof {
                        assert(temporary_made(table_state(*old(symbol_table)), ta, dest_type));
                        assert(lowered(*data.left, frame_ref, *old(run_builder), ta, bl, tl, lv));
                    }
                    return Err(x);
                },
            };
            let ghost br = *run_builder;
            let ghost tr = table_state(*symbol_table);
            let ghost rv = right_value;
            let generator = BinopGenerator::new(
                frame_ref,
                data.tag,
                dest_type,
                dest.clone_location(),
                left_value,
                right_value,
            );
            let ghost g = generator;
            match generator.generate(run_builder, symbol_table, data.op) {
                Ok(()) => {},
                Err(x) => {
                    proof {
                        let t0 = table_state(*old(symbol_table));
                        assert(g == BinopGenerator {
                            frame_ref,
                            src_tag: data.tag,
                            dest_type: data.result_type->0,
                            dest: Location::FrameOffset(frame_ref, t0.1),
                            left_value: lv,
                            right_value: rv,
                        });
                        assert(temporary_made(t0, ta, dest_type));
                        assert(lowered(*data.left, frame_ref, *old(run_builder), ta, bl, tl, lv));
                        assert(lowered(*data.right, frame_ref, bl, tl, br, tr, rv));
                    }
                    return Err(x);
                },
            }
            proof {
                let t0 = table_state(*old(symbol_table));
                assert(g == BinopGenerator {
                    frame_ref,
                    src_tag: data.tag,
                    dest_type: data.result_type->0,
                    dest: Location::FrameOffset(frame_ref, t0.1),
                    left_value: lv,
                    right_value: rv,
                });
                assert(binary_step(*data, frame_ref, t0, ta, lv, bl, tl, br, tr, rv, *run_builder, table_state(*symbol_table)));
            }
            Ok(Value::Memory(MemoryData::new(BaseType::U8, dest, None)))
        },
        ir::Expr::Call(data) => generate_function_call(run_builder, symbol_table, frame_ref, data),
    }
}

/// Generates the code that computes an expression that names a place, and
/// returns that place; fails with an invalid left value when the expression
/// has an immediate value.
pub fn resolve_expr_to_location<T: SymbolTable>(
    run_builder: &mut RunBuilder,
    symbol_table: &mut T,
    frame_ref: SymbolRef,
    expr: &ir::Expr,
) -> (r: Result<Location, Error>)
    requires
        old(run_builder).wf(),
    ensures
        final(symbol_table).outer_frames() == old(symbol_table).outer_frames(),
        grows(*old(run_builder), *final(run_builder)),
        *expr is Number ==> r is Err,
        r matches Ok(l) ==> exists|v: Value|
            #[trigger] lowered(
                *expr,
                frame_ref,
                *old(run_builder),
                table_state(*old(symbol_table)),
                *final(run_builder),
                table_state(*final(symbol_table)),
                v,
            ) && (v matches Value::Memory(m) && m.location == l),
        *expr is Symbol ==> match symbol_value(old(symbol_table).scopes(), frame_ref, expr->Symbol_0) {
            Some(Value::Memory(d)) => r == Ok::<Location, Error>(d.location),
            Some(Value::Immediate(_, _)) => r == Err::<Location, Error>(
                Error(ErrorKind::InvalidLeftValue(expr->Symbol_0.tag)),
            ),
            None => r is Err,
        },
        r matches Err(x) ==> location_fails(*expr, frame_ref, *old(run_builder), table_state(*old(symbol_table)), x),
{
    match resolve_expr_to_value(run_builder, symbol_table, frame_ref, expr) {
        Ok(Value::Immediate(_, _)) => Err(Error(ErrorKind::InvalidLeftValue(expr.tag()))),
        Ok(Value::Memory(data)) => Ok(data.location),
        Err(x) => Err(x),
    }
}

/// Generates a call: the arguments are computed, the data stack pointer
/// moves up by the called function's frame, each argument is copied into
/// its parameter's place in that frame, the routine is called, the pointer
/// moves back, and a returned value is copied into a new temporary. Fails
/// when the function is unknown or the number of arguments is wrong.
pub fn generate_function_call<T: SymbolTable>(
    run_builder: &mut RunBuilder,
    symbol_table: &mut T,
    frame_ref: SymbolRef,
    call_data: &ir::CallData,
) -> (r: Result<Value, Error>)
    requires
        old(run_builder).wf(),
    ensures
        final(symbol_table).outer_frames() == old(symbol_table).outer_frames(),
        grows(*old(run_builder), *final(run_builder)),
        r matches Ok(v) ==> crate::llir::binop::value_type_of(v) == call_data.return_type->0,
        r matches Ok(v) ==> call_lowered(
            *call_data,
            frame_ref,
            *old(run_builder),
            table_state(*old(symbol_table)),
            *final(run_builder),
            table_state(*final(symbol_table)),
            v,
        ),
        (symbol_table::visible_named(old(symbol_table).scopes(), call_data.function@) is None)
            ==> r == Err::<Value, Error>(
            Error(ErrorKind::SymbolNotFound(call_data.tag, call_data.function)),
        ),
        symbol_table::visible_named(old(symbol_table).scopes(), call_data.function@) is Some ==> (
        match symbol_table::function_named(old(symbol_table).scopes(), call_data.function@) {
            None => r is Err,
            Some(f) => f.parameters@.len() != call_data.arguments@.len() ==> r == Err::<Value, Error>(
                Error(
                    ErrorKind::ExpectedNArgumentsGotM(
                        call_data.tag,
                        call_data.function,
                        f.parameters@.len() as usize,
                        call_data.arguments@.len() as usize,
                    ),
                ),
            ),
        }),
        r matches Err(x) ==> call_fails(*call_data, frame_ref, *old(run_builder), table_state(*old(symbol_table)), x),
    decreases *call_data,
{
    let function_ref = match symbol_table.find_symbol(&call_data.function) {
        Some(r) => r,
        None => {
            return Err(Error(ErrorKind::SymbolNotFound(call_data.tag, call_data.function.clone())));
        },
    };
    let metadata = match symbol_table.function_by_name(&call_data.function) {
        Some(f) => f.duplicate(),
        None => {
            return Err(unsupported(call_data.tag, "Only a function can be called"));
        },
    };
    if metadata.parameters.len() != call_data.arguments.len() {
        return Err(
            Error(
                ErrorKind::ExpectedNArgumentsGotM(
                    call_data.tag,
                    call_data.function.clone(),
                    metadata.parameters.len(),
                    call_data.arguments.len(),
                ),
            ),
        );
    }
    let ghost t0 = table_state(*symbol_table);
    let ghost f = metadata;
    let ghost mut bs: Seq<RunBuilder> = seq![*run_builder];
    let ghost mut ts: Seq<TableState> = seq![t0];
    let mut argument_values: Vec<Value> = Vec::new();
    let mut i: usize = 0;
    proof {
        lemma_grows_refl(*run_builder);
    }
    while i < call_data.arguments.len()
        invariant
            symbol_table.outer_frames() == old(symbol_table).outer_frames(),
            run_builder.wf(),
            grows(*old(run_builder), *run_builder),
            i <= call_data.arguments@.len(),
            argument_values@.len() == i,
            symbol_table::visible_named(old(symbol_table).scopes(), call_data.function@) is Some,
            symbol_table::function_named(old(symbol_table).scopes(), call_data.function@) matches Some(g)
                && g.parameters@.len() == call_data.arguments@.len(),
            t0 == table_state(*old(symbol_table)),
            bs.len() == i + 1,
            ts.len() == i + 1,
            bs[0] == *old(run_builder),
            ts[0] == t0,
            bs[i as int] == *run_builder,
            ts[i as int] == table_state(*symbol_table),
            forall|k: int|
                0 <= k < i ==> lowered(
                    #[trigger] call_data.arguments@[k],
                    frame_ref,
                    bs[k],
                    ts[k],
                    bs[k + 1],
                    ts[k + 1],
                    argument_values@[k],
                ),
        decreases call_data.arguments@.len() - i,
    {
        proof {
            assert(decreases_to!(*call_data => call_data.arguments@[i as int]));
        }
        let ghost b0 = *run_builder;
        let value = match resolve_expr_to_value(run_builder, symbol_table, frame_ref, &call_data.arguments[i]) {
            Ok(v) => v,
            Err(x) => {
                proof {
                    lemma_grows_trans(*old(run_builder), b0, *run_builder);
                    assert(arguments_lowered(*call_data, frame_ref, *old(run_builder), t0, bs, ts, argument_values@, i as int));
                    assert(expr_fails(call_data.arguments@[i as int], frame_ref, bs[i as int], ts[i as int], x));
                }
                return Err(x);
            },
        };
        proof {
            lemma_grows_trans(*old(run_builder), b0, *run_builder);
            bs = bs.push(*run_builder);
            ts = ts.push(table_state(*symbol_table));
        }
        argument_values.push(value);
        i += 1;
    }
    let ghost bn = *run_builder;
    let ghost tn = table_state(*symbol_table);
    let ghost vs = argument_values@;
    let ghost n = call_data.arguments@.len() as int;
    proof {
        assert(arguments_lowered(*call_data, frame_ref, *old(run_builder), t0, bs, ts, vs, n));
    }
    let current = run_builder.current_block().block_ref;
    let move_up = Statement::AddToDataStackPointer(
        AddToDataStackPointerData::new(call_data.tag, SPOffset::FrameSize(function_ref)),
    );
    let ghost b1 = *run_builder;
    let ghost s1 = move_up;
    run_builder.add_statement(current, move_up);
    proof {
        lemma_added_statement_grows(b1, *run_builder, current as int, s1);
        lemma_grows_trans(*old(run_builder), b1, *run_builder);
        lemma_added_to_current(bn, *run_builder, s1);
    }
    let ghost mut segments: Seq<Seq<Statement>> = Seq::empty();
    let mut frame_offset: i8 = 0;
    let mut k: usize = 0;
    while k < argument_values.len()
        invariant
            symbol_table.outer_frames() == old(symbol_table).outer_frames(),
            run_builder.wf(),
            grows(*old(run_builder), *run_builder),
            k <= argument_values@.len(),
            argument_values@ == vs,
            vs.len() == call_data.arguments@.len(),
            argument_values@.len() == metadata.parameters@.len(),
            metadata.parameters@ == f.parameters@,
            symbol_table::visible_named(old(symbol_table).scopes(), call_data.function@) is Some,
            symbol_table::function_named(old(symbol_table).scopes(), call_data.function@) matches Some(g)
                && g.parameters@.len() == call_data.arguments@.len(),
            table_state(*symbol_table) == tn,
            t0 == table_state(*old(symbol_table)),
            arguments_lowered(*call_data, frame_ref, *old(run_builder), t0, bs, ts, vs, n),
            n == vs.len(),
            ts[n] == tn,
            symbol_table::function_named(t0.0, call_data.function@) matches Some(g) && g.parameters@ == f.parameters@,
            symbol_table::visible_named(t0.0, call_data.function@) matches Some(e) && e.symbol_ref == function_ref,
            segments.len() == k,
            frame_offset == argument_offset(f.parameters@, k as int),
            forall|j: int| 0 <= j < k ==> type_size((#[trigger] f.parameters@[j]).base_type) is Some,
            forall|j: int|
                0 <= j < k ==> copies(
                    call_data.tag,
                    value_type_of(vs[j]),
                    offset_value(function_ref, vs[j]),
                    Location::FrameOffset(function_ref, argument_offset(f.parameters@, j)),
                    #[trigger] segments[j],
                ),
            appended(bn, *run_builder, seq![s1] + joined(segments)),
        decreases argument_values@.len() - k,
    {
        let argument_value = argument_values[k].clone_value();
        let argument_type = argument_value.value_type();
        let ghost b2 = *run_builder;
        match generate_copy(
            run_builder,
            call_data.tag,
            &argument_type,
            offset_call(function_ref, argument_value),
            Location::FrameOffset(function_ref, frame_offset),
        ) {
            Ok(()) => {
                proof {
                    let added = choose|added: Seq<Statement>| appended(b2, *run_builder, added) && copies(
                        call_data.tag,
                        argument_type,
                        offset_value(function_ref, vs[k as int]),
                        Location::FrameOffset(function_ref, frame_offset),
                        added,
                    );
                    lemma_appended_grows(b2, *run_builder, added);
                    lemma_grows_trans(*old(run_builder), b2, *run_builder);
                    lemma_appended_trans(bn, b2, *run_builder, seq![s1] + joined(segments), added);
                    let before = segments;
                    segments = segments.push(added);
                    assert(segments.drop_last() =~= before);
                    assert(seq![s1] + joined(before) + added =~= seq![s1] + joined(segments));
                }
            },
            Err(x) => {
                proof {
                    assert(call_rest_fails(*call_data, frame_ref, t0, ts[n], vs));
                }
                return Err(x);
            },
        }
        let size = match metadata.parameters[k].base_type.size() {
            Some(s) => s,
            None => {
                proof {
                    assert(call_rest_fails(*call_data, frame_ref, t0, ts[n], vs));
                }
                return Err(unsupported(call_data.tag, "A parameter can't be void"));
            },
        };
        frame_offset = frame_offset.wrapping_add(size as i8);
        k += 1;
    }
    let current = run_builder.current_block().block_ref;
    let jump = Statement::JumpRoutine(JumpRoutineData::new(call_data.tag, Location::UnresolvedGlobal(function_ref)));
    let ghost b3 = *run_builder;
    let ghost s3 = jump;
    run_builder.add_statement(current, jump);
    proof {
        lemma_added_statement_grows(b3, *run_builder, current as int, s3);
        lemma_grows_trans(*old(run_builder), b3, *run_builder);
        lemma_added_to_current(b3, *run_builder, s3);
        lemma_appended_trans(bn, b3, *run_builder, seq![s1] + joined(segments), seq![s3]);
    }
    let move_down = Statement::AddToDataStackPointer(
        AddToDataStackPointerData::new(call_data.tag, SPOffset::NegativeFrameSize(function_ref)),
    );
    let ghost b4 = *run_builder;
    let ghost s4 = move_down;
    run_builder.add_statement(current, move_down);
    proof {
        lemma_added_statement_grows(b4, *run_builder, current as int, s4);
        lemma_grows_trans(*old(run_builder), b4, *run_builder);
        lemma_added_to_current(b4, *run_builder, s4);
        lemma_appended_trans(bn, b4, *run_builder, seq![s1] + joined(segments) + seq![s3], seq![s4]);
        assert(seq![s1] + joined(segments) + seq![s3] + seq![s4] =~= call_statements(
            call_data.tag,
            function_ref,
            segments,
            Seq::empty(),
        ));
    }
    let ghost b5 = *run_builder;
    let return_type = match &call_data.return_type {
        Some(t) => t.clone(),
        None => {
            proof {
                assert(call_rest_fails(*call_data, frame_ref, t0, ts[n], vs));
            }
            return Err(unsupported(call_data.tag, "Can't infer the return type"));
        },
    };
    if return_type.size().is_some() {
        let dest = convert_location(frame_ref, &symbol_table.create_temporary_location(&BaseType::U8));
        match generate_copy(
            run_builder,
            call_data.tag,
            &return_type,
            Value::Memory(MemoryData::new(return_type.clone(), return_location_lo(), None)),
            dest.clone_location(),
        ) {
            Ok(()) => {
                proof {
                    let added = choose|added: Seq<Statement>| appended(b5, *run_builder, added) && copies(
                        call_data.tag,
                        return_type,
                        Value::Memory(MemoryData { base_type: return_type, location: return_location(), debug: None }),
                        dest,
                        added,
                    );
                    lemma_appended_grows(b5, *run_builder, added);
                    lemma_grows_trans(*old(run_builder), b5, *run_builder);
                    lemma_appended_trans(
                        bn,
                        b5,
                        *run_builder,
                        call_statements(call_data.tag, function_ref, segments, Seq::empty()),
                        added,
                    );
                    assert(call_statements(call_data.tag, function_ref, segments, Seq::empty()) + added
                        =~= call_statements(call_data.tag, function_ref, segments, added));
                    assert(call_step(
                        *call_data,
                        frame_ref,
                        bs,
                        ts,
                        vs,
                        *run_builder,
                        table_state(*symbol_table),
                        Value::Memory(MemoryData { base_type: return_type, location: dest, debug: None }),
                    ));
                }
            },
            Err(x) => {
                proof {
                    assert(call_rest_fails(*call_data, frame_ref, t0, ts[n], vs));
                }
                return Err(x);
            },
        }
        Ok(Value::Memory(MemoryData::new(return_type, dest, None)))
    } else {
        proof {
            assert(call_step(
                *call_data,
                frame_ref,
                bs,
                ts,
                vs,
                *run_builder,
                table_state(*symbol_table),
                Value::Memory(MemoryData { base_type: return_type, location: return_location(), debug: None }),
            ));
        }
        Ok(Value::Memory(MemoryData::new(return_type, return_location_lo(), None)))
    }
}

/// Whether `b1` is `b0` with the statement `st` added to its run `k`.
pub open spec fn added_at(b0: RunBuilder, b1: RunBuilder, k: int, st: Statement) -> bool {
    &&& b1.wf() == b0.wf()
    &&& 0 <= k < b0.blocks().len()
    &&& b1.blocks().len() == b0.blocks().len()
    &&& b1.current() == b0.current()
    &&& forall|i: int| 0 <= i < b0.blocks().len() && i != k ==> b1.blocks()[i] == b0.blocks()[i]
    &&& b1.blocks()[k].name == b0.blocks()[k].name
    &&& b1.blocks()[k].symbol == b0.blocks()[k].symbol
    &&& b1.blocks()[k].statements@ == b0.blocks()[k].statements@.push(st)
}

/// Whether `b1` is `b0` with a new empty run, labelled in the table `t0`
/// (which becomes `t1`), made current.
pub open spec fn run_started(b0: RunBuilder, t0: TableState, b1: RunBuilder, t1: TableState) -> bool {
    &&& b1.wf()
    &&& b1.blocks().len() == b0.blocks().len() + 1
    &&& b1.blocks().drop_last() == b0.blocks()
    &&& b1.current() == b0.blocks().len()
    &&& b1.blocks().last().symbol == t0.2
    &&& b1.blocks().last().name@ == symbol_table::block_label(b1.blocks().last().symbol)
    &&& b1.blocks().last().statements@.len() == 0
    &&& t1 == labelled(t0, b1.blocks().last())
}

/// Whether `b1` is `b0` with the runs `runs` after its own, the last of
/// them current.
pub open spec fn runs_appended(b0: RunBuilder, runs: Seq<RunBlock>, b1: RunBuilder) -> bool {
    &&& b1.wf()
    &&& b1.blocks() == b0.blocks() + runs
    &&& b1.current() == b1.blocks().len() - 1
}

/// The steps of an assignment that are not its expressions': the right
/// value `rv` computed (leaving `b1` and `t1`), the left one `lv` (leaving
/// `b2` and `t2`), a place in memory, into which the value is copied as
/// `copies` says, appending `added` to the current run.
pub open spec fn assign_step(
    d: ir::AssignData,
    b1: RunBuilder,
    t1: TableState,
    rv: Value,
    b2: RunBuilder,
    t2: TableState,
    lv: Value,
    added: Seq<Statement>,
    bz: RunBuilder,
    tz: TableState,
) -> bool {
    &&& lv matches Value::Memory(m)
    &&& d.value_type matches Some(vt)
    &&& appended(b2, bz, added)
    &&& copies(d.tag, vt, rv, lv->Memory_0.location, added)
    &&& tz == t2
}

/// The steps of a conditional that are not its condition's or its
/// branches': a run is started for the condition (`b1`, `t1`), which
/// yields `cv` and ends in run `end` of `b2`, the table at `t2`; the runs
/// of the true branch and then of the false one, generated from `t2` on,
/// are appended (`b3`, `b4`), a run is started
/// after them (`b5`, `t5`), the first run of the true branch jumps to it,
/// the condition's run branches to the false branch when `cv` is zero, and
/// a run is started for what follows.
pub open spec fn conditional_step(
    d: ir::ConditionalData,
    b0: RunBuilder,
    t0: TableState,
    b1: RunBuilder,
    t1: TableState,
    b2: RunBuilder,
    t2: TableState,
    cv: Value,
    true_runs: Seq<RunBlock>,
    t3: TableState,
    b3: RunBuilder,
    false_runs: Seq<RunBlock>,
    t4: TableState,
    b4: RunBuilder,
    b5: RunBuilder,
    t5: TableState,
    b6: RunBuilder,
    b7: RunBuilder,
    bz: RunBuilder,
    tz: TableState,
) -> bool {
    let end = b2.current();
    let true_ref = b2.blocks().len() as int;
    let false_ref = b3.blocks().len() as int;
    &&& run_started(b0, t0, b1, t1)
    &&& runs_appended(b2, true_runs, b3)
    &&& runs_appended(b3, false_runs, b4)
    &&& run_started(b4, t4, b5, t5)
    &&& added_at(b5, b6, true_ref, Statement::GoTo(GoToData { tag: d.tag, destination: b5.blocks().last().symbol }))
    &&& added_at(
        b6,
        b7,
        end,
        Statement::BranchIfZero(
            BranchIfZeroData { tag: d.tag, value: cv, destination: b6.blocks()[false_ref].symbol },
        ),
    )
    &&& run_started(b7, t5, bz, tz)
}

/// The steps of a loop that are not its condition's or its body's: a run
/// is started for the condition (`b1`, `t1`), which yields `cv` and ends in
/// run `end` of `b2`, the table at `t2`; the runs of the body, generated
/// from `t2` on, are appended (`b3`), a run is
/// started after them (`b4`, `t4`), the condition's run branches to it when
/// `cv` is zero, the body's first run jumps back to the condition, and a run
/// is started for what follows.
pub open spec fn loop_step(
    d: ir::WhileLoopData,
    b0: RunBuilder,
    t0: TableState,
    b1: RunBuilder,
    t1: TableState,
    b2: RunBuilder,
    t2: TableState,
    cv: Value,
    body_runs: Seq<RunBlock>,
    t3: TableState,
    b3: RunBuilder,
    b4: RunBuilder,
    t4: TableState,
    b5: RunBuilder,
    b6: RunBuilder,
    bz: RunBuilder,
    tz: TableState,
) -> bool {
    let end = b2.current();
    let body_ref = b2.blocks().len() as int;
    &&& run_started(b0, t0, b1, t1)
    &&& runs_appended(b2, body_runs, b3)
    &&& run_started(b3, t3, b4, t4)
    &&& added_at(
        b4,
        b5,
        end,
        Statement::BranchIfZero(BranchIfZeroData { tag: d.tag, value: cv, destination: b4.blocks().last().symbol }),
    )
    &&& added_at(b5, b6, body_ref, Statement::GoTo(GoToData { tag: d.tag, destination: b1.blocks().last().symbol }))
    &&& run_started(b6, t4, bz, tz)
}

/// The steps of a return that are not its value's: a value `v` (computed
/// from `b0`, `t0` to `b1`, `t1`) is copied into the place of returned
/// values, appending `added`, then the return itself is added.
pub open spec fn return_step(
    d: ir::ReturnData,
    b1: RunBuilder,
    t1: TableState,
    v: Value,
    added: Seq<Statement>,
    b2: RunBuilder,
    bz: RunBuilder,
    tz: TableState,
) -> bool {
    &&& d.value_type matches Some(vt)
    &&& appended(b1, b2, added)
    &&& copies(d.tag, vt, v, return_location(), added)
    &&& added_at(b2, bz, b2.current(), Statement::Return(ReturnData { tag: d.tag }))
    &&& tz == t1
}

/// Whether a value is one that the call `d` can return.
pub open spec fn returned_by(d: ir::CallData, v: Value) -> bool {
    d.return_type matches Some(rt) && value_type_of(v) == rt
}

/// Whether generating the statement `s` takes the runs from `b0` to `bz`
/// and the table from `t0` to `tz`: an assignment computes its value and
/// its place and copies one into the other; a call computes as
/// `call_lowered` says and drops its value; a conditional and a loop
/// start runs for their condition, their branches or body and what
/// follows, as `conditional_step` and `loop_step` say; inline assembly and
/// a jump to a label found in the table add one statement to the current
/// run; a return copies its value, if any, into the place of returned
/// values and adds a return. A break is never generated.
pub open spec fn statement_lowered(
    s: ir::Statement,
    frame_ref: SymbolRef,
    b0: RunBuilder,
    t0: TableState,
    bz: RunBuilder,
    tz: TableState,
) -> bool
    decreases s,
{
    match s {
        ir::Statement::Assign(d) => exists|
            b1: RunBuilder,
            t1: TableState,
            rv: Value,
            b2: RunBuilder,
            t2: TableState,
            lv: Value,
            added: Seq<Statement>,
        |
            #[trigger] assign_step(d, b1, t1, rv, b2, t2, lv, added, bz, tz) && lowered(
                d.right_value,
                frame_ref,
                b0,
                t0,
                b1,
                t1,
                rv,
            ) && lowered(d.left_value, frame_ref, b1, t1, b2, t2, lv),
        ir::Statement::Call(d) => exists|v: Value|
            #[trigger] returned_by(d, v) && call_lowered(d, frame_ref, b0, t0, bz, tz, v),
        ir::Statement::Conditional(d) => exists|
            b1: RunBuilder,
            t1: TableState,
            b2: RunBuilder,
            t2: TableState,
            cv: Value,
            true_runs: Seq<RunBlock>,
            t3: TableState,
            b3: RunBuilder,
            false_runs: Seq<RunBlock>,
            t4: TableState,
            b4: RunBuilder,
            b5: RunBuilder,
            t5: TableState,
            b6: RunBuilder,
            b7: RunBuilder,
        |
            #[trigger] conditional_step(
                d,
                b0,
                t0,
                b1,
                t1,
                b2,
                t2,
                cv,
                true_runs,
                t3,
                b3,
                false_runs,
                t4,
                b4,
                b5,
                t5,
                b6,
                b7,
                bz,
                tz,
            ) && lowered(d.condition, frame_ref, b1, t1, b2, t2, cv) && runs_generated(
                d.when_true@,
                frame_ref,
                t2,
                true_runs,
                t3,
            ) && runs_generated(d.when_false@, frame_ref, t3, false_runs, t4),
        ir::Statement::WhileLoop(d) => exists|
            b1: RunBuilder,
            t1: TableState,
            b2: RunBuilder,
            t2: TableState,
            cv: Value,
            body_runs: Seq<RunBlock>,
            t3: TableState,
            b3: RunBuilder,
            b4: RunBuilder,
            t4: TableState,
            b5: RunBuilder,
            b6: RunBuilder,
        |
            #[trigger] loop_step(d, b0, t0, b1, t1, b2, t2, cv, body_runs, t3, b3, b4, t4, b5, b6, bz, tz)
                && lowered(d.condition, frame_ref, b1, t1, b2, t2, cv) && runs_generated(
                d.body@,
                frame_ref,
                t2,
                body_runs,
                t3,
            ),
        ir::Statement::InlineAsm(d) => added_at(
            b0,
            bz,
            b0.current(),
            Statement::InlineAsm(InlineAsmData { tag: d.tag, text: d.text }),
        ) && tz == t0,
        ir::Statement::Return(d) => match d.value {
            Some(e) => exists|b1: RunBuilder, t1: TableState, v: Value, added: Seq<Statement>, b2: RunBuilder|
                #[trigger] return_step(d, b1, t1, v, added, b2, bz, tz) && lowered(e, frame_ref, b0, t0, b1, t1, v),
            None => added_at(b0, bz, b0.current(), Statement::Return(ReturnData { tag: d.tag })) && tz == t0,
        },
        ir::Statement::GoTo(d) => match symbol_table::visible_named(t0.0, d.destination@) {
            Some(e) => added_at(
                b0,
                bz,
                b0.current(),
                Statement::GoTo(GoToData { tag: d.tag, destination: e.symbol_ref }),
            ) && tz == t0,
            None => false,
        },
        ir::Statement::Break => false,
    }
}

/// Whether generating the statement `s` from the runs `b0` and the table
/// `t0` fails: an assignment whose value or place fails, as `expr_fails` and
/// `location_fails` say, or, once both are computed, without a type or with
/// a value that cannot be copied into the place; a call that fails as
/// `call_fails` says; a conditional or loop whose condition fails in the
/// run started for it, or whose branches or body fail from the table that
/// the condition left; a return whose value fails, or, once computed, has
/// no type or cannot be copied into the place of returned values; a jump
/// to a label that is not visible (a symbol not found); a break. A failing
/// part passes its error on as `x`; the others are reported at the
/// statement's tag, a break at no place.
pub open spec fn statement_fails(s: ir::Statement, frame_ref: SymbolRef, b0: RunBuilder, t0: TableState, x: Error) -> bool
    decreases s,
{
    match s {
        ir::Statement::Assign(d) => {
            ||| expr_fails(d.right_value, frame_ref, b0, t0, x)
            ||| exists|b1: RunBuilder, t1: TableState, rv: Value|
                #[trigger] lowered(d.right_value, frame_ref, b0, t0, b1, t1, rv) && (location_fails(
                    d.left_value,
                    frame_ref,
                    b1,
                    t1,
                    x,
                ) || exists|b2: RunBuilder, t2: TableState, lv: Value|
                    #[trigger] lowered(d.left_value, frame_ref, b1, t1, b2, t2, lv) && lv is Memory && (
                    d.value_type is None || !copyable(d.value_type->0, rv, lv->Memory_0.location)) && unsupported_at(
                    x,
                    d.tag,
                ))
        },
        ir::Statement::Call(d) => call_fails(d, frame_ref, b0, t0, x),
        ir::Statement::Conditional(d) => exists|b1: RunBuilder, t1: TableState|
            #[trigger] run_started(b0, t0, b1, t1) && (expr_fails(d.condition, frame_ref, b1, t1, x) || exists|
                b2: RunBuilder,
                t2: TableState,
                cv: Value,
            |
                #[trigger] lowered(d.condition, frame_ref, b1, t1, b2, t2, cv) && (runs_fail(
                    d.when_true@,
                    frame_ref,
                    t2,
                    x,
                ) || exists|true_runs: Seq<RunBlock>, t3: TableState|
                    #[trigger] runs_generated(d.when_true@, frame_ref, t2, true_runs, t3) && runs_fail(
                        d.when_false@,
                        frame_ref,
                        t3,
                        x,
                    ))),
        ir::Statement::WhileLoop(d) => exists|b1: RunBuilder, t1: TableState|
            #[trigger] run_started(b0, t0, b1, t1) && (expr_fails(d.condition, frame_ref, b1, t1, x) || exists|
                b2: RunBuilder,
                t2: TableState,
                cv: Value,
            | #[trigger] lowered(d.condition, frame_ref, b1, t1, b2, t2, cv) && runs_fail(d.body@, frame_ref, t2, x)),
        ir::Statement::InlineAsm(_) => false,
        ir::Statement::Return(d) => match d.value {
            Some(e) => expr_fails(e, frame_ref, b0, t0, x) || exists|b1: RunBuilder, t1: TableState, v: Value|
                #[trigger] lowered(e, frame_ref, b0, t0, b1, t1, v) && (d.value_type is None || !copyable(
                    d.value_type->0,
                    v,
                    return_location(),
                )) && unsupported_at(x, d.tag),
            None => false,
        },
        ir::Statement::GoTo(d) => symbol_table::visible_named(t0.0, d.destination@) is None && x == Error(
            ErrorKind::SymbolNotFound(d.tag, d.destination),
        ),
        ir::Statement::Break => unsupported_at(x, SrcTag(usize::MAX)),
    }
}

/// Whether generating the statements `input` from the table `t0` fails with
/// `x`: a first run is started and the statements before the `k`th are
/// generated as `runs_generated` says, and the `k`th fails with `x` as
/// `statement_fails` says.
pub open spec fn runs_fail(input: Seq<ir::Statement>, frame_ref: SymbolRef, t0: TableState, x: Error) -> bool
    decreases input,
{
    exists|b0: RunBuilder, ta: TableState, bs: Seq<RunBuilder>, ts: Seq<TableState>, k: int|
        #[trigger] runs_step(k as nat, t0, b0, ta, bs, ts, bs[k].blocks(), ts[k]) && 0 <= k < input.len() && (
        forall|j: int|
            0 <= j < k ==> statement_lowered(#[trigger] input[j], frame_ref, bs[j], ts[j], bs[j + 1], ts[j + 1]))
            && statement_fails(input[k], frame_ref, bs[k], ts[k], x)
}

/// The steps of generating runs that are not the statements': a builder
/// `b0` with one empty run labelled in the table (which becomes `ta`), the
/// builders and tables `bs` and `ts` between the statements, and the runs
/// and the table at the end.
pub open spec fn runs_step(
    n: nat,
    t0: TableState,
    b0: RunBuilder,
    ta: TableState,
    bs: Seq<RunBuilder>,
    ts: Seq<TableState>,
    runs: Seq<RunBlock>,
    t1: TableState,
) -> bool {
    &&& b0.wf()
    &&& b0.blocks().len() == 1
    &&& b0.current() == 0
    &&& b0.blocks()[0].symbol == t0.2
    &&& b0.blocks()[0].name@ == symbol_table::block_label(b0.blocks()[0].symbol)
    &&& b0.blocks()[0].statements@.len() == 0
    &&& ta == labelled(t0, b0.blocks()[0])
    &&& bs.len() == n + 1
    &&& ts.len() == n + 1
    &&& bs[0] == b0
    &&& ts[0] == ta
    &&& runs == bs[n as int].blocks()
    &&& t1 == ts[n as int]
}

/// Whether generating the statements `input` from the table `t0` gives
/// `runs` and leaves the table `t1`: a first run is started, and each
/// statement is generated in turn, as `statement_lowered` says.
pub open spec fn runs_generated(
    input: Seq<ir::Statement>,
    frame_ref: SymbolRef,
    t0: TableState,
    runs: Seq<RunBlock>,
    t1: TableState,
) -> bool
    decreases input,
{
    exists|b0: RunBuilder, ta: TableState, bs: Seq<RunBuilder>, ts: Seq<TableState>|
        #[trigger] runs_step(input.len(), t0, b0, ta, bs, ts, runs, t1) && forall|k: int|
            0 <= k < input.len() ==> statement_lowered(
                #[trigger] input[k],
                frame_ref,
                bs[k],
                ts[k],
                bs[k + 1],
                ts[k + 1],
            )
}

/// A statement that fails after those before it were generated makes the
/// statements fail.
proof fn lemma_runs_fail_at(
    input: Seq<ir::Statement>,
    frame_ref: SymbolRef,
    t0: TableState,
    b0: RunBuilder,
    ta: TableState,
    bs: Seq<RunBuilder>,
    ts: Seq<TableState>,
    k: int,
    x: Error,
)
    requires
        runs_step(k as nat, t0, b0, ta, bs, ts, bs[k].blocks(), ts[k]),
        0 <= k < input.len(),
        forall|j: int| 0 <= j < k ==> statement_lowered(#[trigger] input[j], frame_ref, bs[j], ts[j], bs[j + 1], ts[j + 1]),
        statement_fails(input[k], frame_ref, bs[k], ts[k], x),
    ensures
        runs_fail(input, frame_ref, t0, x),
{
}

/// Generates the runs of a sequence of statements. Each statement adds to
/// the current run; a conditional or loop adds runs of its own: a run that
/// computes the condition and branches when it is zero, the runs of its
/// bodies, and a run that follows, where a conditional's first run for the
/// true branch jumps to the end and a loop's body jumps back to its
/// condition. Fails on what the low-level representation cannot express.
#[verifier::spinoff_prover]
#[verifier::rlimit(30)]
pub fn generate_runs<T: SymbolTable>(
    symbol_table: &mut T,
    frame_ref: SymbolRef,
    input: &Vec<ir::Statement>,
) -> (r: Result<Vec<RunBlock>, Error>)
    ensures
        final(symbol_table).outer_frames() == old(symbol_table).outer_frames(),
        r matches Ok(runs) ==> runs@.len() >= 1,
        r matches Ok(runs) ==> runs_generated(
            input@,
            frame_ref,
            table_state(*old(symbol_table)),
            runs@,
            table_state(*final(symbol_table)),
        ),
        (exists|i: int| 0 <= i < input@.len() && #[trigger] input@[i] is Break) ==> r is Err,
        r matches Err(x) ==> runs_fail(input@, frame_ref, table_state(*old(symbol_table)), x),
    decreases input@,
{
    let ghost t0 = table_state(*symbol_table);
    let mut run_builder = RunBuilder::new(symbol_table);
    let ghost b_start = run_builder;
    let ghost ta = table_state(*symbol_table);
    let ghost mut bs: Seq<RunBuilder> = seq![run_builder];
    let ghost mut ts: Seq<TableState> = seq![ta];
    proof {
        assert(ta == labelled(t0, b_start.blocks()[0]));
    }
    let mut index: usize = 0;
    while index < input.len()
        invariant
            symbol_table.outer_frames() == old(symbol_table).outer_frames(),
            run_builder.wf(),
            index <= input@.len(),
            forall|j: int| 0 <= j < index ==> !(#[trigger] input@[j] is Break),
            t0 == table_state(*old(symbol_table)),
            runs_step(index as nat, t0, b_start, ta, bs, ts, bs[index as int].blocks(), ts[index as int]),
            bs[index as int] == run_builder,
            ts[index as int] == table_state(*symbol_table),
            forall|k: int|
                0 <= k < index ==> statement_lowered(#[trigger] input@[k], frame_ref, bs[k], ts[k], bs[k + 1], ts[k + 1]),
        decreases input@.len() - index,
    {
        proof {
            assert(decreases_to!(input@ => input@[index as int]));
        }
        let ghost b0 = run_builder;
        let ghost t_before = table_state(*symbol_table);
        match &input[index] {
            ir::Statement::Assign(data) => {
                let right_value = match resolve_expr_to_value(&mut run_builder, symbol_table, frame_ref, &data.right_value) {
                    Ok(v) => v,
                    Err(x) => {
                        proof {
                            
                            assert(statement_fails(input@[index as int], frame_ref, b0, t_before, x));
                            lemma_runs_fail_at(input@, frame_ref, t0, b_start, ta, bs, ts, index as int, x);
                        }
                        return Err(x);
                    },
                };
                let ghost b1 = run_builder;
                let ghost t1 = table_state(*symbol_table);
                let ghost rv = right_value;
                let left_location = match resolve_expr_to_location(&mut run_builder, symbol_table, frame_ref, &data.left_value) {
                    Ok(l) => l,
                    Err(x) => {
                        proof {
                            assert(lowered(data.right_value, frame_ref, b0, t_before, b1, t1, rv));
                            assert(statement_fails(input@[index as int], frame_ref, b0, t_before, x));
                            lemma_runs_fail_at(input@, frame_ref, t0, b_start, ta, bs, ts, index as int, x);
                        }
                        return Err(x);
                    },
                };
                let ghost b2 = run_builder;
                let ghost t2 = table_state(*symbol_table);
                let ghost lv = choose|v: Value|
                    #[trigger] lowered(data.left_value, frame_ref, b1, t1, b2, t2, v) && (v matches Value::Memory(m)
                        && m.location == left_location);
                let value_type = match &data.value_type {
                    Some(t) => t,
                    None => {
                        let x = unsupported(data.tag, "Can't infer type of assignment");
                        proof {
                            assert(lowered(data.right_value, frame_ref, b0, t_before, b1, t1, rv));
                            assert(lowered(data.left_value, frame_ref, b1, t1, b2, t2, lv));
                            assert(statement_fails(input@[index as int], frame_ref, b0, t_before, x));
                            lemma_runs_fail_at(input@, frame_ref, t0, b_start, ta, bs, ts, index as int, x);
                        }
                        return Err(x);
                    },
                };
                match generate_copy(&mut run_builder, data.tag, value_type, right_value, left_location) {
                    Ok(()) => {},
                    Err(x) => {
                        proof {
                            assert(lowered(data.right_value, frame_ref, b0, t_before, b1, t1, rv));
                            assert(lowered(data.left_value, frame_ref, b1, t1, b2, t2, lv));
                            assert(statement_fails(input@[index as int], frame_ref, b0, t_before, x));
                            lemma_runs_fail_at(input@, frame_ref, t0, b_start, ta, bs, ts, index as int, x);
                        }
                        return Err(x);
                    },
                }
                proof {
                    let added = choose|added: Seq<Statement>| appended(b2, run_builder, added) && copies(
                        data.tag,
                        *value_type,
                        rv,
                        left_location,
                        added,
                    );
                    assert(assign_step(*data, b1, t1, rv, b2, t2, lv, added, run_builder, table_state(*symbol_table)));
                }
            },
            ir::Statement::Call(data) => {
                match generate_function_call(&mut run_builder, symbol_table, frame_ref, data) {
                    Ok(v) => {
                        proof {
                            assert(returned_by(*data, v));
                        }
                    },
                    Err(x) => {
                        proof {
                            
                            assert(statement_fails(input@[index as int], frame_ref, b0, t_before, x));
                            lemma_runs_fail_at(input@, frame_ref, t0, b_start, ta, bs, ts, index as int, x);
                        }
                        return Err(x);
                    },
                }
            },
            ir::Statement::Conditional(data) => {
                run_builder.new_block(symbol_table);
                let ghost b1 = run_builder;
                let ghost t1 = table_state(*symbol_table);
                let condition = match resolve_expr_to_value(&mut run_builder, symbol_table, frame_ref, &data.condition) {
                    Ok(v) => v,
                    Err(x) => {
                        proof {
                            assert(run_started(b0, t_before, b1, t1));
                            assert(statement_fails(input@[index as int], frame_ref, b0, t_before, x));
                            lemma_runs_fail_at(input@, frame_ref, t0, b_start, ta, bs, ts, index as int, x);
                        }
                        return Err(x);
                    },
                };
                let ghost b2 = run_builder;
                let ghost t2 = table_state(*symbol_table);
                let ghost cv = condition;
                let end_condition_block_ref = run_builder.current_block().block_ref;
                proof {
                    assert(decreases_to!(input@[index as int] => data.when_true@));
                    assert(decreases_to!(input@[index as int] => data.when_false@));
                }
                let true_runs = match generate_runs(symbol_table, frame_ref, &data.when_true) {
                    Ok(runs) => runs,
                    Err(x) => {
                        proof {
                            assert(run_started(b0, t_before, b1, t1));
                            assert(lowered(data.condition, frame_ref, b1, t1, b2, t2, cv));
                            assert(statement_fails(input@[index as int], frame_ref, b0, t_before, x));
                            lemma_runs_fail_at(input@, frame_ref, t0, b_start, ta, bs, ts, index as int, x);
                        }
                        return Err(x);
                    },
                };
                let ghost true_seq = true_runs@;
                let ghost t3 = table_state(*symbol_table);
                let true_block_ref = run_builder.append_blocks(true_runs);
                let ghost b3 = run_builder;
                let false_runs = match generate_runs(symbol_table, frame_ref, &data.when_false) {
                    Ok(runs) => runs,
                    Err(x) => {
                        proof {
                            assert(run_started(b0, t_before, b1, t1));
                            assert(lowered(data.condition, frame_ref, b1, t1, b2, t2, cv));
                            assert(runs_generated(data.when_true@, frame_ref, t2, true_seq, t3));
                            assert(statement_fails(input@[index as int], frame_ref, b0, t_before, x));
                            lemma_runs_fail_at(input@, frame_ref, t0, b_start, ta, bs, ts, index as int, x);
                        }
                        return Err(x);
                    },
                };
                let ghost false_seq = false_runs@;
                let ghost t4 = table_state(*symbol_table);
                let false_block_ref = run_builder.append_blocks(false_runs);
                let ghost b4 = run_builder;
                let after_both_block_symbol = run_builder.new_block(symbol_table).symbol();
                let ghost b5 = run_builder;
                let ghost t5 = table_state(*symbol_table);
                run_builder.add_statement(
                    true_block_ref,
                    Statement::GoTo(GoToData::new(data.tag, after_both_block_symbol)),
                );
                let ghost b6 = run_builder;
                let false_block_symbol = run_builder.block(false_block_ref).symbol();
                run_builder.add_statement(
                    end_condition_block_ref,
                    Statement::BranchIfZero(BranchIfZeroData::new(data.tag, condition, false_block_symbol)),
                );
                let ghost b7 = run_builder;
                run_builder.new_block(symbol_table);
                proof {
                    assert(conditional_step(
                        *data,
                        b0,
                        t_before,
                        b1,
                        t1,
                        b2,
                        t2,
                        cv,
                        true_seq,
                        t3,
                        b3,
                        false_seq,
                        t4,
                        b4,
                        b5,
                        t5,
                        b6,
                        b7,
                        run_builder,
                        table_state(*symbol_table),
                    ));
                }
            },
            ir::Statement::InlineAsm(data) => {
                let current = run_builder.current_block().block_ref;
                run_builder.add_statement(
                    current,
                    Statement::InlineAsm(InlineAsmData::new(data.tag, data.text.clone())),
                );
            },
            ir::Statement::WhileLoop(data) => {
                let start_condition_block_ref = run_builder.new_block(symbol_table).block_ref;
                let ghost b1 = run_builder;
                let ghost t1 = table_state(*symbol_table);
                let start_condition_block_symbol = run_builder.block(start_condition_block_ref).symbol();
                let condition = match resolve_expr_to_value(&mut run_builder, symbol_table, frame_ref, &data.condition) {
                    Ok(v) => v,
                    Err(x) => {
                        proof {
                            assert(run_started(b0, t_before, b1, t1));
                            assert(statement_fails(input@[index as int], frame_ref, b0, t_before, x));
                            lemma_runs_fail_at(input@, frame_ref, t0, b_start, ta, bs, ts, index as int, x);
                        }
                        return Err(x);
                    },
                };
                let ghost b2 = run_builder;
                let ghost t2 = table_state(*symbol_table);
                let ghost cv = condition;
                let end_condition_block_ref = run_builder.current_block().block_ref;
                proof {
                    assert(decreases_to!(input@[index as int] => data.body@));
                }
                let body_runs = match generate_runs(symbol_table, frame_ref, &data.body) {
                    Ok(runs) => runs,
                    Err(x) => {
                        proof {
                            assert(run_started(b0, t_before, b1, t1));
                            assert(lowered(data.condition, frame_ref, b1, t1, b2, t2, cv));
                            assert(statement_fails(input@[index as int], frame_ref, b0, t_before, x));
                            lemma_runs_fail_at(input@, frame_ref, t0, b_start, ta, bs, ts, index as int, x);
                        }
                        return Err(x);
                    },
                };
                let ghost body_seq = body_runs@;
                let ghost t3 = table_state(*symbol_table);
                let body_block_ref = run_builder.append_blocks(body_runs);
                let ghost b3 = run_builder;
                let after_body_block_symbol = run_builder.new_block(symbol_table).symbol();
                let ghost b4 = run_builder;
                let ghost t4 = table_state(*symbol_table);
                run_builder.add_statement(
                    end_condition_block_ref,
                    Statement::BranchIfZero(BranchIfZeroData::new(data.tag, condition, after_body_block_symbol)),
                );
                let ghost b5 = run_builder;
                run_builder.add_statement(
                    body_block_ref,
                    Statement::GoTo(GoToData::new(data.tag, start_condition_block_symbol)),
                );
                let ghost b6 = run_builder;
                run_builder.new_block(symbol_table);
                proof {
                    assert(loop_step(
                        *data,
                        b0,
                        t_before,
                        b1,
                        t1,
                        b2,
                        t2,
                        cv,
                        body_seq,
                        t3,
                        b3,
                        b4,
                        t4,
                        b5,
                        b6,
                        run_builder,
                        table_state(*symbol_table),
                    ));
                }
            },
            ir::Statement::Return(data) => {
                if let Some(expr) = &data.value {
                    let value = match resolve_expr_to_value(&mut run_builder, symbol_table, frame_ref, expr) {
                        Ok(v) => v,
                        Err(x) => {
                            proof {
                            
                            assert(statement_fails(input@[index as int], frame_ref, b0, t_before, x));
                            lemma_runs_fail_at(input@, frame_ref, t0, b_start, ta, bs, ts, index as int, x);
                        }
                        return Err(x);
                        },
                    };
                    let ghost b1 = run_builder;
                    let ghost t1 = table_state(*symbol_table);
                    let ghost v = value;
                    let value_type = match &data.value_type {
                        Some(t) => t,
                        None => {
                            let x = unsupported(data.tag, "Can't infer type of returned value");
                            proof {
                                assert(lowered(*expr, frame_ref, b0, t_before, b1, t1, v));
                                assert(statement_fails(input@[index as int], frame_ref, b0, t_before, x));
                                lemma_runs_fail_at(input@, frame_ref, t0, b_start, ta, bs, ts, index as int, x);
                            }
                            return Err(x);
                        },
                    };
                    match generate_copy(&mut run_builder, data.tag, value_type, value, return_location_lo()) {
                        Ok(()) => {},
                        Err(x) => {
                            proof {
                            assert(lowered(*expr, frame_ref, b0, t_before, b1, t1, v));
                            assert(statement_fails(input@[index as int], frame_ref, b0, t_before, x));
                            lemma_runs_fail_at(input@, frame_ref, t0, b_start, ta, bs, ts, index as int, x);
                        }
                        return Err(x);
                        },
                    }
                    let ghost b2 = run_builder;
                    let ghost added = choose|added: Seq<Statement>| appended(b1, b2, added) && copies(
                        data.tag,
                        *value_type,
                        v,
                        return_location(),
                        added,
                    );
                    let current = run_builder.current_block().block_ref;
                    run_builder.add_statement(current, Statement::Return(ReturnData::new(data.tag)));
                    proof {
                        assert(return_step(*data, b1, t1, v, added, b2, run_builder, table_state(*symbol_table)));
                    }
                } else {
                    let current = run_builder.current_block().block_ref;
                    run_builder.add_statement(current, Statement::Return(ReturnData::new(data.tag)));
                }
            },
            ir::Statement::GoTo(data) => {
                match symbol_table.find_symbol(&data.destination) {
                    Some(symbol_ref) => {
                        let current = run_builder.current_block().block_ref;
                        run_builder.add_statement(current, Statement::GoTo(GoToData::new(data.tag, symbol_ref)));
                    },
                    None => {
                        let x = Error(ErrorKind::SymbolNotFound(data.tag, data.destination.clone()));
                        proof {
                            assert(statement_fails(input@[index as int], frame_ref, b0, t_before, x));
                            lemma_runs_fail_at(input@, frame_ref, t0, b_start, ta, bs, ts, index as int, x);
                        }
                        return Err(x);
                    },
                }
            },
            ir::Statement::Break => {
                let x = unsupported(crate::src_tag::SrcTag::invalid(), "A break is not supported");
                proof {
                    assert(statement_fails(input@[index as int], frame_ref, b0, t_before, x));
                    lemma_runs_fail_at(input@, frame_ref, t0, b_start, ta, bs, ts, index as int, x);
                }
                return Err(x);
            },
        }
        proof {
            assert(statement_lowered(input@[index as int], frame_ref, b0, t_before, run_builder, table_state(*symbol_table)));
            let old_bs = bs;
            let old_ts = ts;
            bs = bs.push(run_builder);
            ts = ts.push(table_state(*symbol_table));
            assert forall|k: int| 0 <= k < index + 1 implies statement_lowered(
                #[trigger] input@[k],
                frame_ref,
                bs[k],
                ts[k],
                bs[k + 1],
                ts[k + 1],
            ) by {
                if k < index {
                    assert(bs[k] == old_bs[k] && bs[k + 1] == old_bs[k + 1]);
                    assert(ts[k] == old_ts[k] && ts[k + 1] == old_ts[k + 1]);
                }
            }
        }
        index += 1;
    }
    let runs = run_builder.build();
    proof {
        assert(runs_step(input@.len(), t0, b_start, ta, bs, ts, runs@, table_state(*symbol_table)));
    }
    Ok(runs)
}

/// The shape of what generating the block `ir_block` gives, whatever the
/// table it starts from: its name, symbol and location carried over, its
/// runs generated from its statements from one state of the table to
/// another, and its frame size that of the innermost scope's variables in
/// the table reached. Which tables those are, `block_lowered` says.
pub open spec fn frame_generated(ir_block: ir::Block, frame: FrameBlock) -> bool {
    &&& frame.name == ir_block.metadata.name
    &&& frame.symbol == ir_block.symbol
    &&& frame.location == match ir_block.location {
        Some(symbol_table::Location::Global(a)) => Location::Global(a),
        _ => Location::UnresolvedGlobal(ir_block.symbol),
    }
    &&& frame.runs@.len() >= 1
    &&& exists|t0: TableState, t1: TableState|
        #[trigger] runs_generated(ir_block.body@, ir_block.symbol, t0, frame.runs@, t1) && frame.frame_size
            == frame_size_of(scope_variables(t1.0[0]))
}

/// Whether `t0` is the table that the runs of `ir_block` are generated
/// from when the global table is `g`: a function's own scope inside the
/// global one, with the function's frame and the global table's next
/// handle; the global table itself for top-level code.
pub open spec fn block_start(ir_block: ir::Block, g: TableState, t0: TableState) -> bool {
    match ir_block.symbol_table {
        Some(own) => t0.0 == seq![own.scopes()[0], g.0[0]] && t0.1 == own.frame() && t0.2 == g.2,
        None => t0 == g,
    }
}

/// Whether `g1` is the global table once the runs of `ir_block`, generated
/// from the global table `g`, left the table `t1`: for a function, the
/// outer scope of `t1` with its next handle, and the global frame as it
/// was in `g`; for top-level code, `t1` itself.
pub open spec fn block_end(ir_block: ir::Block, g: TableState, t1: TableState, g1: TableState) -> bool {
    match ir_block.symbol_table {
        Some(_) => g1.0 == seq![t1.0[1]] && g1.1 == g.1 && g1.2 == t1.2,
        None => g1 == t1,
    }
}

/// Whether `frame` is what generating the block `ir_block` gives with the
/// global table `g`, which it leaves as `g1`: its runs generated from the
/// table `block_start` says, and its frame size that of the variables of
/// the innermost scope of the table left, none of them without a size.
pub open spec fn block_lowered(ir_block: ir::Block, frame: FrameBlock, g: TableState, g1: TableState) -> bool {
    exists|t0: TableState, t1: TableState|
        #![trigger runs_generated(ir_block.body@, ir_block.symbol, t0, frame.runs@, t1), block_start(ir_block, g, t0)]
        block_start(ir_block, g, t0) && runs_generated(ir_block.body@, ir_block.symbol, t0, frame.runs@, t1)
            && frame.frame_size == frame_size_of(scope_variables(t1.0[0])) && !has_void_variable(t1.0[0])
            && block_end(ir_block, g, t1, g1)
}

/// Whether the first `k` blocks of `ir` are generated in order into
/// `frames`, the global table going from `g0` through `gs`.
pub open spec fn lowered_prefix(ir: Seq<ir::Block>, frames: Seq<FrameBlock>, gs: Seq<TableState>, g0: TableState, k: int) -> bool {
    &&& 0 <= k <= ir.len()
    &&& frames.len() >= k
    &&& gs.len() == k + 1
    &&& gs[0] == g0
    &&& forall|j: int| 0 <= j < k ==> #[trigger] block_lowered(ir[j], frames[j], gs[j], gs[j + 1])
}

/// Whether the blocks `ir` are all generated, in order, into `frames`, the
/// global table starting as `g0` and ending as `g1`.
pub open spec fn all_lowered(ir: Seq<ir::Block>, frames: Seq<FrameBlock>, g0: TableState, g1: TableState) -> bool {
    exists|gs: Seq<TableState>| #[trigger] lowered_prefix(ir, frames, gs, g0, ir.len() as int) && gs[ir.len() as int] == g1
}

/// Whether generating the blocks `ir` with the global table `g0` fails with
/// `x`: the blocks before the `k`th are generated, and the `k`th fails with
/// `x`, as `block_fails_at` says, with the global table they left.
pub open spec fn lowering_fails(ir: Seq<ir::Block>, g0: TableState, x: Error) -> bool {
    exists|gs: Seq<TableState>, frames: Seq<FrameBlock>, k: int|
        #[trigger] lowered_prefix(ir, frames, gs, g0, k) && k < ir.len() && block_fails_at(ir[k], gs[k], x)
}

/// Whether generating the block `ir_block` with the global table `g` fails
/// with `x`: from the table that `block_start` says, its statements fail
/// with `x` as `runs_fail` says, or its runs are generated and leave a
/// variable without a size in the innermost scope, reported at no place.
pub open spec fn block_fails_at(ir_block: ir::Block, g: TableState, x: Error) -> bool {
    exists|t0: TableState|
        #[trigger] block_start(ir_block, g, t0) && (runs_fail(ir_block.body@, ir_block.symbol, t0, x) || exists|
            runs: Seq<RunBlock>,
            t1: TableState,
        | #[trigger] runs_generated(ir_block.body@, ir_block.symbol, t0, runs, t1) && has_void_variable(t1.0[0])
            && unsupported_at(x, SrcTag(usize::MAX)))
}

/// Whether a scope holds a variable without a size.
pub open spec fn has_void_variable(scope: Seq<symbol_table::SymbolEntry>) -> bool {
    exists|k: int|
        0 <= k < scope_variables(scope).len() && type_size((#[trigger] scope_variables(scope)[k]).base_type) is None
}

/// Generates the low-level form of every block, in order: its runs, its
/// location (an address it was placed at, or else a place still to be
/// resolved under its own handle), and its frame size, which the variables
/// of its innermost scope take once its temporaries are made. Functions
/// work in their own scope inside the global one, other blocks in the
/// global scope.
#[verifier::spinoff_prover]
pub fn generate_llir(input: &mut Vec<ir::Block>, global_symbol_table: &mut DefaultSymbolTable) -> (r: Result<Vec<FrameBlock>, Error>)
    ensures
        final(input)@.len() == old(input)@.len(),
        forall|b: int|
            0 <= b < old(input)@.len() ==> #[trigger] final(input)@[b] == (ir::Block {
                symbol_table: final(input)@[b].symbol_table,
                ..old(input)@[b]
            }),
        r matches Ok(blocks) ==> blocks@.len() == old(input)@.len() && forall|b: int|
            0 <= b < blocks@.len() ==> frame_generated(old(input)@[b], #[trigger] blocks@[b]),
        r matches Ok(blocks) ==> all_lowered(
            old(input)@,
            blocks@,
            table_state(*old(global_symbol_table)),
            table_state(*final(global_symbol_table)),
        ),
        r matches Err(x) ==> lowering_fails(old(input)@, table_state(*old(global_symbol_table)), x),
{
    let mut blocks: Vec<FrameBlock> = Vec::new();
    let ghost input0 = input@;
    let ghost mut gs: Seq<TableState> = seq![table_state(*global_symbol_table)];
    let mut index: usize = 0;
    while index < input.len()
        invariant
            input@.len() == input0.len(),
            input0 == old(input)@,
            index <= input@.len(),
            blocks@.len() == index,
            forall|b: int| index <= b < input@.len() ==> input@[b] == input0[b],
            forall|b: int|
                0 <= b < index ==> #[trigger] input@[b] == (ir::Block {
                    symbol_table: input@[b].symbol_table,
                    ..input0[b]
                }),
            forall|b: int| 0 <= b < index ==> frame_generated(input0[b], #[trigger] blocks@[b]),
            lowered_prefix(input0, blocks@, gs, table_state(*old(global_symbol_table)), index as int),
            gs[index as int] == table_state(*global_symbol_table),
        decreases input@.len() - index,
    {
        let ghost before = input@;
        let ghost g = table_state(*global_symbol_table);
        let mut irblock = crate::ir::generator::empty_block();
        core::mem::swap(&mut irblock, &mut input[index]);
        let name = irblock.metadata.name.clone();
        let location = match irblock.location {
            Some(symbol_table::Location::Global(val)) => Location::Global(val),
            None => Location::UnresolvedGlobal(irblock.symbol),
            Some(_) => Location::UnresolvedGlobal(irblock.symbol),
        };
        let mut block = FrameBlock::new(name, irblock.symbol, location);
        let mut own_table: Option<DefaultSymbolTable> = None;
        core::mem::swap(&mut own_table, &mut irblock.symbol_table);
        let ghost mut t_start: TableState = table_state(*global_symbol_table);
        let ghost mut t_end: TableState = table_state(*global_symbol_table);
        let generated = match own_table {
            Some(table) => {
                let mut global = DefaultSymbolTable::new(HandleGenerator::new(), 0);
                core::mem::swap(&mut global, global_symbol_table);
                let ghost own0 = table.scopes()[0];
                let mut wrapper = ParentedSymbolTableWrapper::new(global, table);
                proof {
                    t_start = table_state(wrapper);
                    assert(t_start.0.len() == 2 && t_start.0[0] == own0);
                }
                assert(wrapper.outer_frames() == seq![g.1]);
                let runs = generate_runs(&mut wrapper, irblock.symbol, &irblock.body);
                proof {
                    t_end = table_state(wrapper);
                }
                assert(wrapper.outer_frames() == seq![g.1]);
                let size = frame_size(&wrapper);
                let ghost before_parts = wrapper;
                let (outer, inner) = wrapper.into_parts();
                assert(outer.frame() == g.1) by {
                    assert(before_parts.outer_frames()[0] == g.1);
                    assert(before_parts.outer_frames()[0] == outer.frame());
                }
                *global_symbol_table = outer;
                proof {
                    global_symbol_table.lemma_single_scope();
                    assert(global_symbol_table.scopes() =~= seq![t_end.0[1]]);
                }
                irblock.symbol_table = Some(inner);
                (runs, size)
            },
            None => {
                let runs = generate_runs(global_symbol_table, irblock.symbol, &irblock.body);
                proof {
                    t_end = table_state(*global_symbol_table);
                }
                let size = frame_size(&*global_symbol_table);
                (runs, size)
            },
        };
        core::mem::swap(&mut irblock, &mut input[index]);
        let (runs, size) = generated;
        block.runs = match runs {
            Ok(r) => r,
            Err(x) => {
                proof {
                    assert(input@[index as int].body == input0[index as int].body);
                    assert(runs_fail(input0[index as int].body@, input0[index as int].symbol, t_start, x));
                    assert(block_start(input0[index as int], g, t_start));
                    assert(block_fails_at(input0[index as int], gs[index as int], x));
                    assert(lowered_prefix(input0, blocks@, gs, table_state(*old(global_symbol_table)), index as int));
                }
                return Err(x);
            },
        };
        block.frame_size = match size {
            Ok(s) => s,
            Err(x) => {
                proof {
                    assert(has_void_variable(t_end.0[0]));
                    assert(runs_generated(input0[index as int].body@, input0[index as int].symbol, t_start, block.runs@, t_end));
                    assert(block_start(input0[index as int], g, t_start));
                    assert(block_fails_at(input0[index as int], gs[index as int], x));
                    assert(lowered_prefix(input0, blocks@, gs, table_state(*old(global_symbol_table)), index as int));
                }
                return Err(x);
            },
        };
        proof {
            assert forall|b: int| index < b < input@.len() implies input@[b] == input0[b] by {
                assert(input@[b] == before[b]);
            }
            assert(runs_generated(input0[index as int].body@, block.symbol, t_start, block.runs@, t_end));
            assert(frame_generated(input0[index as int], block));
            assert(block_start(input0[index as int], g, t_start));
            assert(block_end(input0[index as int], g, t_end, table_state(*global_symbol_table)));
            assert(block_lowered(input0[index as int], block, g, table_state(*global_symbol_table)));
        }
        let ghost old_blocks = blocks@;
        let ghost old_gs = gs;
        blocks.push(block);
        proof {
            gs = gs.push(table_state(*global_symbol_table));
            assert forall|j: int| 0 <= j < index + 1 implies #[trigger] block_lowered(
                input0[j],
                blocks@[j],
                gs[j],
                gs[j + 1],
            ) by {
                if j < index {
                    assert(blocks@[j] == old_blocks[j]);
                    assert(gs[j] == old_gs[j] && gs[j + 1] == old_gs[j + 1]);
                    assert(block_lowered(input0[j], old_blocks[j], old_gs[j], old_gs[j + 1]));
                }
            }
        }
        index += 1;
    }
    proof {
        assert(index == old(input)@.len());
        assert(lowered_prefix(old(input)@, blocks@, gs, table_state(*old(global_symbol_table)), old(input)@.len() as int));
        assert(all_lowered(old(input)@, blocks@, table_state(*old(global_symbol_table)), table_state(*global_symbol_table)));
    }
    Ok(blocks)
}

/// The frame size of the innermost scope, once every variable there has a
/// size; a `void` variable has none.
fn frame_size<T: SymbolTable>(symbol_table: &T) -> (r: Result<i8, Error>)
    ensures
        r matches Ok(s) ==> s == frame_size_of(scope_variables(symbol_table.scopes()[0])),
        r is Ok <==> forall|k: int|
            0 <= k < scope_variables(symbol_table.scopes()[0]).len() ==> type_size(
                (#[trigger] scope_variables(symbol_table.scopes()[0])[k]).base_type,
            ) is Some,
        r matches Err(x) ==> x.0 matches ErrorKind::TypeExprError(t, m) && t.0 == usize::MAX
            && m@ == "A variable can't be void"@,
{
    let variables = symbol_table.variables();
    let mut i: usize = 0;
    while i < variables.len()
        invariant
            variables@ == scope_variables(symbol_table.scopes()[0]),
            i <= variables@.len(),
            forall|k: int| 0 <= k < i ==> type_size((#[trigger] variables@[k]).base_type) is Some,
        decreases variables@.len() - i,
    {
        if variables[i].base_type.size().is_none() {
            return Err(unsupported(crate::src_tag::SrcTag::invalid(), "A variable can't be void"));
        }
        i += 1;
    }
    Ok(calculate_frame_size(symbol_table))
}

} // verus!
