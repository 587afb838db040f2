//! Low-level code for binary operations.
use vstd::prelude::*;
use crate::base_type::{chosen_type, BaseType};
use crate::error::Error;
use crate::llir::block::{
    has_high_byte, high_byte_of, splittable, CopyData, ImmediateValue, Location, MemoryData, RunBlock, Statement, Value,
};
use crate::llir::generator::{appended, named_as, temporary_made};
use crate::llir::builder::{runs_labelled, table_state, RunBuilder, TableState};
use crate::llir::common::{convert_location, unsupported, unsupported_at};
use crate::parse::ast::{arithmetic, BinaryOperator};
use crate::src_tag::SrcTag;
use crate::symbol_table::{SymbolRef, SymbolTable};
use crate::text::push_str;

pub mod add;
pub mod compare;

verus! {

/// A binary operation to generate: `dest = left op right`, where `dest`
/// holds a value of type `dest_type`.
pub struct BinopGenerator {
    pub frame_ref: SymbolRef,
    pub src_tag: SrcTag,
    pub dest_type: BaseType,
    pub dest: Location,
    pub left_value: Value,
    pub right_value: Value,
}

/// Whether a builder keeps its runs and only grows: the runs before stay
/// (their statements may grow) and the builder stays well formed.
pub open spec fn grows(before: RunBuilder, after: RunBuilder) -> bool {
    &&& after.wf()
    &&& after.blocks().len() >= before.blocks().len()
    &&& forall|i: int| 0 <= i < before.blocks().len() ==> kept_run(#[trigger] before.blocks()[i], after.blocks()[i])
}

/// Whether run `b` is run `a` with statements added after its own.
pub open spec fn kept_run(a: RunBlock, b: RunBlock) -> bool {
    &&& a.name == b.name
    &&& a.symbol == b.symbol
    &&& a.statements@.is_prefix_of(b.statements@)
}

/// Growing twice is growing.
pub proof fn lemma_grows_trans(a: RunBuilder, b: RunBuilder, c: RunBuilder)
    requires
        grows(a, b),
        grows(b, c),
    ensures
        grows(a, c),
{
    assert forall|i: int| 0 <= i < a.blocks().len() implies kept_run(#[trigger] a.blocks()[i], c.blocks()[i]) by {
        assert(kept_run(a.blocks()[i], b.blocks()[i]));
        assert(kept_run(b.blocks()[i], c.blocks()[i]));
        let sa = a.blocks()[i].statements@;
        let sb = b.blocks()[i].statements@;
        let sc = c.blocks()[i].statements@;
        assert(sa =~= sc.subrange(0, sa.len() as int));
    }
}

/// Adding a statement to one run grows the builder.
pub proof fn lemma_added_statement_grows(before: RunBuilder, after: RunBuilder, k: int, statement: Statement)
    requires
        after.wf(),
        0 <= k < before.blocks().len(),
        after.blocks().len() == before.blocks().len(),
        forall|i: int| 0 <= i < before.blocks().len() && i != k ==> after.blocks()[i] == before.blocks()[i],
        after.blocks()[k].name == before.blocks()[k].name,
        after.blocks()[k].symbol == before.blocks()[k].symbol,
        after.blocks()[k].statements@ == before.blocks()[k].statements@.push(statement),
    ensures
        grows(before, after),
{
    let s = before.blocks()[k].statements@;
    assert(s =~= s.push(statement).subrange(0, s.len() as int));
}

/// A builder grows from itself.
pub proof fn lemma_grows_refl(b: RunBuilder)
    requires
        b.wf(),
    ensures
        grows(b, b),
{
    assert forall|i: int| 0 <= i < b.blocks().len() implies kept_run(#[trigger] b.blocks()[i], b.blocks()[i]) by {
        let s = b.blocks()[i].statements@;
        assert(s =~= s.subrange(0, s.len() as int));
    }
}

/// Whether both operands and the destination have the same 8-bit type.
pub open spec fn byte_operands(g: BinopGenerator) -> bool {
    &&& value_type_of(g.left_value) == BaseType::U8
    &&& value_type_of(g.right_value) == BaseType::U8
    &&& g.dest_type == BaseType::U8
}

/// Whether both operands and the destination have the same 16-bit type and
/// both operands can be split into bytes.
pub open spec fn word_operands(g: BinopGenerator) -> bool {
    &&& value_type_of(g.left_value) == BaseType::U16
    &&& value_type_of(g.right_value) == BaseType::U16
    &&& g.dest_type == BaseType::U16
    &&& splittable(g.left_value)
    &&& splittable(g.right_value)
}

/// Whether the operation surely succeeds: operands of one size, an
/// addition or subtraction into a destination whose bytes can be named, or
/// a comparison.
pub open spec fn binop_ready(g: BinopGenerator, op: BinaryOperator) -> bool {
    ||| (op is Add || op is Sub) && (byte_operands(g) || word_operands(g) && has_high_byte(g.dest))
    ||| !arithmetic(op) && (byte_operands(g) || word_operands(g))
}

/// What an operation whose operands have one size adds to the runs and the
/// table, from `b0` and `t0` to `b1` and `t1`: an addition or subtraction
/// appends its statements to the current run and leaves the table as it
/// is; a comparison adds its labelled runs, its operands in the order that
/// `comparison_plan` says.
pub open spec fn same_size_generated(
    g: BinopGenerator,
    op: BinaryOperator,
    b0: RunBuilder,
    t0: TableState,
    b1: RunBuilder,
    t1: TableState,
) -> bool {
    let plan = compare::comparison_plan(op);
    let first = if plan.0 {
        g.right_value
    } else {
        g.left_value
    };
    let second = if plan.0 {
        g.left_value
    } else {
        g.right_value
    };
    &&& (op is Add || op is Sub) && byte_operands(g) ==> t1 == t0 && add::add8_appended(
        b0,
        b1,
        op is Sub,
        g.src_tag,
        g.dest,
        g.left_value,
        g.right_value,
    )
    &&& (op is Add || op is Sub) && word_operands(g) && has_high_byte(g.dest) ==> t1 == t0
        && add::add16_appended(b0, b1, op is Sub, g.src_tag, g.dest, g.left_value, g.right_value)
    &&& !arithmetic(op) && byte_operands(g) ==> runs_labelled(t0, t1, b0, b1) && compare::compare8_added(
        b0,
        b1,
        g.src_tag,
        g.dest,
        first,
        second,
        plan.1,
        plan.2,
    )
    &&& !arithmetic(op) && word_operands(g) ==> runs_labelled(t0, t1, b0, b1) && compare::compare16_added(
        b0,
        b1,
        g.src_tag,
        g.dest,
        first,
        second,
        plan.1,
        plan.2,
    )
}

/// What bringing an operand `v` to `u16` does, from `b0` and `t0` to `b1`
/// and `t1`, when `widen` asks for it: an 8-bit operand is copied into a
/// new 16-bit temporary, high byte zero, which it becomes; any other
/// operand, or any operand when `widen` is false, stays as it is and
/// nothing changes.
pub open spec fn converted(
    frame_ref: SymbolRef,
    tag: SrcTag,
    widen: bool,
    b0: RunBuilder,
    t0: TableState,
    v: Value,
    b1: RunBuilder,
    t1: TableState,
    out: Value,
) -> bool {
    if widen && value_type_of(v) == BaseType::U8 {
        let temp = Location::FrameOffset(frame_ref, t0.1);
        &&& temporary_made(t0, t1, BaseType::U16)
        &&& appended(
            b0,
            b1,
            seq![
                Statement::Copy(
                    CopyData {
                        tag,
                        destination: high_byte_of(temp),
                        value: Value::Immediate(BaseType::U8, ImmediateValue::Number(0)),
                    },
                ),
                Statement::Copy(CopyData { tag, destination: temp, value: v }),
            ],
        )
        &&& out matches Value::Memory(m) && m.base_type == BaseType::U16 && m.location == temp && named_as(
            m.debug,
            "tmp_u8_to_u16"@,
        )
    } else {
        &&& b1 == b0
        &&& t1 == t0
        &&& out == v
    }
}

/// Whether bringing the operands `lv` and `rv` to one type, from `b0` and
/// `t0`, gives `left` and `right` and reaches `b1` and `t1`: when their types
/// choose `u16`, the left operand and then the right one are brought to it,
/// as `converted` says.
pub open spec fn coerced(
    frame_ref: SymbolRef,
    tag: SrcTag,
    lv: Value,
    rv: Value,
    b0: RunBuilder,
    t0: TableState,
    b1: RunBuilder,
    t1: TableState,
    left: Value,
    right: Value,
) -> bool {
    let widen = chosen_type(value_type_of(lv), value_type_of(rv)) == Some(BaseType::U16);
    exists|bx: RunBuilder, tx: TableState|
        #![trigger converted(frame_ref, tag, widen, b0, t0, lv, bx, tx, left)]
        converted(frame_ref, tag, widen, b0, t0, lv, bx, tx, left) && converted(
            frame_ref,
            tag,
            widen,
            bx,
            tx,
            rv,
            b1,
            t1,
            right,
        )
}

/// What an operation adds to the runs and the table, from `b0` and `t0` to
/// `b1` and `t1`: operands of one size as `same_size_generated` says;
/// operands of different sizes are first brought to one type, as `coerced`
/// says, and the operation on what they became is generated from there.
pub open spec fn binop_generated(
    g: BinopGenerator,
    op: BinaryOperator,
    b0: RunBuilder,
    t0: TableState,
    b1: RunBuilder,
    t1: TableState,
) -> bool {
    &&& grows(b0, b1)
    &&& same_size_generated(g, op, b0, t0, b1, t1)
    &&& value_type_of(g.left_value) != value_type_of(g.right_value) ==> exists|
        bm: RunBuilder,
        tm: TableState,
        left: Value,
        right: Value,
    |
        #[trigger] coerced(g.frame_ref, g.src_tag, g.left_value, g.right_value, b0, t0, bm, tm, left, right)
            && same_size_generated(
            BinopGenerator { left_value: left, right_value: right, ..g },
            op,
            bm,
            tm,
            b1,
            t1,
        )
}

/// Whether an operation whose operands have one type is refused: an
/// addition or subtraction whose operands and destination are not all
/// 8-bit, nor all 16-bit with operands and destination that split into
/// bytes; a comparison whose operands and destination are not all 8-bit,
/// nor all 16-bit with operands that split into bytes.
pub open spec fn same_size_refused(g: BinopGenerator, op: BinaryOperator) -> bool {
    if op is Add || op is Sub {
        !(byte_operands(g) || word_operands(g) && has_high_byte(g.dest))
    } else {
        !(byte_operands(g) || word_operands(g))
    }
}

/// Whether generating the operation from `b0` and `t0` fails:
/// multiplication and division are not supported; operands that cannot be
/// brought to one type are refused; otherwise, once they are brought to
/// one type as `coerced` says, the operation on what they became is refused
/// as `same_size_refused` says.
pub open spec fn binop_fails(g: BinopGenerator, op: BinaryOperator, b0: RunBuilder, t0: TableState) -> bool {
    let ct = coerced_types(value_type_of(g.left_value), value_type_of(g.right_value));
    ||| op is Mul || op is Div
    ||| ct.0 != ct.1
    ||| exists|bm: RunBuilder, tm: TableState, left: Value, right: Value|
        #[trigger] coerced(g.frame_ref, g.src_tag, g.left_value, g.right_value, b0, t0, bm, tm, left, right)
            && same_size_refused(BinopGenerator { left_value: left, right_value: right, ..g }, op)
}

impl BinopGenerator {
    pub fn new(
        frame_ref: SymbolRef,
        src_tag: SrcTag,
        dest_type: BaseType,
        dest: Location,
        left_value: Value,
        right_value: Value,
    ) -> (r: BinopGenerator)
        ensures
            r.frame_ref == frame_ref,
            r.src_tag == src_tag,
            r.dest_type == dest_type,
            r.dest == dest,
            r.left_value == left_value,
            r.right_value == right_value,
    {
        BinopGenerator { frame_ref, src_tag, dest_type, dest, left_value, right_value }
    }

    /// Generates the operation: additions and subtractions as such,
    /// comparisons as branches that store 1 or 0; multiplication and
    /// division are not supported.
    pub fn generate<T: SymbolTable>(self, run_builder: &mut RunBuilder, symbol_table: &mut T, op: BinaryOperator) -> (r: Result<(), Error>)
        requires
            old(run_builder).wf(),
        ensures
            final(symbol_table).outer_frames() == old(symbol_table).outer_frames(),
            r matches Err(x) ==> unsupported_at(x, self.src_tag),
            grows(*old(run_builder), *final(run_builder)),
            (op is Mul || op is Div) ==> r is Err,
            binop_ready(self, op) ==> r is Ok,
            r is Err ==> binop_fails(self, op, *old(run_builder), table_state(*old(symbol_table))),
            r is Ok ==> binop_generated(
                self,
                op,
                *old(run_builder),
                table_state(*old(symbol_table)),
                *final(run_builder),
                table_state(*final(symbol_table)),
            ),
    {
        match op {
            BinaryOperator::Add => add::AddGenerator::new(self).generate(run_builder, symbol_table, false),
            BinaryOperator::Sub => add::AddGenerator::new(self).generate(run_builder, symbol_table, true),
            BinaryOperator::Mul | BinaryOperator::Div => Err(unsupported(self.src_tag, "Multiplication and division are not supported")),
            _ => compare::CompareGenerator::new(self).generate(run_builder, symbol_table, op),
        }
    }
}

/// Brings two operands to the same type, copying an 8-bit operand into a
/// 16-bit temporary when the other is 16 bits wide.
pub struct TypeCoercer {
    pub frame_ref: SymbolRef,
    pub src_tag: SrcTag,
}

/// The types the operands of an operation take: when their types choose
/// `u16`, a `u8` operand becomes a `u16`.
pub open spec fn coerced_types(lt: BaseType, rt: BaseType) -> (BaseType, BaseType) {
    if chosen_type(lt, rt) == Some(BaseType::U16) {
        (
            if lt == BaseType::U8 {
                BaseType::U16
            } else {
                lt
            },
            if rt == BaseType::U8 {
                BaseType::U16
            } else {
                rt
            },
        )
    } else {
        (lt, rt)
    }
}

impl TypeCoercer {
    pub fn new(frame_ref: SymbolRef, src_tag: SrcTag) -> (r: TypeCoercer)
        ensures
            r.frame_ref == frame_ref,
            r.src_tag == src_tag,
    {
        TypeCoercer { frame_ref, src_tag }
    }

    /// Brings the operands to the same type; fails when they still differ.
    pub fn coerce_values_to_same_types<T: SymbolTable>(
        &self,
        run_builder: &mut RunBuilder,
        symbol_table: &mut T,
        left_value: &Value,
        right_value: &Value,
    ) -> (r: Result<(Value, Value), Error>)
        requires
            old(run_builder).wf(),
        ensures
            final(symbol_table).outer_frames() == old(symbol_table).outer_frames(),
            r matches Err(x) ==> unsupported_at(x, self.src_tag),
            grows(*old(run_builder), *final(run_builder)),
            match r {
                Ok((l, r2)) => {
                    let ct = coerced_types(value_type_of(*left_value), value_type_of(*right_value));
                    &&& value_type_of(l) == ct.0
                    &&& value_type_of(r2) == ct.1
                    &&& ct.0 == ct.1
                    &&& (ct.0 == value_type_of(*left_value) ==> l == *left_value)
                    &&& (ct.1 == value_type_of(*right_value) ==> r2 == *right_value)
                },
                Err(_) => {
                    let ct = coerced_types(value_type_of(*left_value), value_type_of(*right_value));
                    ct.0 != ct.1
                },
            },
            coerced_types(value_type_of(*left_value), value_type_of(*right_value)) == (
                value_type_of(*left_value),
                value_type_of(*right_value),
            ) ==> *final(run_builder) == *old(run_builder) && *final(symbol_table) == *old(symbol_table),
            r matches Ok((l, r2)) ==> coerced(
                self.frame_ref,
                self.src_tag,
                *left_value,
                *right_value,
                *old(run_builder),
                table_state(*old(symbol_table)),
                *final(run_builder),
                table_state(*final(symbol_table)),
                l,
                r2,
            ),
    {
        let ghost b0 = *run_builder;
        let ghost t0 = table_state(*symbol_table);
        let left_type = left_value.value_type();
        let right_type = right_value.value_type();
        let ghost widen = chosen_type(left_type, right_type) == Some(BaseType::U16);
        let mut actual_left = left_value.clone_value();
        let mut actual_right = right_value.clone_value();
        let ghost mut bx = b0;
        let ghost mut tx = t0;
        if let Some(chosen) = BaseType::choose_type(&left_type, &right_type) {
            if chosen.same_as(&BaseType::U16) {
                if left_type.same_as(&BaseType::U8) {
                    actual_left = self.convert_u8_into_u16(run_builder, symbol_table, left_value);
                }
                proof {
                    bx = *run_builder;
                    tx = table_state(*symbol_table);
                }
                if right_type.same_as(&BaseType::U8) {
                    actual_right = self.convert_u8_into_u16(run_builder, symbol_table, right_value);
                }
            }
        }
        proof {
            assert(converted(self.frame_ref, self.src_tag, widen, b0, t0, *left_value, bx, tx, actual_left));
            assert(converted(
                self.frame_ref,
                self.src_tag,
                widen,
                bx,
                tx,
                *right_value,
                *run_builder,
                table_state(*symbol_table),
                actual_right,
            ));
        }
        if !actual_left.value_type().same_as(&actual_right.value_type()) {
            return Err(unsupported(self.src_tag, "Can't operate on values of different types"));
        }
        Ok((actual_left, actual_right))
    }

    /// Copies an 8-bit value into a new 16-bit temporary, with a zero high
    /// byte.
    pub fn convert_u8_into_u16<T: SymbolTable>(&self, run_builder: &mut RunBuilder, symbol_table: &mut T, value: &Value) -> (r: Value)
        requires
            old(run_builder).wf(),
            value_type_of(*value) == BaseType::U8,
        ensures
            final(symbol_table).outer_frames() == old(symbol_table).outer_frames(),
            grows(*old(run_builder), *final(run_builder)),
            converted(
                self.frame_ref,
                self.src_tag,
                true,
                *old(run_builder),
                table_state(*old(symbol_table)),
                *value,
                *final(run_builder),
                table_state(*final(symbol_table)),
                r,
            ),
    {
        let ghost b0 = *run_builder;
        let ghost t0 = table_state(*symbol_table);
        let temp_addr = convert_location(self.frame_ref, &symbol_table.create_temporary_location(&BaseType::U16));
        proof {
            assert(temporary_made(t0, table_state(*symbol_table), BaseType::U16));
        }
        let current = run_builder.current_block().block_ref;
        let first = Statement::Copy(
            CopyData::new(
                self.src_tag,
                temp_addr.high_byte(),
                Value::Immediate(BaseType::U8, ImmediateValue::Number(0)),
            ),
        );
        let second = Statement::Copy(CopyData::new(self.src_tag, temp_addr.low_byte(), value.clone_value()));
        let ghost added = seq![first, second];
        run_builder.add_statement(current, first);
        run_builder.add_statement(current, second);
        proof {
            let c = b0.current();
            assert(run_builder.blocks()[c].statements@ =~= b0.blocks()[c].statements@ + added);
            assert(appended(b0, *run_builder, added));
        }
        let mut name = String::new();
        push_str(&mut name, "tmp_u8_to_u16");
        proof {
            assert(name@ =~= "tmp_u8_to_u16"@);
        }
        Value::Memory(MemoryData::new(BaseType::U16, temp_addr, Some(name)))
    }
}

/// The type of a value.
pub open spec fn value_type_of(v: Value) -> BaseType {
    match v {
        Value::Immediate(t, _) => t,
        Value::Memory(m) => m.base_type,
    }
}

} // verus!
