//! Additions and subtractions.
use vstd::prelude::*;
use crate::base_type::BaseType;
use crate::error::Error;
use crate::llir::binop::{
    binop_fails, binop_generated, coerced_types, grows, same_size_generated, value_type_of, BinopGenerator,
    TypeCoercer,
};
use crate::llir::block::{
    byte_of_value, has_high_byte, high_byte_of, low_byte_of, splittable, BinaryOpData, CarryMode,
    Location, Statement, Value,
};
use crate::src_tag::SrcTag;
use crate::llir::builder::{table_state, RunBuilder};
use crate::parse::ast::BinaryOperator;
use crate::llir::common::{unsupported, unsupported_at};
use crate::symbol_table::SymbolTable;

verus! {

/// An addition, or a subtraction, to generate.
pub struct AddGenerator {
    pub binop: BinopGenerator,
}

/// The carry that an addition (clear) or subtraction (set) starts with.
pub open spec fn first_carry(subtract: bool) -> CarryMode {
    if subtract {
        CarryMode::SetCarry
    } else {
        CarryMode::ClearCarry
    }
}

/// The statement for `data`: an addition or a subtraction.
pub open spec fn add_statement(subtract: bool, data: BinaryOpData) -> Statement {
    if subtract {
        Statement::Subtract(data)
    } else {
        Statement::Add(data)
    }
}

/// Whether `s` adds (or subtracts) one byte of `left` and `right` into the
/// same byte of `dest`: the high bytes when `high`, else the low ones, with
/// the given carry mode.
pub open spec fn byte_operation(
    s: Statement,
    subtract: bool,
    high: bool,
    tag: SrcTag,
    dest: Location,
    left: Value,
    right: Value,
    carry: CarryMode,
) -> bool {
    &&& if subtract {
        s is Subtract
    } else {
        s is Add
    }
    &&& match s {
        Statement::Add(d) | Statement::Subtract(d) => {
            &&& d.tag == tag
            &&& d.destination == if high {
                high_byte_of(dest)
            } else {
                low_byte_of(dest)
            }
            &&& byte_of_value(high, left, d.left)
            &&& byte_of_value(high, right, d.right)
            &&& d.carry_mode == carry
        },
        _ => false,
    }
}

/// Whether `after` is `before` with one statement appended to its current
/// run, all else unchanged.
pub open spec fn appended_to_current(before: RunBuilder, after: RunBuilder) -> bool {
    &&& grows(before, after)
    &&& after.blocks().len() == before.blocks().len()
    &&& after.current() == before.current()
    &&& forall|i: int|
        0 <= i < before.blocks().len() && i != before.current() ==> after.blocks()[i] == before.blocks()[i]
}

/// The one statement of an 8-bit addition (or subtraction), appended to
/// the current run.
pub open spec fn add8_appended(
    before: RunBuilder,
    after: RunBuilder,
    subtract: bool,
    tag: SrcTag,
    dest: Location,
    left: Value,
    right: Value,
) -> bool {
    &&& appended_to_current(before, after)
    &&& after.blocks()[before.current()].statements@ == before.blocks()[before.current()].statements@.push(
        add_statement(
            subtract,
            BinaryOpData { tag, destination: dest, left, right, carry_mode: first_carry(subtract) },
        ),
    )
}

/// The two statements of a 16-bit addition (or subtraction), appended to
/// the current run: the low bytes first, with the starting carry, then the
/// high bytes, with the carry that the low bytes left.
pub open spec fn add16_appended(
    before: RunBuilder,
    after: RunBuilder,
    subtract: bool,
    tag: SrcTag,
    dest: Location,
    left: Value,
    right: Value,
) -> bool {
    let old_run = before.blocks()[before.current()].statements@;
    let new_run = after.blocks()[before.current()].statements@;
    &&& appended_to_current(before, after)
    &&& new_run.len() == old_run.len() + 2
    &&& new_run.subrange(0, old_run.len() as int) == old_run
    &&& byte_operation(new_run[old_run.len() as int], subtract, false, tag, dest, left, right, first_carry(subtract))
    &&& byte_operation(new_run[old_run.len() + 1int], subtract, true, tag, dest, left, right, CarryMode::DontCare)
}

impl AddGenerator {
    pub fn new(binop: BinopGenerator) -> (r: AddGenerator)
        ensures
            r.binop == binop,
    {
        AddGenerator { binop }
    }

    /// Generates the operation once its operands have the same type: one
    /// statement for 8-bit operands, two (low byte first, carrying into the
    /// high byte) for 16-bit ones. Fails when the operands' types differ or
    /// do not match the destination's.
    pub fn generate<T: SymbolTable>(self, run_builder: &mut RunBuilder, symbol_table: &mut T, subtract: bool) -> (r: Result<(), Error>)
        requires
            old(run_builder).wf(),
        ensures
            final(symbol_table).outer_frames() == old(symbol_table).outer_frames(),
            r matches Err(x) ==> unsupported_at(x, self.binop.src_tag),
            grows(*old(run_builder), *final(run_builder)),
            r is Ok ==> {
                let ct = coerced_types(
                    value_type_of(self.binop.left_value),
                    value_type_of(self.binop.right_value),
                );
                ct.0 == ct.1 && ct.0 == self.binop.dest_type && (ct.0 == BaseType::U8 || ct.0
                    == BaseType::U16)
            },
            ({
                let lt = value_type_of(self.binop.left_value);
                let rt = value_type_of(self.binop.right_value);
                &&& (lt == BaseType::U8 && rt == BaseType::U8 && self.binop.dest_type == BaseType::U8)
                    ==> r is Ok && *final(symbol_table) == *old(symbol_table) && add8_appended(
                    *old(run_builder),
                    *final(run_builder),
                    subtract,
                    self.binop.src_tag,
                    self.binop.dest,
                    self.binop.left_value,
                    self.binop.right_value,
                )
                &&& (lt == BaseType::U16 && rt == BaseType::U16 && self.binop.dest_type == BaseType::U16
                    && splittable(self.binop.left_value) && splittable(self.binop.right_value)
                    && has_high_byte(self.binop.dest)) ==> r is Ok && *final(symbol_table) == *old(symbol_table)
                    && add16_appended(
                    *old(run_builder),
                    *final(run_builder),
                    subtract,
                    self.binop.src_tag,
                    self.binop.dest,
                    self.binop.left_value,
                    self.binop.right_value,
                )
            }),
            r is Err ==> binop_fails(
                self.binop,
                if subtract {
                    BinaryOperator::Sub
                } else {
                    BinaryOperator::Add
                },
                *old(run_builder),
                table_state(*old(symbol_table)),
            ),
            r is Ok ==> binop_generated(
                self.binop,
                if subtract {
                    BinaryOperator::Sub
                } else {
                    BinaryOperator::Add
                },
                *old(run_builder),
                table_state(*old(symbol_table)),
                *final(run_builder),
                table_state(*final(symbol_table)),
            ),
    {
        let ghost op = if subtract {
            BinaryOperator::Sub
        } else {
            BinaryOperator::Add
        };
        let coercer = TypeCoercer::new(self.binop.frame_ref, self.binop.src_tag);
        let (actual_left, actual_right) = match coercer.coerce_values_to_same_types(
            run_builder,
            symbol_table,
            &self.binop.left_value,
            &self.binop.right_value,
        ) {
            Ok(pair) => pair,
            Err(x) => {
                return Err(x);
            },
        };
        let ghost bm = *run_builder;
        let ghost tm = table_state(*symbol_table);
        let ghost coerced_op = BinopGenerator { left_value: actual_left, right_value: actual_right, ..self.binop };
        let left_type = actual_left.value_type();
        if left_type.same_as(&BaseType::U16) {
            if !self.binop.dest_type.same_as(&BaseType::U16) {
                return Err(unsupported(self.binop.src_tag, "Can't store a u16 result into a u8"));
            }
            if !actual_left.is_splittable() || !actual_right.is_splittable()
                || !self.binop.dest.has_high_byte() {
                return Err(unsupported(self.binop.src_tag, "Can't split these operands into bytes"));
            }
            self.generate_16x16_into_16(run_builder, &actual_left, &actual_right, subtract);
            proof {
                assert(same_size_generated(coerced_op, op, bm, tm, *run_builder, table_state(*symbol_table)));
            }
            Ok(())
        } else if left_type.same_as(&BaseType::U8) {
            if !self.binop.dest_type.same_as(&BaseType::U8) {
                return Err(unsupported(self.binop.src_tag, "Can't store a u8 result into a u16"));
            }
            self.generate_8x8_into_8(run_builder, &actual_left, &actual_right, subtract);
            proof {
                assert(same_size_generated(coerced_op, op, bm, tm, *run_builder, table_state(*symbol_table)));
            }
            Ok(())
        } else {
            Err(unsupported(self.binop.src_tag, "Can only add and subtract u8 and u16 values"))
        }
    }

    /// Appends `dest = left op right` over both bytes: the low bytes first,
    /// with the starting carry, then the high bytes, with the carry that the
    /// low bytes left.
    pub fn generate_16x16_into_16(&self, run_builder: &mut RunBuilder, left_value: &Value, right_value: &Value, subtract: bool)
        requires
            old(run_builder).wf(),
            splittable(*left_value),
            splittable(*right_value),
            has_high_byte(self.binop.dest),
        ensures
            add16_appended(
                *old(run_builder),
                *final(run_builder),
                subtract,
                self.binop.src_tag,
                self.binop.dest,
                *left_value,
                *right_value,
            ),
    {
        let first_op = BinaryOpData::new(
            self.binop.src_tag,
            self.binop.dest.low_byte(),
            Value::low_byte(left_value),
            Value::low_byte(right_value),
            if subtract {
                CarryMode::SetCarry
            } else {
                CarryMode::ClearCarry
            },
        );
        let second_op = BinaryOpData::new(
            self.binop.src_tag,
            self.binop.dest.high_byte(),
            Value::high_byte(left_value),
            Value::high_byte(right_value),
            CarryMode::DontCare,
        );
        let current = run_builder.current_block().block_ref;
        if subtract {
            run_builder.add_statement(current, Statement::Subtract(first_op));
            run_builder.add_statement(current, Statement::Subtract(second_op));
        } else {
            run_builder.add_statement(current, Statement::Add(first_op));
            run_builder.add_statement(current, Statement::Add(second_op));
        }
        proof {
            let c = old(run_builder).current();
            let before = old(run_builder).blocks()[c].statements@;
            let after = run_builder.blocks()[c].statements@;
            assert(after.subrange(0, before.len() as int) =~= before);
            assert(before.is_prefix_of(after));
        }
    }

    /// Appends `dest = left op right` for one byte.
    pub fn generate_8x8_into_8(&self, run_builder: &mut RunBuilder, left_value: &Value, right_value: &Value, subtract: bool)
        requires
            old(run_builder).wf(),
        ensures
            add8_appended(
                *old(run_builder),
                *final(run_builder),
                subtract,
                self.binop.src_tag,
                self.binop.dest,
                *left_value,
                *right_value,
            ),
    {
        let bin_op_data = BinaryOpData::new(
            self.binop.src_tag,
            self.binop.dest.clone_location(),
            left_value.clone_value(),
            right_value.clone_value(),
            if subtract {
                CarryMode::SetCarry
            } else {
                CarryMode::ClearCarry
            },
        );
        let current = run_builder.current_block().block_ref;
        run_builder.add_statement(
            current,
            if subtract {
                Statement::Subtract(bin_op_data)
            } else {
                Statement::Add(bin_op_data)
            },
        );
    }
}

} // verus!
