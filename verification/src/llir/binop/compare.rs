//! Comparisons, which store 1 when they hold and 0 when they do not.
use vstd::prelude::*;
use crate::base_type::BaseType;
use crate::error::Error;
use crate::llir::binop::{
    binop_fails, binop_generated, byte_operands, coerced_types, grows, same_size_generated, value_type_of, BinopGenerator,
    TypeCoercer,
};
use crate::llir::block::{
    byte_of_value, splittable, BranchFlag, CompareBranchData, CopyData, GoToData, ImmediateValue,
    Location, Statement, Value,
};
use crate::src_tag::SrcTag;
use crate::symbol_table::SymbolRef;
use crate::llir::builder::{
    lemma_names_kept_trans, lemma_runs_labelled_none, lemma_runs_labelled_trans, names_kept, runs_labelled,
    table_state, RunBuilder,
};
use crate::llir::common::{unsupported, unsupported_at};
use crate::parse::ast::{arithmetic, BinaryOperator};
use crate::symbol_table::SymbolTable;

verus! {

/// A comparison to generate.
pub struct CompareGenerator {
    pub binop: BinopGenerator,
}

/// The immediate byte for a truth value: 1 or 0.
pub open spec fn bool_value(value: bool) -> Value {
    Value::Immediate(BaseType::U8, ImmediateValue::Number(if value { 1 } else { 0 }))
}

/// How a comparison is made: whether its operands swap, the flag it
/// branches on, and the value it stores when the flag is set.
pub open spec fn comparison_plan(op: BinaryOperator) -> (bool, BranchFlag, bool) {
    match op {
        BinaryOperator::LessThan => (false, BranchFlag::Carry, false),
        BinaryOperator::GreaterThan => (true, BranchFlag::Carry, false),
        BinaryOperator::LessThanEqual => (true, BranchFlag::Carry, true),
        BinaryOperator::GreaterThanEqual => (false, BranchFlag::Carry, true),
        BinaryOperator::Equal => (false, BranchFlag::Zero, true),
        _ => (false, BranchFlag::Zero, false),
    }
}

/// Whether `s` compares one byte of `left` with the same byte of `right`
/// (the high bytes when `high`, else the low ones) and branches to
/// `clear_target` when the flag is clear.
pub open spec fn byte_comparison(
    s: Statement,
    high: bool,
    tag: SrcTag,
    left: Value,
    right: Value,
    flag: BranchFlag,
    clear_target: SymbolRef,
) -> bool {
    match s {
        Statement::CompareBranch(d) => {
            &&& d.tag == tag
            &&& byte_of_value(high, left, d.left)
            &&& byte_of_value(high, right, d.right)
            &&& d.branch_flag == flag
            &&& d.branch_set is None
            &&& d.branch_clear == Some(clear_target)
        },
        _ => false,
    }
}

/// The four runs that an 8-bit comparison adds after the builder's runs:
/// one compares and branches to the third when the flag is set; the second
/// stores the value for a clear flag and jumps to the fourth; the third
/// stores the value for a set flag; the fourth, empty, becomes current.
pub open spec fn compare8_added(
    before: RunBuilder,
    after: RunBuilder,
    tag: SrcTag,
    dest: Location,
    left: Value,
    right: Value,
    flag: BranchFlag,
    set_value: bool,
) -> bool {
    let n = before.blocks().len() as int;
    let b = after.blocks();
    &&& grows(before, after)
    &&& b.len() == n + 4
    &&& b[n].statements@ == seq![
        Statement::CompareBranch(
            CompareBranchData {
                tag,
                left,
                right,
                branch_flag: flag,
                branch_set: Some(b[n + 2].symbol),
                branch_clear: None,
            },
        ),
    ]
    &&& b[n + 1].statements@ == seq![
        Statement::Copy(CopyData { tag, destination: dest, value: bool_value(!set_value) }),
        Statement::GoTo(GoToData { tag, destination: b[n + 3].symbol }),
    ]
    &&& b[n + 2].statements@ == seq![
        Statement::Copy(CopyData { tag, destination: dest, value: bool_value(set_value) }),
    ]
    &&& b[n + 3].statements@.len() == 0
    &&& after.current() == n + 3
}

/// The five runs that a 16-bit comparison adds after the builder's runs:
/// the first two compare the high bytes, then the low bytes, and branch to
/// the fourth when the flag is clear; the third stores the value for a set
/// flag and jumps to the fifth; the fourth stores the value for a clear
/// flag; the fifth, empty, becomes current.
pub open spec fn compare16_added(
    before: RunBuilder,
    after: RunBuilder,
    tag: SrcTag,
    dest: Location,
    left: Value,
    right: Value,
    flag: BranchFlag,
    set_value: bool,
) -> bool {
    let n = before.blocks().len() as int;
    let b = after.blocks();
    &&& grows(before, after)
    &&& b.len() == n + 5
    &&& b[n].statements@.len() == 1
    &&& byte_comparison(b[n].statements@[0], true, tag, left, right, flag, b[n + 3].symbol)
    &&& b[n + 1].statements@.len() == 1
    &&& byte_comparison(b[n + 1].statements@[0], false, tag, left, right, flag, b[n + 3].symbol)
    &&& b[n + 2].statements@ == seq![
        Statement::Copy(CopyData { tag, destination: dest, value: bool_value(set_value) }),
        Statement::GoTo(GoToData { tag, destination: b[n + 4].symbol }),
    ]
    &&& b[n + 3].statements@ == seq![
        Statement::Copy(CopyData { tag, destination: dest, value: bool_value(!set_value) }),
    ]
    &&& b[n + 4].statements@.len() == 0
    &&& after.current() == n + 4
}

/// What comparing the byte `x` with the byte `y` leaves in a flag, as the
/// 6502's compare does with `x` in the accumulator: the carry is set when
/// `x - y` needs no borrow (`x >= y`), zero when they are equal.
pub open spec fn flag_after_compare(flag: BranchFlag, x: int, y: int) -> bool {
    match flag {
        BranchFlag::Carry => x >= y,
        BranchFlag::Zero => x == y,
    }
}

/// Whether the comparison `op` holds between the numbers `a` and `b`.
pub open spec fn comparison_holds(op: BinaryOperator, a: int, b: int) -> bool {
    match op {
        BinaryOperator::LessThan => a < b,
        BinaryOperator::GreaterThan => a > b,
        BinaryOperator::LessThanEqual => a <= b,
        BinaryOperator::GreaterThanEqual => a >= b,
        BinaryOperator::Equal => a == b,
        BinaryOperator::NotEqual => a != b,
        _ => false,
    }
}

/// The value that the runs of a comparison, added to `runs` from the `n`th
/// on, store when the value `left` holds `a` and the value `right` holds
/// `b`: the first of them compares and goes to the run its set target names
/// when its flag is set, and on to the next run otherwise; the run reached
/// begins by copying the value stored.
pub open spec fn comparison_stores(runs: RunBuilder, n: int, left: Value, right: Value, a: int, b: int) -> Option<Value> {
    let blocks = runs.blocks();
    match blocks[n].statements@[0] {
        Statement::CompareBranch(d) => {
            let x = if d.left == left { a } else { b };
            let y = if d.right == right { b } else { a };
            let reached = if flag_after_compare(d.branch_flag, x, y) && d.branch_set == Some(blocks[n + 2].symbol) {
                n + 2
            } else {
                n + 1
            };
            match blocks[reached].statements@[0] {
                Statement::Copy(c) => Some(c.value),
                _ => None,
            }
        },
        _ => None,
    }
}

/// An 8-bit comparison stores 1 exactly when it holds between the numbers
/// its operands hold, and 0 otherwise: `<` when left is below right, `<=`
/// when it is not above (so 1 for equal operands), and so on, for every pair
/// of bytes (equal ones where both operands are one value).
pub proof fn lemma_byte_comparison_holds(
    g: BinopGenerator,
    op: BinaryOperator,
    b0: RunBuilder,
    t0: crate::llir::builder::TableState,
    b1: RunBuilder,
    t1: crate::llir::builder::TableState,
    a: u8,
    b: u8,
)
    requires
        !arithmetic(op),
        byte_operands(g),
        crate::llir::binop::same_size_generated(g, op, b0, t0, b1, t1),
        g.left_value == g.right_value ==> a == b,
    ensures
        comparison_stores(b1, b0.blocks().len() as int, g.left_value, g.right_value, a as int, b as int) == Some(
            bool_value(comparison_holds(op, a as int, b as int)),
        ),
{
    let n = b0.blocks().len() as int;
    let blocks = b1.blocks();
    assert(blocks[n].statements@[0] is CompareBranch);
    assert(blocks[n + 1].statements@[0] is Copy);
    assert(blocks[n + 2].statements@[0] is Copy);
}

fn imm_bool(value: bool) -> (r: Value)
    ensures
        r == bool_value(value),
{
    Value::Immediate(BaseType::U8, ImmediateValue::Number(if value { 1 } else { 0 }))
}

impl CompareGenerator {
    pub fn new(binop: BinopGenerator) -> (r: CompareGenerator)
        ensures
            r.binop == binop,
    {
        CompareGenerator { binop }
    }

    /// Generates the comparison once its operands have the same type, byte
    /// by byte for 16-bit operands. Fails when the operands' types differ or
    /// do not match the destination's.
    pub fn generate<T: SymbolTable>(self, run_builder: &mut RunBuilder, symbol_table: &mut T, op: BinaryOperator) -> (r: Result<(), Error>)
        requires
            old(run_builder).wf(),
            !arithmetic(op),
        ensures
            final(symbol_table).outer_frames() == old(symbol_table).outer_frames(),
            r matches Err(x) ==> unsupported_at(x, self.binop.src_tag),
            grows(*old(run_builder), *final(run_builder)),
            r is Ok ==> {
                let ct = coerced_types(
                    value_type_of(self.binop.left_value),
                    value_type_of(self.binop.right_value),
                );
                ct.0 == ct.1 && ct.0 == self.binop.dest_type && (ct.0 == BaseType::U8 || ct.0
                    == BaseType::U16)
            },
            ({
                let lt = value_type_of(self.binop.left_value);
                let rt = value_type_of(self.binop.right_value);
                let plan = comparison_plan(op);
                let first = if plan.0 {
                    self.binop.right_value
                } else {
                    self.binop.left_value
                };
                let second = if plan.0 {
                    self.binop.left_value
                } else {
                    self.binop.right_value
                };
                &&& (lt == BaseType::U8 && rt == BaseType::U8 && self.binop.dest_type == BaseType::U8)
                    ==> r is Ok && runs_labelled(
                    table_state(*old(symbol_table)),
                    table_state(*final(symbol_table)),
                    *old(run_builder),
                    *final(run_builder),
                ) && compare8_added(
                    *old(run_builder),
                    *final(run_builder),
                    self.binop.src_tag,
                    self.binop.dest,
                    first,
                    second,
                    plan.1,
                    plan.2,
                )
                &&& (lt == BaseType::U16 && rt == BaseType::U16 && self.binop.dest_type == BaseType::U16
                    && splittable(self.binop.left_value) && splittable(self.binop.right_value)) ==> r is Ok
                    && runs_labelled(
                    table_state(*old(symbol_table)),
                    table_state(*final(symbol_table)),
                    *old(run_builder),
                    *final(run_builder),
                ) && compare16_added(
                    *old(run_builder),
                    *final(run_builder),
                    self.binop.src_tag,
                    self.binop.dest,
                    first,
                    second,
                    plan.1,
                    plan.2,
                )
            }),
            r is Err ==> binop_fails(self.binop, op, *old(run_builder), table_state(*old(symbol_table))),
            r is Ok ==> binop_generated(
                self.binop,
                op,
                *old(run_builder),
                table_state(*old(symbol_table)),
                *final(run_builder),
                table_state(*final(symbol_table)),
            ),
    {
        let coercer = TypeCoercer::new(self.binop.frame_ref, self.binop.src_tag);
        let (actual_left, actual_right) = match coercer.coerce_values_to_same_types(
            run_builder,
            symbol_table,
            &self.binop.left_value,
            &self.binop.right_value,
        ) {
            Ok(pair) => pair,
            Err(x) => {
                return Err(x);
            },
        };
        let ghost bm = *run_builder;
        let ghost tm = table_state(*symbol_table);
        let ghost coerced_op = BinopGenerator { left_value: actual_left, right_value: actual_right, ..self.binop };
        let left_type = actual_left.value_type();
        if left_type.same_as(&BaseType::U16) {
            if !self.binop.dest_type.same_as(&BaseType::U16) {
                return Err(unsupported(self.binop.src_tag, "Can't store a u16 result into a u8"));
            }
            if !actual_left.is_splittable() || !actual_right.is_splittable() {
                return Err(unsupported(self.binop.src_tag, "Can't split these operands into bytes"));
            }
            self.generate_op(run_builder, symbol_table, &actual_left, &actual_right, false, op);
            proof {
                assert(same_size_generated(coerced_op, op, bm, tm, *run_builder, table_state(*symbol_table)));
            }
            Ok(())
        } else if left_type.same_as(&BaseType::U8) {
            if !self.binop.dest_type.same_as(&BaseType::U8) {
                return Err(unsupported(self.binop.src_tag, "Can't store a u8 result into a u16"));
            }
            self.generate_op(run_builder, symbol_table, &actual_left, &actual_right, true, op);
            proof {
                assert(same_size_generated(coerced_op, op, bm, tm, *run_builder, table_state(*symbol_table)));
            }
            Ok(())
        } else {
            Err(unsupported(self.binop.src_tag, "Can only compare u8 and u16 values"))
        }
    }

    /// Generates a comparison as `comparison_plan` says: `<` branches on the
    /// carry of `left - right`, `>` on that of `right - left`, `<=` and `>=`
    /// on the same with the stored values swapped, `==` and `!=` on zero.
    pub fn generate_op<T: SymbolTable>(
        &self,
        run_builder: &mut RunBuilder,
        symbol_table: &mut T,
        left: &Value,
        right: &Value,
        single_byte: bool,
        op: BinaryOperator,
    )
        requires
            old(run_builder).wf(),
            !arithmetic(op),
            !single_byte ==> splittable(*left) && splittable(*right),
        ensures
            final(symbol_table).outer_frames() == old(symbol_table).outer_frames(),
            ({
                let plan = comparison_plan(op);
                let first = if plan.0 {
                    *right
                } else {
                    *left
                };
                let second = if plan.0 {
                    *left
                } else {
                    *right
                };
                &&& single_byte ==> compare8_added(
                    *old(run_builder),
                    *final(run_builder),
                    self.binop.src_tag,
                    self.binop.dest,
                    first,
                    second,
                    plan.1,
                    plan.2,
                )
                &&& !single_byte ==> compare16_added(
                    *old(run_builder),
                    *final(run_builder),
                    self.binop.src_tag,
                    self.binop.dest,
                    first,
                    second,
                    plan.1,
                    plan.2,
                )
            }),
            runs_labelled(
                table_state(*old(symbol_table)),
                table_state(*final(symbol_table)),
                *old(run_builder),
                *final(run_builder),
            ),
    {
        let (first, second, flag, set_value) = match op {
            BinaryOperator::LessThan => (left, right, BranchFlag::Carry, false),
            BinaryOperator::GreaterThan => (right, left, BranchFlag::Carry, false),
            BinaryOperator::LessThanEqual => (right, left, BranchFlag::Carry, true),
            BinaryOperator::GreaterThanEqual => (left, right, BranchFlag::Carry, true),
            BinaryOperator::Equal => (left, right, BranchFlag::Zero, true),
            _ => (left, right, BranchFlag::Zero, false),
        };
        if single_byte {
            self.generate_8bit_compare(run_builder, symbol_table, first, second, flag, set_value);
        } else {
            self.generate_16bit_compare(run_builder, symbol_table, first, second, flag, set_value);
        }
    }

    /// Adds the four runs of an 8-bit comparison, as `compare8_added` says.
    pub fn generate_8bit_compare<T: SymbolTable>(
        &self,
        run_builder: &mut RunBuilder,
        symbol_table: &mut T,
        left: &Value,
        right: &Value,
        flag: BranchFlag,
        set_value: bool,
    )
        requires
            old(run_builder).wf(),
        ensures
            final(symbol_table).outer_frames() == old(symbol_table).outer_frames(),
            compare8_added(
                *old(run_builder),
                *final(run_builder),
                self.binop.src_tag,
                self.binop.dest,
                *left,
                *right,
                flag,
                set_value,
            ),
            runs_labelled(
                table_state(*old(symbol_table)),
                table_state(*final(symbol_table)),
                *old(run_builder),
                *final(run_builder),
            ),
    {
        let compare_block_ref = run_builder.new_block(symbol_table).block_ref;
        let ghost b1 = *run_builder;
        let ghost t1 = table_state(*symbol_table);
        let clear_block_ref = run_builder.new_block(symbol_table).block_ref;
        proof {
            lemma_runs_labelled_trans(table_state(*old(symbol_table)), t1, table_state(*symbol_table), *old(run_builder), b1, *run_builder);
        }
        let ghost b2 = *run_builder;
        let ghost t2 = table_state(*symbol_table);
        let set_block_ref = run_builder.new_block(symbol_table).block_ref;
        proof {
            lemma_runs_labelled_trans(table_state(*old(symbol_table)), t2, table_state(*symbol_table), *old(run_builder), b2, *run_builder);
        }
        let set_block_symbol = run_builder.block(set_block_ref).symbol();
        let ghost b3 = *run_builder;
        let ghost t3 = table_state(*symbol_table);
        let after_block_symbol = run_builder.new_block(symbol_table).symbol();
        proof {
            lemma_runs_labelled_trans(table_state(*old(symbol_table)), t3, table_state(*symbol_table), *old(run_builder), b3, *run_builder);
        }
        let ghost b4 = *run_builder;
        run_builder.add_statement(
            compare_block_ref,
            Statement::CompareBranch(
                CompareBranchData::new(
                    self.binop.src_tag,
                    left.clone_value(),
                    right.clone_value(),
                    flag,
                    Some(set_block_symbol),
                    None,
                ),
            ),
        );
        run_builder.add_statement(
            clear_block_ref,
            Statement::Copy(CopyData::new(self.binop.src_tag, self.binop.dest.clone_location(), imm_bool(!set_value))),
        );
        run_builder.add_statement(
            clear_block_ref,
            Statement::GoTo(GoToData::new(self.binop.src_tag, after_block_symbol)),
        );
        let ghost b7 = *run_builder;
        run_builder.add_statement(
            set_block_ref,
            Statement::Copy(CopyData::new(self.binop.src_tag, self.binop.dest.clone_location(), imm_bool(set_value))),
        );
        proof {
            assert(names_kept(b4, b7));
            lemma_names_kept_trans(b4, b7, *run_builder);
            lemma_runs_labelled_none(table_state(*symbol_table), b4, *run_builder);
            lemma_runs_labelled_trans(
                table_state(*old(symbol_table)),
                table_state(*symbol_table),
                table_state(*symbol_table),
                *old(run_builder),
                b4,
                *run_builder,
            );
        }
        proof {
            let n = old(run_builder).blocks().len() as int;
            let b = run_builder.blocks();
            assert(b[n].statements@ =~= seq![
                Statement::CompareBranch(
                    CompareBranchData {
                        tag: self.binop.src_tag,
                        left: *left,
                        right: *right,
                        branch_flag: flag,
                        branch_set: Some(b[n + 2].symbol),
                        branch_clear: None,
                    },
                ),
            ]);
            assert(b[n + 1].statements@ =~= seq![
                Statement::Copy(
                    CopyData {
                        tag: self.binop.src_tag,
                        destination: self.binop.dest,
                        value: bool_value(!set_value),
                    },
                ),
                Statement::GoTo(GoToData { tag: self.binop.src_tag, destination: b[n + 3].symbol }),
            ]);
            assert(b[n + 2].statements@ =~= seq![
                Statement::Copy(
                    CopyData {
                        tag: self.binop.src_tag,
                        destination: self.binop.dest,
                        value: bool_value(set_value),
                    },
                ),
            ]);
        }
    }

    /// Adds the five runs of a 16-bit comparison, as `compare16_added` says.
    pub fn generate_16bit_compare<T: SymbolTable>(
        &self,
        run_builder: &mut RunBuilder,
        symbol_table: &mut T,
        left: &Value,
        right: &Value,
        flag: BranchFlag,
        set_value: bool,
    )
        requires
            old(run_builder).wf(),
            splittable(*left),
            splittable(*right),
        ensures
            final(symbol_table).outer_frames() == old(symbol_table).outer_frames(),
            compare16_added(
                *old(run_builder),
                *final(run_builder),
                self.binop.src_tag,
                self.binop.dest,
                *left,
                *right,
                flag,
                set_value,
            ),
            runs_labelled(
                table_state(*old(symbol_table)),
                table_state(*final(symbol_table)),
                *old(run_builder),
                *final(run_builder),
            ),
    {
        let first_compare_block_ref = run_builder.new_block(symbol_table).block_ref;
        let ghost b1 = *run_builder;
        let ghost t1 = table_state(*symbol_table);
        let second_compare_block_ref = run_builder.new_block(symbol_table).block_ref;
        proof {
            lemma_runs_labelled_trans(table_state(*old(symbol_table)), t1, table_state(*symbol_table), *old(run_builder), b1, *run_builder);
        }
        let ghost b2 = *run_builder;
        let ghost t2 = table_state(*symbol_table);
        let set_block_ref = run_builder.new_block(symbol_table).block_ref;
        proof {
            lemma_runs_labelled_trans(table_state(*old(symbol_table)), t2, table_state(*symbol_table), *old(run_builder), b2, *run_builder);
        }
        let ghost b3 = *run_builder;
        let ghost t3 = table_state(*symbol_table);
        let clear_block_ref = run_builder.new_block(symbol_table).block_ref;
        proof {
            lemma_runs_labelled_trans(table_state(*old(symbol_table)), t3, table_state(*symbol_table), *old(run_builder), b3, *run_builder);
        }
        let clear_block_symbol = run_builder.block(clear_block_ref).symbol();
        let ghost b4 = *run_builder;
        let ghost t4 = table_state(*symbol_table);
        let after_block_symbol = run_builder.new_block(symbol_table).symbol();
        proof {
            lemma_runs_labelled_trans(table_state(*old(symbol_table)), t4, table_state(*symbol_table), *old(run_builder), b4, *run_builder);
        }
        let ghost b5 = *run_builder;
        run_builder.add_statement(
            first_compare_block_ref,
            Statement::CompareBranch(
                CompareBranchData::new(
                    self.binop.src_tag,
                    Value::high_byte(left),
                    Value::high_byte(right),
                    flag,
                    None,
                    Some(clear_block_symbol),
                ),
            ),
        );
        run_builder.add_statement(
            second_compare_block_ref,
            Statement::CompareBranch(
                CompareBranchData::new(
                    self.binop.src_tag,
                    Value::low_byte(left),
                    Value::low_byte(right),
                    flag,
                    None,
                    Some(clear_block_symbol),
                ),
            ),
        );
        run_builder.add_statement(
            set_block_ref,
            Statement::Copy(CopyData::new(self.binop.src_tag, self.binop.dest.clone_location(), imm_bool(set_value))),
        );
        run_builder.add_statement(
            set_block_ref,
            Statement::GoTo(GoToData::new(self.binop.src_tag, after_block_symbol)),
        );
        let ghost b8 = *run_builder;
        run_builder.add_statement(
            clear_block_ref,
            Statement::Copy(CopyData::new(self.binop.src_tag, self.binop.dest.clone_location(), imm_bool(!set_value))),
        );
        proof {
            assert(names_kept(b5, b8));
            lemma_names_kept_trans(b5, b8, *run_builder);
            lemma_runs_labelled_none(table_state(*symbol_table), b5, *run_builder);
            lemma_runs_labelled_trans(
                table_state(*old(symbol_table)),
                table_state(*symbol_table),
                table_state(*symbol_table),
                *old(run_builder),
                b5,
                *run_builder,
            );
        }
        proof {
            let n = old(run_builder).blocks().len() as int;
            let b = run_builder.blocks();
            assert(b[n + 2].statements@ =~= seq![
                Statement::Copy(
                    CopyData {
                        tag: self.binop.src_tag,
                        destination: self.binop.dest,
                        value: bool_value(set_value),
                    },
                ),
                Statement::GoTo(GoToData { tag: self.binop.src_tag, destination: b[n + 4].symbol }),
            ]);
            assert(b[n + 3].statements@ =~= seq![
                Statement::Copy(
                    CopyData {
                        tag: self.binop.src_tag,
                        destination: self.binop.dest,
                        value: bool_value(!set_value),
                    },
                ),
            ]);
        }
    }
}

} // verus!
