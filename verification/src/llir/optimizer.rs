//! Optimization of the low-level representation: none is needed yet, so the
//! blocks come out as they went in.
use vstd::prelude::*;
use crate::error::Error;
use crate::llir::block::{
    BinaryOpData, BranchIfZeroData, CompareBranchData, CopyData, FrameBlock, InlineAsmData,
    JumpRoutineData, RunBlock, Statement,
};

verus! {

fn copy_binary_op(d: &BinaryOpData) -> (r: BinaryOpData)
    ensures
        r == *d,
{
    BinaryOpData {
        tag: d.tag,
        destination: d.destination.clone_location(),
        left: d.left.clone_value(),
        right: d.right.clone_value(),
        carry_mode: d.carry_mode,
    }
}

impl Statement {
    /// A copy of the statement.
    pub fn duplicate(&self) -> (r: Statement)
        ensures
            r == *self,
    {
        match self {
            Statement::Add(d) => Statement::Add(copy_binary_op(d)),
            Statement::AddToDataStackPointer(d) => Statement::AddToDataStackPointer(*d),
            Statement::BranchIfZero(d) => Statement::BranchIfZero(
                BranchIfZeroData { tag: d.tag, value: d.value.clone_value(), destination: d.destination },
            ),
            Statement::CompareBranch(d) => Statement::CompareBranch(
                CompareBranchData {
                    tag: d.tag,
                    left: d.left.clone_value(),
                    right: d.right.clone_value(),
                    branch_flag: d.branch_flag,
                    branch_set: d.branch_set,
                    branch_clear: d.branch_clear,
                },
            ),
            Statement::CompareEq(d) => Statement::CompareEq(copy_binary_op(d)),
            Statement::CompareNotEq(d) => Statement::CompareNotEq(copy_binary_op(d)),
            Statement::CompareLt(d) => Statement::CompareLt(copy_binary_op(d)),
            Statement::CompareGte(d) => Statement::CompareGte(copy_binary_op(d)),
            Statement::Copy(d) => Statement::Copy(
                CopyData { tag: d.tag, destination: d.destination.clone_location(), value: d.value.clone_value() },
            ),
            Statement::GoTo(d) => Statement::GoTo(*d),
            Statement::InlineAsm(d) => Statement::InlineAsm(InlineAsmData { tag: d.tag, text: d.text.clone() }),
            Statement::JumpRoutine(d) => Statement::JumpRoutine(
                JumpRoutineData { tag: d.tag, destination: d.destination.clone_location() },
            ),
            Statement::Return(d) => Statement::Return(*d),
            Statement::Subtract(d) => Statement::Subtract(copy_binary_op(d)),
        }
    }
}

/// Whether two runs have the same label and statements.
pub open spec fn same_run(a: RunBlock, b: RunBlock) -> bool {
    a.name == b.name && a.symbol == b.symbol && a.statements@ == b.statements@
}

/// Whether two frames have the same name, place, size and runs.
pub open spec fn same_frame(a: FrameBlock, b: FrameBlock) -> bool {
    &&& a.name == b.name
    &&& a.symbol == b.symbol
    &&& a.location == b.location
    &&& a.frame_size == b.frame_size
    &&& a.runs@.len() == b.runs@.len()
    &&& forall|i: int| 0 <= i < a.runs@.len() ==> same_run(#[trigger] a.runs@[i], b.runs@[i])
}

fn copy_run(run: &RunBlock) -> (r: RunBlock)
    ensures
        same_run(r, *run),
{
    let mut statements: Vec<Statement> = Vec::new();
    let mut i: usize = 0;
    while i < run.statements.len()
        invariant
            i <= run.statements@.len(),
            statements@ == run.statements@.take(i as int),
        decreases run.statements@.len() - i,
    {
        statements.push(run.statements[i].duplicate());
        i += 1;
        assert(statements@ =~= run.statements@.take(i as int));
    }
    assert(run.statements@.take(i as int) =~= run.statements@);
    RunBlock { name: run.name.clone(), symbol: run.symbol, statements }
}

fn copy_frame(frame: &FrameBlock) -> (r: FrameBlock)
    ensures
        same_frame(r, *frame),
{
    let mut runs: Vec<RunBlock> = Vec::new();
    let mut i: usize = 0;
    while i < frame.runs.len()
        invariant
            i <= frame.runs@.len(),
            runs@.len() == i,
            forall|k: int| 0 <= k < i ==> same_run(#[trigger] runs@[k], frame.runs@[k]),
        decreases frame.runs@.len() - i,
    {
        runs.push(copy_run(&frame.runs[i]));
        i += 1;
    }
    FrameBlock {
        name: frame.name.clone(),
        symbol: frame.symbol,
        location: frame.location.clone_location(),
        runs,
        frame_size: frame.frame_size,
    }
}

/// Optimizes the low-level representation; no optimization is made yet, so
/// the blocks come back unchanged.
pub fn optimize_llir(llir: &Vec<FrameBlock>) -> (r: Result<Vec<FrameBlock>, Error>)
    ensures
        r matches Ok(blocks) && blocks@.len() == llir@.len() && forall|i: int|
            0 <= i < llir@.len() ==> same_frame(#[trigger] blocks@[i], llir@[i]),
{
    let mut optimized: Vec<FrameBlock> = Vec::new();
    let mut i: usize = 0;
    while i < llir.len()
        invariant
            i <= llir@.len(),
            optimized@.len() == i,
            forall|k: int| 0 <= k < i ==> same_frame(#[trigger] optimized@[k], llir@[k]),
        decreases llir@.len() - i,
    {
        optimized.push(copy_frame(&llir[i]));
        i += 1;
    }
    Ok(optimized)
}

} // verus!
