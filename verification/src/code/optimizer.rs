use vstd::prelude::*;
use crate::code::block::{is_branch_code, operand, same_parameter, Code, CodeBlock};
use crate::error::Error;

verus! {

/// Whether the load at `i + 1` reloads into the accumulator what it was just
/// stored from: `STA x` directly followed by `LDA x`.
pub open spec fn redundant_at(run: Seq<Code>, i: int) -> bool {
    &&& 0 <= i
    &&& i + 1 < run.len()
    &&& run[i] is Sta
    &&& run[i + 1] is Lda
    &&& same_parameter(operand(run[i]), operand(run[i + 1]))
}

/// Whether some load in the run is redundant.
pub open spec fn has_redundant_load(run: Seq<Code>) -> bool {
    exists|i: int| redundant_at(run, i)
}

/// The first position from `from` on where a redundant load follows.
pub open spec fn first_redundant(run: Seq<Code>, from: int) -> Option<int>
    decreases run.len() - from,
{
    if from < 0 || from + 1 >= run.len() {
        None
    } else if redundant_at(run, from) {
        Some(from)
    } else {
        first_redundant(run, from + 1)
    }
}

/// The run with its redundant loads removed, the first one at a time, until
/// none is left.
pub open spec fn without_redundant_loads(run: Seq<Code>) -> Seq<Code>
    decreases run.len(),
{
    match first_redundant(run, 0) {
        Some(i) => if 0 <= i && i + 1 < run.len() {
            without_redundant_loads(run.remove(i + 1))
        } else {
            run
        },
        None => run,
    }
}

/// The optimized body, read from the front as the optimizer walks it: the
/// run from `last` is cut before each branch found from `i` on, and each
/// run loses its redundant loads.
spec fn optimized_runs(body: Seq<Code>, last: int, i: int) -> Seq<Code>
    recommends
        0 <= last <= i <= body.len(),
    decreases body.len() - i,
{
    if i >= body.len() {
        without_redundant_loads(body.subrange(last, body.len() as int))
    } else if is_branch_code(body[i]) && i != last {
        without_redundant_loads(body.subrange(last, i)) + optimized_runs(body, i, i + 1)
    } else {
        optimized_runs(body, last, i + 1)
    }
}

/// Where the last run of a body starts: at its last branch after its first
/// line, or at its first line when no branch follows that.
pub open spec fn last_run_start(body: Seq<Code>) -> int
    decreases body.len(),
{
    if body.len() <= 1 {
        0
    } else if is_branch_code(body.last()) {
        body.len() - 1
    } else {
        last_run_start(body.drop_last())
    }
}

proof fn lemma_last_run_start(body: Seq<Code>)
    ensures
        0 <= last_run_start(body),
        body.len() > 0 ==> last_run_start(body) < body.len(),
        last_run_start(body) > 0 ==> is_branch_code(body[last_run_start(body)]),
        forall|k: int| last_run_start(body) < k < body.len() && k > 0 ==> !is_branch_code(#[trigger] body[k]),
    decreases body.len(),
{
    if body.len() > 1 && !is_branch_code(body.last()) {
        lemma_last_run_start(body.drop_last());
        assert forall|k: int| last_run_start(body) < k < body.len() && k > 0 implies !is_branch_code(
            #[trigger] body[k],
        ) by {
            if k < body.len() - 1 {
                assert(body.drop_last()[k] == body[k]);
            }
        }
    }
}

/// The optimized body of a block: a body is made of runs, each starting at
/// its first line or at a branch, and each run loses its redundant loads on
/// its own.
pub open spec fn optimized_body(body: Seq<Code>) -> Seq<Code>
    decreases body.len(),
{
    let j = last_run_start(body);
    if j <= 0 || j >= body.len() {
        without_redundant_loads(body)
    } else {
        optimized_body(body.take(j)) + without_redundant_loads(body.skip(j))
    }
}

/// Read from the front, the runs before a branch at `n` are optimized as
/// the body cut before `n` is.
proof fn lemma_runs_cut(body: Seq<Code>, last: int, i: int, n: int)
    requires
        0 <= last <= i <= n < body.len(),
        last < n,
        is_branch_code(body[n]),
    ensures
        optimized_runs(body, last, i) == optimized_runs(body.take(n), last, i) + optimized_runs(body, n, n + 1),
    decreases n - i,
{
    let t = body.take(n);
    if i < n {
        assert(t[i] == body[i]);
        if is_branch_code(body[i]) && i != last {
            lemma_runs_cut(body, i, i + 1, n);
            assert(t.subrange(last, i) =~= body.subrange(last, i));
            assert(optimized_runs(body.take(n), i, i + 1) == optimized_runs(t, i, i + 1));
        } else {
            lemma_runs_cut(body, last, i + 1, n);
        }
    } else {
        assert(t.subrange(last, n) =~= body.subrange(last, n));
    }
}

/// With no branch after `n`, the runs from `n` are one run.
proof fn lemma_runs_last(body: Seq<Code>, n: int, i: int)
    requires
        0 <= n < i <= body.len(),
        forall|k: int| n < k < body.len() ==> !is_branch_code(#[trigger] body[k]),
    ensures
        optimized_runs(body, n, i) == without_redundant_loads(body.subrange(n, body.len() as int)),
    decreases body.len() - i,
{
    if i < body.len() {
        lemma_runs_last(body, n, i + 1);
    }
}

/// The optimized body is what the optimizer computes from the front.
proof fn lemma_optimized_body_is_runs(body: Seq<Code>)
    ensures
        optimized_body(body) == optimized_runs(body, 0, 0),
    decreases body.len(),
{
    lemma_last_run_start(body);
    let j = last_run_start(body);
    if body.len() == 0 {
        assert(body.subrange(0, 0) =~= body);
    } else if j == 0 {
        lemma_runs_last(body, 0, 1);
        assert(body.subrange(0, body.len() as int) =~= body);
    } else {
        lemma_runs_cut(body, 0, 0, j);
        lemma_runs_last(body, j, j + 1);
        lemma_optimized_body_is_runs(body.take(j));
        assert(body.subrange(j, body.len() as int) =~= body.skip(j));
    }
}

proof fn lemma_first_redundant(run: Seq<Code>, from: int)
    requires
        0 <= from,
    ensures
        first_redundant(run, from) matches Some(i) ==> from <= i && redundant_at(run, i),
        first_redundant(run, from) is None ==> forall|j: int| from <= j ==> !redundant_at(run, j),
    decreases run.len() - from,
{
    if from + 1 < run.len() && !redundant_at(run, from) {
        lemma_first_redundant(run, from + 1);
    }
}

/// Removes the first redundant load of the run, if there is one.
fn try_redundant_load_accum(run: &mut Vec<Code>) -> (r: bool)
    ensures
        r == first_redundant(old(run)@, 0) is Some,
        r ==> final(run)@ == old(run)@.remove(first_redundant(old(run)@, 0)->0 + 1),
        !r ==> final(run)@ == old(run)@,
{
    proof {
        lemma_first_redundant(run@, 0);
    }
    let mut i: usize = 0;
    while i < run.len() && i + 1 < run.len()
        invariant
            run@ == old(run)@,
            first_redundant(run@, 0) == first_redundant(run@, i as int),
        decreases run.len() - i,
    {
        let matches = match (&run[i], &run[i + 1]) {
            (Code::Sta(store_param), Code::Lda(load_param)) => *store_param == *load_param,
            _ => false,
        };
        if matches {
            run.remove(i + 1);
            return true;
        }
        i += 1;
    }
    false
}

fn optimize_run(run: &[Code]) -> (r: Vec<Code>)
    ensures
        r@ == without_redundant_loads(run@),
{
    let mut result: Vec<Code> = Vec::new();
    let mut k: usize = 0;
    while k < run.len()
        invariant
            k <= run@.len(),
            result@ == run@.take(k as int),
        decreases run.len() - k,
    {
        result.push(run[k].clone());
        k += 1;
        assert(result@ =~= run@.take(k as int));
    }
    assert(result@ =~= run@);
    loop
        invariant
            without_redundant_loads(result@) == without_redundant_loads(run@),
        decreases result.len(),
    {
        let ghost before = result@;
        proof {
            lemma_first_redundant(before, 0);
        }
        if !try_redundant_load_accum(&mut result) {
            return result;
        }
    }
}

fn optimize_code_block(code_block: &CodeBlock) -> (r: CodeBlock)
    ensures
        r.location == code_block.location,
        r.name == code_block.name,
        r.body@ == optimized_body(code_block.body@),
{
    let mut optimized = code_block.clone();
    optimized.body.clear();

    let body = &code_block.body;

    let mut last_branch: usize = 0;
    let mut i: usize = 0;
    while i < body.len()
        invariant
            last_branch <= i <= body@.len(),
            optimized.location == code_block.location,
            optimized.name == code_block.name,
            optimized.body@ + optimized_runs(body@, last_branch as int, i as int) == optimized_runs(
                body@,
                0,
                0,
            ),
        decreases body.len() - i,
    {
        if body[i].is_branch() {
            if i != last_branch {
                let run = optimize_run(vstd::slice::slice_subrange(body.as_slice(), last_branch, i));
                let ghost before = optimized.body@;
                let mut run = run;
                optimized.body.append(&mut run);
                assert(optimized.body@ + optimized_runs(body@, i as int, i + 1) =~= before
                    + optimized_runs(body@, last_branch as int, i as int));
            }
            last_branch = i;
        }
        i += 1;
    }
    let mut run = optimize_run(vstd::slice::slice_subrange(body.as_slice(), last_branch, body.len()));
    optimized.body.append(&mut run);
    proof {
        lemma_optimized_body_is_runs(body@);
    }
    optimized
}

/// Whether `blocks` are the blocks of `code`, in order, with the same names
/// and locations and optimized bodies.
pub open spec fn optimized_blocks(code: Seq<CodeBlock>, blocks: Seq<CodeBlock>) -> bool {
    &&& blocks.len() == code.len()
    &&& forall|k: int|
        0 <= k < code.len() ==> {
            &&& (#[trigger] blocks[k]).location == code[k].location
            &&& blocks[k].name == code[k].name
            &&& blocks[k].body@ == optimized_body(code[k].body@)
        }
}

/// Removes, from each block, every load into the accumulator that directly
/// follows a store of the accumulator to the same place; branch instructions
/// delimit the runs that are optimized on their own.
pub fn optimize_code(code: &[CodeBlock]) -> (r: Result<Vec<CodeBlock>, Error>)
    ensures
        r matches Ok(blocks) && optimized_blocks(code@, blocks@),
{
    let mut result: Vec<CodeBlock> = Vec::new();
    let mut k: usize = 0;
    while k < code.len()
        invariant
            k <= code@.len(),
            result@.len() == k,
            forall|j: int|
                0 <= j < k ==> {
                    &&& (#[trigger] result@[j]).location == code@[j].location
                    &&& result@[j].name == code@[j].name
                    &&& result@[j].body@ == optimized_body(code@[j].body@)
                },
        decreases code.len() - k,
    {
        result.push(optimize_code_block(&code[k]));
        k += 1;
    }
    Ok(result)
}

/// Removing the redundant loads of a run leaves none, never lengthens the
/// run, and keeps its first line.
pub proof fn lemma_without_redundant_loads(run: Seq<Code>)
    ensures
        !has_redundant_load(without_redundant_loads(run)),
        without_redundant_loads(run).len() <= run.len(),
        run.len() > 0 ==> without_redundant_loads(run).len() > 0 && without_redundant_loads(run)[0]
            == run[0],
    decreases run.len(),
{
    lemma_first_redundant(run, 0);
    match first_redundant(run, 0) {
        Some(i) => {
            let shorter = run.remove(i + 1);
            lemma_without_redundant_loads(shorter);
        },
        None => {},
    }
}

proof fn lemma_concat_without_redundant(a: Seq<Code>, b: Seq<Code>)
    requires
        !has_redundant_load(a),
        !has_redundant_load(b),
        b.len() > 0 ==> !(b[0] is Lda),
    ensures
        !has_redundant_load(a + b),
{
    assert forall|i: int| !redundant_at(a + b, i) by {
        if 0 <= i && i + 1 < a.len() {
            assert(!redundant_at(a, i));
        } else if i >= a.len() && i + 1 < a.len() + b.len() {
            assert(!redundant_at(b, i - a.len()));
        }
    }
}

proof fn lemma_optimized_runs(body: Seq<Code>, last: int, i: int)
    requires
        0 <= last <= i <= body.len(),
        last < i || last == body.len() || last == 0 || is_branch_code(body[last]),
    ensures
        !has_redundant_load(optimized_runs(body, last, i)),
        optimized_runs(body, last, i).len() <= body.len() - last,
        last < body.len() ==> optimized_runs(body, last, i).len() > 0 && optimized_runs(
            body,
            last,
            i,
        )[0] == body[last],
    decreases body.len() - i,
{
    if i >= body.len() {
        lemma_without_redundant_loads(body.subrange(last, body.len() as int));
    } else if is_branch_code(body[i]) && i != last {
        lemma_without_redundant_loads(body.subrange(last, i));
        lemma_optimized_runs(body, i, i + 1);
        lemma_concat_without_redundant(
            without_redundant_loads(body.subrange(last, i)),
            optimized_runs(body, i, i + 1),
        );
    } else {
        lemma_optimized_runs(body, last, i + 1);
    }
}

/// After optimization no block holds a store of the accumulator directly
/// followed by a load of the same place, and no block grows.
pub proof fn lemma_optimized_body_has_no_redundant_load(body: Seq<Code>)
    ensures
        !has_redundant_load(optimized_body(body)),
        optimized_body(body).len() <= body.len(),
{
    lemma_optimized_body_is_runs(body);
    lemma_optimized_runs(body, 0, 0);
}

proof fn lemma_clean_subrange(body: Seq<Code>, a: int, b: int)
    requires
        0 <= a <= b <= body.len(),
        !has_redundant_load(body),
    ensures
        without_redundant_loads(body.subrange(a, b)) == body.subrange(a, b),
{
    let run = body.subrange(a, b);
    assert forall|j: int| !redundant_at(run, j) by {
        if redundant_at(run, j) {
            assert(redundant_at(body, a + j));
        }
    }
    lemma_first_redundant(run, 0);
}

proof fn lemma_clean_runs(body: Seq<Code>, last: int, i: int)
    requires
        0 <= last <= i <= body.len(),
        !has_redundant_load(body),
    ensures
        optimized_runs(body, last, i) == body.subrange(last, body.len() as int),
    decreases body.len() - i,
{
    if i >= body.len() {
        lemma_clean_subrange(body, last, body.len() as int);
    } else if is_branch_code(body[i]) && i != last {
        lemma_clean_subrange(body, last, i);
        lemma_clean_runs(body, i, i + 1);
        assert(body.subrange(last, i) + body.subrange(i, body.len() as int) =~= body.subrange(
            last,
            body.len() as int,
        ));
    } else {
        lemma_clean_runs(body, last, i + 1);
    }
}

/// A body with no redundant load is left as it is.
pub proof fn lemma_optimized_body_keeps_clean_body(body: Seq<Code>)
    requires
        !has_redundant_load(body),
    ensures
        optimized_body(body) == body,
{
    lemma_optimized_body_is_runs(body);
    lemma_clean_runs(body, 0, 0);
    assert(body.subrange(0, body.len() as int) =~= body);
}

/// Optimizing an optimized body changes nothing.
pub proof fn lemma_optimize_idempotent(body: Seq<Code>)
    ensures
        optimized_body(optimized_body(body)) == optimized_body(body),
{
    lemma_optimized_body_has_no_redundant_load(body);
    lemma_optimized_body_keeps_clean_body(optimized_body(body));
}

} // verus!
