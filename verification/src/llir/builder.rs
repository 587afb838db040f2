use vstd::prelude::*;
use crate::llir::block::{RunBlock, Statement};
use crate::symbol_table::{block_label, following, inserted, Symbol, SymbolEntry, SymbolRef, SymbolTable};

verus! {

/// The index of a run within a run builder.
pub type BlockRef = usize;

/// A run of a run builder: its index and its label's handle.
#[derive(Debug, Clone, Copy, Eq, PartialEq, Structural)]
pub struct BlockBuilder {
    pub block_ref: BlockRef,
    pub symbol: SymbolRef,
}

impl BlockBuilder {
    pub fn symbol(&self) -> (r: SymbolRef)
        ensures
            r == self.symbol,
    {
        self.symbol
    }
}

/// What code generation reads and changes of a symbol table: its scopes,
/// the next free offset of the innermost frame and the next handle.
pub type TableState = (Seq<Seq<SymbolEntry>>, i8, nat);

/// The state of a symbol table.
pub open spec fn table_state<T: SymbolTable>(t: T) -> TableState {
    (t.scopes(), t.frame(), t.handle())
}

/// The table once the label of a new run is added to its innermost scope.
pub open spec fn labelled(st: TableState, run: RunBlock) -> TableState {
    (st.0.update(st.0.len() - 1, inserted(st.0.last(), run.name, run.symbol, Symbol::Block)), st.1, following(st.2))
}

/// The table once the labels of new runs are added, one after the other.
pub open spec fn with_labels(st: TableState, runs: Seq<RunBlock>) -> TableState
    decreases runs.len(),
{
    if runs.len() == 0 {
        st
    } else {
        labelled(with_labels(st, runs.drop_last()), runs.last())
    }
}

/// Whether new runs are labelled with the handles that the table hands out
/// one after the other, each under its block label.
pub open spec fn freshly_labelled(st: TableState, runs: Seq<RunBlock>) -> bool {
    forall|k: int|
        0 <= k < runs.len() ==> (#[trigger] runs[k]).symbol == with_labels(st, runs.take(k)).2 && runs[k].name@
            == block_label(runs[k].symbol)
}

/// Whether the runs that `after` holds past those of `before` are new runs,
/// labelled one after the other from the handle of the table `t0`, and `t1`
/// is `t0` with their labels added.
pub open spec fn runs_labelled(t0: TableState, t1: TableState, before: RunBuilder, after: RunBuilder) -> bool {
    let added = after.blocks().subrange(before.blocks().len() as int, after.blocks().len() as int);
    &&& after.blocks().len() >= before.blocks().len()
    &&& t1 == with_labels(t0, added)
    &&& freshly_labelled(t0, added)
}

/// Adding the labels of two sequences of runs adds those of the first, then
/// those of the second.
pub proof fn lemma_with_labels_concat(st: TableState, a: Seq<RunBlock>, b: Seq<RunBlock>)
    ensures
        with_labels(st, a + b) == with_labels(with_labels(st, a), b),
    decreases b.len(),
{
    if b.len() == 0 {
        assert(a + b =~= a);
    } else {
        assert((a + b).drop_last() =~= a + b.drop_last());
        lemma_with_labels_concat(st, a, b.drop_last());
    }
}

/// Labels depend only on the names and handles of the runs.
pub proof fn lemma_labels_by_name(st: TableState, a: Seq<RunBlock>, b: Seq<RunBlock>)
    requires
        a.len() == b.len(),
        forall|k: int| 0 <= k < a.len() ==> (#[trigger] a[k]).name == b[k].name && a[k].symbol == b[k].symbol,
    ensures
        with_labels(st, a) == with_labels(st, b),
        freshly_labelled(st, a) ==> freshly_labelled(st, b),
    decreases a.len(),
{
    if a.len() > 0 {
        lemma_labels_by_name(st, a.drop_last(), b.drop_last());
    }
    if freshly_labelled(st, a) {
        assert forall|k: int| 0 <= k < b.len() implies (#[trigger] b[k]).symbol == with_labels(st, b.take(k)).2
            && b[k].name@ == block_label(b[k].symbol) by {
            assert(a[k].symbol == with_labels(st, a.take(k)).2);
            lemma_labels_by_name(st, a.take(k), b.take(k));
        }
    }
}

/// Labelling runs in two steps is labelling them all.
pub proof fn lemma_freshly_labelled_concat(st: TableState, a: Seq<RunBlock>, b: Seq<RunBlock>)
    requires
        freshly_labelled(st, a),
        freshly_labelled(with_labels(st, a), b),
    ensures
        freshly_labelled(st, a + b),
{
    assert forall|k: int| 0 <= k < (a + b).len() implies (#[trigger] (a + b)[k]).symbol == with_labels(
        st,
        (a + b).take(k),
    ).2 && (a + b)[k].name@ == block_label((a + b)[k].symbol) by {
        if k < a.len() {
            assert((a + b).take(k) =~= a.take(k));
            assert((a + b)[k] == a[k]);
        } else {
            assert((a + b).take(k) =~= a + b.take(k - a.len()));
            lemma_with_labels_concat(st, a, b.take(k - a.len()));
            assert((a + b)[k] == b[k - a.len()]);
        }
    }
}

/// Whether `after` keeps the names and handles of the runs of `before`.
pub open spec fn names_kept(before: RunBuilder, after: RunBuilder) -> bool {
    &&& after.blocks().len() >= before.blocks().len()
    &&& forall|k: int|
        0 <= k < before.blocks().len() ==> (#[trigger] after.blocks()[k]).name == before.blocks()[k].name
            && after.blocks()[k].symbol == before.blocks()[k].symbol
}

/// New runs labelled in two steps are new runs labelled in one.
pub proof fn lemma_runs_labelled_trans(
    t0: TableState,
    t1: TableState,
    t2: TableState,
    b0: RunBuilder,
    b1: RunBuilder,
    b2: RunBuilder,
)
    requires
        runs_labelled(t0, t1, b0, b1),
        runs_labelled(t1, t2, b1, b2),
        names_kept(b1, b2),
    ensures
        runs_labelled(t0, t2, b0, b2),
{
    let n0 = b0.blocks().len() as int;
    let n1 = b1.blocks().len() as int;
    let n2 = b2.blocks().len() as int;
    let first = b1.blocks().subrange(n0, n1);
    let first2 = b2.blocks().subrange(n0, n1);
    let second = b2.blocks().subrange(n1, n2);
    lemma_labels_by_name(t0, first, first2);
    lemma_labels_by_name(with_labels(t0, first), second, second);
    assert(b2.blocks().subrange(n0, n2) =~= first2 + second);
    lemma_with_labels_concat(t0, first2, second);
    lemma_freshly_labelled_concat(t0, first2, second);
}

/// A builder whose runs keep their names and number adds no run.
pub proof fn lemma_runs_labelled_none(t: TableState, b1: RunBuilder, b2: RunBuilder)
    requires
        names_kept(b1, b2),
        b2.blocks().len() == b1.blocks().len(),
    ensures
        runs_labelled(t, t, b1, b2),
{
    let added = b2.blocks().subrange(b1.blocks().len() as int, b2.blocks().len() as int);
    assert(added =~= Seq::<RunBlock>::empty());
}

/// Keeping names twice is keeping them.
pub proof fn lemma_names_kept_trans(a: RunBuilder, b: RunBuilder, c: RunBuilder)
    requires
        names_kept(a, b),
        names_kept(b, c),
    ensures
        names_kept(a, c),
{
    assert forall|k: int| 0 <= k < a.blocks().len() implies (#[trigger] c.blocks()[k]).name == a.blocks()[k].name
        && c.blocks()[k].symbol == a.blocks()[k].symbol by {
        assert(b.blocks()[k].name == a.blocks()[k].name);
        assert(c.blocks()[k].name == b.blocks()[k].name);
    }
}

/// Builds a sequence of runs, one of which is current.
pub struct RunBuilder {
    blocks: Vec<RunBlock>,
    current_block: BlockRef,
}

impl RunBuilder {
    /// The runs built so far.
    pub closed spec fn blocks(&self) -> Seq<RunBlock> {
        self.blocks@
    }

    /// The index of the current run.
    pub closed spec fn current(&self) -> int {
        self.current_block as int
    }

    pub closed spec fn wf(&self) -> bool {
        0 <= self.current_block < self.blocks@.len()
    }

    /// Starts with one empty run, labelled in the table.
    pub fn new<T: SymbolTable>(symbol_table: &mut T) -> (r: RunBuilder)
        ensures
            final(symbol_table).outer_frames() == old(symbol_table).outer_frames(),
            r.wf(),
            r.blocks().len() == 1,
            r.current() == 0,
            r.blocks()[0].symbol == old(symbol_table).handle(),
            r.blocks()[0].name@ == block_label(r.blocks()[0].symbol),
            r.blocks()[0].statements@.len() == 0,
            final(symbol_table).handle() == following(old(symbol_table).handle()),
            final(symbol_table).scopes() == old(symbol_table).scopes().update(
                old(symbol_table).scopes().len() - 1,
                inserted(old(symbol_table).scopes().last(), r.blocks()[0].name, r.blocks()[0].symbol, Symbol::Block),
            ),
            final(symbol_table).frame() == old(symbol_table).frame(),
    {
        let mut run_builder = RunBuilder { blocks: Vec::new(), current_block: 0 };
        run_builder.new_block(symbol_table);
        run_builder
    }

    pub fn current_block(&self) -> (r: BlockBuilder)
        requires
            self.wf(),
        ensures
            r.block_ref == self.current(),
            r.block_ref < self.blocks().len(),
            r.symbol == self.blocks()[self.current()].symbol,
    {
        BlockBuilder {
            block_ref: self.current_block,
            symbol: self.blocks[self.current_block].symbol,
        }
    }

    /// Appends a new empty run, labelled in the table, and makes it current.
    pub fn new_block<T: SymbolTable>(&mut self, symbol_table: &mut T) -> (r: BlockBuilder)
        ensures
            final(symbol_table).outer_frames() == old(symbol_table).outer_frames(),
            final(self).wf(),
            final(self).blocks().len() == old(self).blocks().len() + 1,
            final(self).blocks().drop_last() == old(self).blocks(),
            final(self).current() == old(self).blocks().len(),
            r.block_ref == old(self).blocks().len(),
            r.symbol == old(symbol_table).handle(),
            final(self).blocks().last().symbol == r.symbol,
            final(self).blocks().last().name@ == block_label(r.symbol),
            final(self).blocks().last().statements@.len() == 0,
            final(symbol_table).handle() == following(old(symbol_table).handle()),
            final(symbol_table).scopes() == old(symbol_table).scopes().update(
                old(symbol_table).scopes().len() - 1,
                inserted(old(symbol_table).scopes().last(), final(self).blocks().last().name, r.symbol, Symbol::Block),
            ),
            final(symbol_table).frame() == old(symbol_table).frame(),
            runs_labelled(table_state(*old(symbol_table)), table_state(*final(symbol_table)), *old(self), *final(self)),
            names_kept(*old(self), *final(self)),
    {
        let (block_name, block_ref) = symbol_table.new_block_name();
        let block = RunBlock::new(block_name, block_ref);
        self.blocks.push(block);
        self.current_block = self.blocks.len() - 1;
        assert(self.blocks@.drop_last() =~= old(self).blocks@);
        proof {
            let t0 = table_state(*old(symbol_table));
            let added = self.blocks@.subrange(old(self).blocks@.len() as int, self.blocks@.len() as int);
            assert(added =~= seq![self.blocks@.last()]);
            assert(added.drop_last() =~= Seq::<RunBlock>::empty());
            assert(added.take(0) =~= Seq::<RunBlock>::empty());
            assert(with_labels(t0, added.drop_last()) == t0);
            assert(with_labels(t0, added) == labelled(t0, self.blocks@.last()));
            assert(table_state(*symbol_table) == labelled(t0, self.blocks@.last()));
        }
        BlockBuilder { block_ref: self.current_block, symbol: block_ref }
    }

    pub fn block(&self, block_ref: BlockRef) -> (r: BlockBuilder)
        requires
            block_ref < self.blocks().len(),
        ensures
            r.block_ref == block_ref,
            r.symbol == self.blocks()[block_ref as int].symbol,
    {
        BlockBuilder { block_ref, symbol: self.blocks[block_ref].symbol }
    }

    /// Appends a statement to a run.
    pub fn add_statement(&mut self, block_ref: BlockRef, statement: Statement)
        requires
            block_ref < old(self).blocks().len(),
        ensures
            final(self).wf() == old(self).wf(),
            final(self).blocks().len() == old(self).blocks().len(),
            final(self).current() == old(self).current(),
            forall|i: int|
                0 <= i < old(self).blocks().len() && i != block_ref ==> final(self).blocks()[i]
                    == old(self).blocks()[i],
            final(self).blocks()[block_ref as int].name == old(self).blocks()[block_ref as int].name,
            final(self).blocks()[block_ref as int].symbol == old(self).blocks()[block_ref as int].symbol,
            final(self).blocks()[block_ref as int].statements@ == old(self).blocks()[block_ref as int].statements@.push(
                statement,
            ),
            names_kept(*old(self), *final(self)),
    {
        self.blocks[block_ref].statements.push(statement);
    }

    /// Appends runs and makes the last of them current; returns the index of
    /// the first appended run.
    pub fn append_blocks(&mut self, blocks: Vec<RunBlock>) -> (r: BlockRef)
        requires
            old(self).wf(),
        ensures
            r == old(self).blocks().len(),
            final(self).blocks() == old(self).blocks() + blocks@,
            final(self).wf(),
            final(self).current() == final(self).blocks().len() - 1,
            names_kept(*old(self), *final(self)),
    {
        let first_appended = self.blocks.len();
        let mut blocks = blocks;
        self.blocks.append(&mut blocks);
        self.current_block = self.blocks.len() - 1;
        first_appended
    }

    pub fn build(self) -> (r: Vec<RunBlock>)
        ensures
            r@ == self.blocks(),
            self.wf() ==> r@.len() >= 1,
    {
        self.blocks
    }
}

} // verus!
