use vstd::prelude::*;
use vstd::string::StrSliceExecFns;

verus! {

/// The character offset in the program text where something is located.
#[derive(Debug, Clone, Copy, Eq, PartialEq, Structural)]
pub struct SrcTag(pub usize);

/// The (row, column) reached after reading `text`, starting from (1, 1):
/// each newline moves to the first column of the next row, every other
/// character moves one column right.
pub open spec fn row_col_after(text: Seq<char>) -> (int, int)
    decreases text.len(),
{
    if text.len() == 0 {
        (1, 1)
    } else {
        let (row, col) = row_col_after(text.drop_last());
        if text.last() == '\n' {
            (row + 1, 1)
        } else {
            (row, col + 1)
        }
    }
}

/// The offset of the first newline at or after `start`, or the end of the text.
pub open spec fn line_end(text: Seq<char>, start: int) -> int
    recommends
        0 <= start <= text.len(),
    decreases text.len() - start,
{
    if start >= text.len() {
        text.len() as int
    } else if text[start] == '\n' {
        start
    } else {
        line_end(text, start + 1)
    }
}

proof fn lemma_row_col_bounds(text: Seq<char>)
    ensures
        1 <= row_col_after(text).0,
        1 <= row_col_after(text).1,
        row_col_after(text).0 + row_col_after(text).1 <= text.len() + 2,
    decreases text.len(),
{
    if text.len() > 0 {
        lemma_row_col_bounds(text.drop_last());
    }
}

/// Where the line that holds the offset `at` starts: just after the last
/// newline before it, or at the start of the text.
pub open spec fn line_start(text: Seq<char>, at: int) -> int
    decreases at,
{
    if at <= 0 {
        0
    } else if text[at - 1] == '\n' {
        at
    } else {
        line_start(text, at - 1)
    }
}

proof fn lemma_line_start_bounds(text: Seq<char>, at: int)
    requires
        0 <= at <= text.len(),
    ensures
        0 <= line_start(text, at) <= at,
        forall|k: int| line_start(text, at) <= k < at ==> text[k] != '\n',
        line_start(text, at) > 0 ==> text[line_start(text, at) - 1] == '\n',
    decreases at,
{
    if at > 0 && text[at - 1] != '\n' {
        lemma_line_start_bounds(text, at - 1);
    }
}

proof fn lemma_line_end_bounds(text: Seq<char>, start: int)
    requires
        0 <= start <= text.len(),
    ensures
        start <= line_end(text, start) <= text.len(),
        forall|k: int| start <= k < line_end(text, start) ==> text[k] != '\n',
        line_end(text, start) < text.len() ==> text[line_end(text, start)] == '\n',
    decreases text.len() - start,
{
    if start < text.len() && text[start] != '\n' {
        lemma_line_end_bounds(text, start + 1);
    }
}

impl SrcTag {
    pub fn invalid() -> (r: SrcTag)
        ensures
            r.0 == usize::MAX,
    {
        SrcTag(usize::MAX)
    }

    /// Returns the (row, column) of this tag in the given program text
    pub fn row_col(&self, program: &str) -> (r: (usize, usize))
        requires
            self.0 <= program@.len(),
            program@.len() < usize::MAX,
        ensures
            (r.0 as int, r.1 as int) == row_col_after(program@.take(self.0 as int)),
    {
        let mut row: usize = 1;
        let mut col: usize = 1;
        let mut i: usize = 0;
        while i < self.0
            invariant
                i <= self.0 <= program@.len(),
                program@.len() < usize::MAX,
                (row as int, col as int) == row_col_after(program@.take(i as int)),
            decreases self.0 - i,
        {
            proof {
                lemma_row_col_bounds(program@.take(i as int));
                assert(program@.take(i + 1).drop_last() =~= program@.take(i as int));
            }
            if program.get_char(i) == '\n' {
                row += 1;
                col = 1;
            } else {
                col += 1;
            }
            i += 1;
        }
        (row, col)
    }

    /// Given the source program, returns the line of code that the tag
    /// points to: the whole line that holds the tag's offset, without its
    /// newline.
    pub fn line<'a>(&self, source: &'a str) -> (r: &'a str)
        requires
            self.0 <= source@.len(),
        ensures
            r@ == source@.subrange(
                line_start(source@, self.0 as int),
                line_end(source@, self.0 as int),
            ),
    {
        let len = source.unicode_len();
        let mut start: usize = self.0;
        while start > 0 && source.get_char(start - 1) != '\n'
            invariant
                start <= self.0 <= len,
                len == source@.len(),
                line_start(source@, self.0 as int) == line_start(source@, start as int),
            decreases start,
        {
            start -= 1;
        }
        proof {
            lemma_line_start_bounds(source@, self.0 as int);
        }
        let mut end: usize = self.0;
        proof {
            lemma_line_end_bounds(source@, self.0 as int);
        }
        while end < len && source.get_char(end) != '\n'
            invariant
                self.0 <= end <= len,
                len == source@.len(),
                line_end(source@, self.0 as int) == line_end(source@, end as int),
            decreases len - end,
        {
            end += 1;
        }
        source.substring_char(start, end)
    }
}

/// Things that remember where in the program text they came from.
pub trait SrcTagged {
    /// The tag that the value carries.
    spec fn carried_tag(&self) -> SrcTag;

    fn src_tag(&self) -> (r: SrcTag)
        ensures
            r == self.carried_tag(),
    ;
}

/// A tag at the start of the text is at row 1, column 1.
pub proof fn lemma_row_col_at_start(program: Seq<char>)
    ensures
        row_col_after(program.take(0)) == (1int, 1int),
{
}

/// Reading a newline moves to the first column of the next row.
pub proof fn lemma_row_col_after_newline(program: Seq<char>, offset: int)
    requires
        0 <= offset < program.len(),
        program[offset] == '\n',
    ensures
        row_col_after(program.take(offset + 1)) == (row_col_after(program.take(offset)).0 + 1, 1int),
{
    assert(program.take(offset + 1).drop_last() =~= program.take(offset));
}

/// The line a tag points to holds no newline.
pub proof fn lemma_line_has_no_newline(source: Seq<char>, offset: int)
    requires
        0 <= offset <= source.len(),
    ensures
        forall|k: int|
            0 <= k < line_end(source, offset) - line_start(source, offset) ==> source.subrange(
                line_start(source, offset),
                line_end(source, offset),
            )[k] != '\n',
{
    lemma_line_end_bounds(source, offset);
    lemma_line_start_bounds(source, offset);
}

} // verus!
