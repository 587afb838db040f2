use vstd::prelude::*;
use crate::src_tag::SrcTag;
use crate::symbol_table::SymbolName;

verus! {

/// What went wrong.
#[derive(Debug)]
pub enum ErrorKind {
    /// The program text could not be parsed; one message per problem.
    ParseError(Vec<String>),
    /// A tagged error, placed in the program text: the unit's name, the row
    /// and column, and the error.
    CompilerError(String, (usize, usize), Box<Error>),
    ConstCantBeVoid(SrcTag),
    ConstEvaluationFailed(SrcTag),
    DuplicateSymbol(SrcTag, SymbolName),
    ExpectedNArgumentsGotM(SrcTag, SymbolName, usize, usize),
    InvalidLeftValue(SrcTag),
    MustReturnAValue(SrcTag),
    OrgOutOfRange(SrcTag),
    OutOfBounds(SrcTag, isize, isize, isize),
    SymbolNotFound(SrcTag, SymbolName),
    TypeExprError(SrcTag, String),
}

/// An error of compilation.
#[derive(Debug)]
pub struct Error(pub ErrorKind);

/// The results of compilation steps.
pub type Result<T> = core::result::Result<T, Error>;

/// The place in the program text that an error points to, for the errors
/// that have one.
pub open spec fn error_tag(kind: ErrorKind) -> Option<SrcTag> {
    match kind {
        ErrorKind::ConstCantBeVoid(t) | ErrorKind::ConstEvaluationFailed(t)
        | ErrorKind::DuplicateSymbol(t, _) | ErrorKind::ExpectedNArgumentsGotM(t, _, _, _)
        | ErrorKind::InvalidLeftValue(t) | ErrorKind::MustReturnAValue(t)
        | ErrorKind::OrgOutOfRange(t) | ErrorKind::OutOfBounds(t, _, _, _)
        | ErrorKind::SymbolNotFound(t, _) | ErrorKind::TypeExprError(t, _) => Some(t),
        _ => None,
    }
}

impl Error {
    /// The place in the program text that the error points to.
    pub fn tag(&self) -> (r: Option<SrcTag>)
        ensures
            r == error_tag(self.0),
    {
        match &self.0 {
            ErrorKind::ConstCantBeVoid(t) | ErrorKind::ConstEvaluationFailed(t)
            | ErrorKind::DuplicateSymbol(t, _) | ErrorKind::ExpectedNArgumentsGotM(t, _, _, _)
            | ErrorKind::InvalidLeftValue(t) | ErrorKind::MustReturnAValue(t)
            | ErrorKind::OrgOutOfRange(t) | ErrorKind::OutOfBounds(t, _, _, _)
            | ErrorKind::SymbolNotFound(t, _) | ErrorKind::TypeExprError(t, _) => Some(*t),
            _ => None,
        }
    }
}

/// The texts of the units, one after another in the program text.
pub open spec fn texts(sources: Seq<String>) -> Seq<Seq<char>> {
    sources.map_values(|s: String| s@)
}

/// Where the offset `t` of the program text falls among the units' texts,
/// which follow one another in it: the unit, and the offset within its
/// text. An offset at the end of a unit's text falls in that unit; one past
/// the last text falls in none.
pub open spec fn unit_at(texts: Seq<Seq<char>>, t: int) -> Option<(int, int)>
    decreases texts.len(),
{
    if texts.len() == 0 {
        None
    } else if t <= texts[0].len() {
        Some((0, t))
    } else {
        match unit_at(texts.drop_first(), t - texts[0].len()) {
            Some((k, o)) => Some((k + 1, o)),
            None => None,
        }
    }
}

/// A place among units moved on by `by` units.
pub open spec fn shifted(place: Option<(int, int)>, by: int) -> Option<(int, int)> {
    match place {
        Some((k, o)) => Some((k + by, o)),
        None => None,
    }
}

proof fn lemma_unit_at_bounds(texts: Seq<Seq<char>>, t: int)
    requires
        0 <= t,
    ensures
        unit_at(texts, t) matches Some((k, o)) ==> 0 <= k < texts.len() && 0 <= o <= texts[k].len(),
    decreases texts.len(),
{
    if texts.len() > 0 && t > texts[0].len() {
        lemma_unit_at_bounds(texts.drop_first(), t - texts[0].len());
    }
}

/// Finds the unit whose text the offset `t` of the program text falls in,
/// with the offset within that text, as `unit_at` says.
pub fn unit_of(unit_sources: &Vec<String>, t: usize) -> (r: Option<(usize, usize)>)
    ensures
        match r {
            Some((k, o)) => unit_at(texts(unit_sources@), t as int) == Some((k as int, o as int)),
            None => unit_at(texts(unit_sources@), t as int) is None,
        },
{
    let ghost ts = texts(unit_sources@);
    let mut offset: usize = t;
    let mut k: usize = 0;
    proof {
        assert(ts.skip(0) =~= ts);
    }
    while k < unit_sources.len()
        invariant
            k <= unit_sources@.len(),
            ts == texts(unit_sources@),
            ts.len() == unit_sources@.len(),
            shifted(unit_at(ts.skip(k as int), offset as int), k as int) == unit_at(ts, t as int),
        decreases unit_sources@.len() - k,
    {
        let len = unit_sources[k].unicode_len();
        proof {
            assert(ts.skip(k as int)[0] == ts[k as int]);
        }
        if offset <= len {
            return Some((k, offset));
        }
        proof {
            assert(ts.skip(k as int).drop_first() =~= ts.skip(k + 1));
        }
        offset = offset - len;
        k += 1;
    }
    proof {
        assert(ts.skip(k as int).len() == 0);
    }
    None
}

/// Whether `r` is `err` placed among the units: the name of the unit its
/// tag falls in, as `unit_at` says, the (row, column) of the tag within
/// that unit's text, and `err` itself.
pub open spec fn placed_error(unit_names: Seq<String>, unit_sources: Seq<String>, err: Error, r: Error) -> bool {
    let t = error_tag(err.0)->0;
    let (k, o) = unit_at(texts(unit_sources), t.0 as int)->0;
    r.0 matches ErrorKind::CompilerError(name, row_col, reason) && name@ == unit_names[k]@
        && (row_col.0 as int, row_col.1 as int) == crate::src_tag::row_col_after(unit_sources[k]@.take(o))
        && *reason == err
}

/// Places a tagged error in the program text that it came from, the units'
/// texts following one another: the name of the unit its tag falls in, the
/// (row, column) of its tag there, and the error itself.
pub fn to_compiler_error(unit_names: &Vec<String>, unit_sources: &Vec<String>, err: Error) -> (r: Error)
    requires
        unit_names@.len() == unit_sources@.len(),
        forall|k: int| 0 <= k < unit_sources@.len() ==> (#[trigger] unit_sources@[k])@.len() < usize::MAX,
        error_tag(err.0) matches Some(t) && unit_at(texts(unit_sources@), t.0 as int) is Some,
    ensures
        placed_error(unit_names@, unit_sources@, err, r),
{
    let tag = err.tag().unwrap();
    let (k, offset) = unit_of(unit_sources, tag.0).unwrap();
    proof {
        lemma_unit_at_bounds(texts(unit_sources@), tag.0 as int);
        assert(texts(unit_sources@)[k as int] == unit_sources@[k as int]@);
    }
    let row_col = SrcTag(offset).row_col(unit_sources[k].as_str());
    Error(ErrorKind::CompilerError(unit_names[k].clone(), row_col, Box::new(err)))
}

} // verus!
