//! The syntax tree of Hassel programs, and the helpers its grammar uses.
use vstd::prelude::*;
use vstd::string::StrSliceExecFns;
use crate::text::push_char;

pub mod ast;

verus! {

/// `s` with every occurrence of `from` replaced by `to`, the occurrences
/// found from left to right without overlapping.
pub open spec fn replaced(s: Seq<char>, from: Seq<char>, to: Seq<char>) -> Seq<char>
    decreases s.len(),
{
    if s.len() == 0 {
        Seq::empty()
    } else if 0 < from.len() <= s.len() && s.take(from.len() as int) == from {
        to + replaced(s.skip(from.len() as int), from, to)
    } else {
        seq![s[0]] + replaced(s.skip(1), from, to)
    }
}

/// The text of a string literal with its escapes `\"`, `\n`, `\t` and `\r`
/// replaced, in that order, by the characters they stand for.
pub open spec fn unescaped(s: Seq<char>) -> Seq<char> {
    replaced(
        replaced(
            replaced(replaced(s, seq!['\\', '"'], seq!['"']), seq!['\\', 'n'], seq!['\n']),
            seq!['\\', 't'],
            seq!['\t'],
        ),
        seq!['\\', 'r'],
        seq!['\r'],
    )
}

proof fn lemma_replaced_without_backslash(s: Seq<char>, second: char, with: char)
    requires
        !s.contains('\\'),
    ensures
        replaced(s, seq!['\\', second], seq![with]) == s,
    decreases s.len(),
{
    if s.len() > 0 {
        assert(s[0] != '\\') by {
            assert(s.contains(s[0]) || s[0] != '\\');
        }
        if 2 <= s.len() {
            assert(s.take(2)[0] == s[0]);
        }
        assert(!s.skip(1).contains('\\')) by {
            if s.skip(1).contains('\\') {
                let k = choose|k: int| 0 <= k < s.skip(1).len() && s.skip(1)[k] == '\\';
                assert(s[k + 1] == '\\');
            }
        }
        lemma_replaced_without_backslash(s.skip(1), second, with);
        assert(s =~= seq![s[0]] + s.skip(1));
    }
}

/// A text without a backslash holds no escape: unescaping keeps it as it is.
pub proof fn lemma_unescape_without_backslash(s: Seq<char>)
    requires
        !s.contains('\\'),
    ensures
        unescaped(s) == s,
{
    lemma_replaced_without_backslash(s, '"', '"');
    lemma_replaced_without_backslash(s, 'n', '\n');
    lemma_replaced_without_backslash(s, 't', '\t');
    lemma_replaced_without_backslash(s, 'r', '\r');
}

/// Replaces each backslash followed by `second` with `with`.
fn replace_escape(s: &Vec<char>, second: char, with: char) -> (r: Vec<char>)
    ensures
        r@ == replaced(s@, seq!['\\', second], seq![with]),
{
    let ghost pattern = seq!['\\', second];
    let ghost target = replaced(s@, pattern, seq![with]);
    let mut out: Vec<char> = Vec::new();
    let mut i: usize = 0;
    assert(s@.skip(0) =~= s@);
    while i < s.len()
        invariant
            i <= s@.len(),
            pattern == seq!['\\', second],
            target == replaced(s@, pattern, seq![with]),
            target == out@ + replaced(s@.skip(i as int), pattern, seq![with]),
        decreases s@.len() - i,
    {
        let ghost rest = s@.skip(i as int);
        if i + 1 < s.len() && s[i] == '\\' && s[i + 1] == second {
            proof {
                assert(rest.take(2) =~= pattern);
                assert(rest.skip(2) =~= s@.skip(i + 2));
            }
            out.push(with);
            i += 2;
        } else {
            proof {
                assert(rest.skip(1) =~= s@.skip(i + 1));
                if 2 <= rest.len() {
                    assert(rest.take(2)[0] == s@[i as int]);
                    assert(rest.take(2)[1] == s@[i + 1]);
                }
                assert(!(0 < pattern.len() <= rest.len() && rest.take(2) == pattern));
            }
            out.push(s[i]);
            i += 1;
        }
        assert(target == out@ + replaced(s@.skip(i as int), pattern, seq![with]));
    }
    assert(s@.skip(i as int) =~= Seq::<char>::empty());
    assert(out@ =~= target);
    out
}

/// Replaces the escapes of a string literal with the characters they stand
/// for: `\"`, then `\n`, then `\t`, then `\r`.
pub fn unescape_string(s: &str) -> (r: String)
    ensures
        r@ == unescaped(s@),
{
    let n = s.unicode_len();
    let mut chars: Vec<char> = Vec::new();
    let mut i: usize = 0;
    while i < n
        invariant
            n == s@.len(),
            i <= n,
            chars@ == s@.take(i as int),
        decreases n - i,
    {
        chars.push(s.get_char(i));
        i += 1;
        assert(chars@ =~= s@.take(i as int));
    }
    assert(s@.take(n as int) =~= s@);
    let chars = replace_escape(&chars, '"', '"');
    let chars = replace_escape(&chars, 'n', '\n');
    let chars = replace_escape(&chars, 't', '\t');
    let chars = replace_escape(&chars, 'r', '\r');
    let mut result = String::new();
    let mut k: usize = 0;
    while k < chars.len()
        invariant
            k <= chars@.len(),
            result@ == chars@.take(k as int),
        decreases chars@.len() - k,
    {
        push_char(&mut result, chars[k]);
        k += 1;
        assert(result@ =~= chars@.take(k as int));
    }
    assert(chars@.take(k as int) =~= chars@);
    result
}

} // verus!
