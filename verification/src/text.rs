//! Building the text of the generated assembly: numbers in decimal and in
//! upper-case hexadecimal, the way the assembler reads them.
use vstd::prelude::*;
use vstd::string::{StrSliceExecFns, StringExecFns};

verus! {

/// The character for a digit below 16 (upper-case for 10 to 15).
pub open spec fn digit_char(d: int) -> char {
    if d < 10 {
        (48 + d) as char
    } else {
        (55 + d) as char
    }
}

/// The digits of `v` in the given base, most significant first, without
/// leading zeros (`0` is the single digit `0`).
pub open spec fn digits(v: nat, base: nat) -> Seq<char>
    recommends
        base == 10 || base == 16,
    decreases v,
{
    if base < 2 || v < base {
        seq![digit_char(v as int)]
    } else {
        proof {
            assert(v / base < v) by (nonlinear_arith)
                requires
                    base >= 2,
                    v >= base,
            ;
        }
        digits(v / base, base).push(digit_char((v % base) as int))
    }
}

/// `n` copies of the character `c`.
pub open spec fn repeat_char(c: char, n: nat) -> Seq<char> {
    Seq::new(n, |_i: int| c)
}

/// The upper-case hexadecimal text of `v`, padded with zeros to at least
/// `width` characters.
pub open spec fn hex_text(v: nat, width: nat) -> Seq<char> {
    let d = digits(v, 16);
    if d.len() < width {
        repeat_char('0', (width - d.len()) as nat) + d
    } else {
        d
    }
}

/// The decimal text of `v`.
pub open spec fn decimal_text(v: nat) -> Seq<char> {
    digits(v, 10)
}

/// Appends one character to a string.
#[verifier::external_body]
pub fn push_char(s: &mut String, c: char)
    ensures
        final(s)@ == old(s)@.push(c),
{
    s.push(c);
}

/// Appends a string slice to a string.
pub fn push_str(s: &mut String, t: &str)
    ensures
        final(s)@ == old(s)@ + t@,
{
    s.append(t);
}

fn digit_for(d: u64) -> (c: char)
    requires
        d < 16,
    ensures
        c == digit_char(d as int),
{
    let b: u8 = if d < 10 {
        48 + d as u8
    } else {
        55 + d as u8
    };
    b as char
}

proof fn lemma_digits_len(v: nat, base: nat)
    requires
        base == 10 || base == 16,
    ensures
        1 <= digits(v, base).len() <= v + 1,
    decreases v,
{
    if v >= base {
        lemma_digits_len(v / base, base);
    }
}

fn push_digits(s: &mut String, v: u64, base: u64)
    requires
        base == 10 || base == 16,
    ensures
        final(s)@ == old(s)@ + digits(v as nat, base as nat),
    decreases v,
{
    if v >= base {
        push_digits(s, v / base, base);
    }
    push_char(s, digit_for(v % base));
    proof {
        if v >= base {
            assert(digits(v as nat, base as nat) == digits((v / base) as nat, base as nat).push(
                digit_char((v % base) as int),
            ));
        }
    }
}

fn count_digits(v: u64, base: u64) -> (n: u64)
    requires
        base == 10 || base == 16,
    ensures
        n == digits(v as nat, base as nat).len(),
    decreases v,
{
    proof {
        lemma_digits_len(v as nat, base as nat);
    }
    if v >= base {
        let n = count_digits(v / base, base);
        proof {
            lemma_digits_len((v / base) as nat, base as nat);
            assert(v / base <= v / 2) by (nonlinear_arith)
                requires
                    base >= 2,
            ;
        }
        n + 1
    } else {
        1
    }
}

/// Appends the upper-case hexadecimal text of `v`, padded with zeros to at
/// least `width` characters.
pub fn push_hex(s: &mut String, v: u64, width: usize)
    ensures
        final(s)@ == old(s)@ + hex_text(v as nat, width as nat),
{
    let n = count_digits(v, 16);
    let w = width as u64;
    let ghost start = s@;
    if n < w {
        let mut i: u64 = n;
        while i < w
            invariant
                n <= i <= w,
                w == width,
                s@ == start + repeat_char('0', (i - n) as nat),
            decreases w - i,
        {
            push_char(s, '0');
            i += 1;
            proof {
                assert(repeat_char('0', (i - n) as nat) =~= repeat_char('0', (i - 1 - n) as nat).push(
                    '0',
                ));
            }
        }
    }
    let ghost padded = s@;
    push_digits(s, v, 16);
    proof {
        assert(s@ =~= start + hex_text(v as nat, width as nat));
    }
}

/// Appends the decimal text of `v`.
pub fn push_decimal(s: &mut String, v: u64)
    ensures
        final(s)@ == old(s)@ + decimal_text(v as nat),
{
    push_digits(s, v, 10);
}


/// One character of a quoted string: quotes, backslashes and the usual
/// control characters are escaped with a backslash.
pub open spec fn escaped_char(c: char) -> Seq<char> {
    if c == '"' {
        seq!['\\', '"']
    } else if c == '\\' {
        seq!['\\', '\\']
    } else if c == '\n' {
        seq!['\\', 'n']
    } else if c == '\r' {
        seq!['\\', 'r']
    } else if c == '\t' {
        seq!['\\', 't']
    } else if c == '\0' {
        seq!['\\', '0']
    } else {
        seq![c]
    }
}

/// The characters of `s`, each escaped.
pub open spec fn escaped(s: Seq<char>) -> Seq<char>
    decreases s.len(),
{
    if s.len() == 0 {
        Seq::empty()
    } else {
        escaped(s.drop_last()) + escaped_char(s.last())
    }
}

/// A string between double quotes.
pub open spec fn quoted(s: Seq<char>) -> Seq<char> {
    seq!['"'] + escaped(s) + seq!['"']
}

/// The escape sequence for `c`, or nothing when `c` stands for itself.
fn escape_char(c: char) -> (r: &'static str)
    ensures
        r@.len() == 0 ==> escaped_char(c) == seq![c],
        r@.len() > 0 ==> escaped_char(c) == r@,
{
    proof {
        reveal_strlit("\\\"");
        reveal_strlit("\\\\");
        reveal_strlit("\\n");
        reveal_strlit("\\r");
        reveal_strlit("\\t");
        reveal_strlit("\\0");
        reveal_strlit("");
    }
    if c == '"' {
        "\\\""
    } else if c == '\\' {
        "\\\\"
    } else if c == '\n' {
        "\\n"
    } else if c == '\r' {
        "\\r"
    } else if c == '\t' {
        "\\t"
    } else if c == '\0' {
        "\\0"
    } else {
        ""
    }
}

/// Appends `text` between double quotes, escaped as `quoted` says.
pub fn push_quoted(s: &mut String, text: &String)
    ensures
        final(s)@ == old(s)@ + quoted(text@),
{
    push_char(s, '"');
    let t = text.as_str();
    let n = t.unicode_len();
    let mut i: usize = 0;
    while i < n
        invariant
            n == t@.len(),
            t@ == text@,
            i <= n,
            s@ == old(s)@ + seq!['"'] + escaped(t@.take(i as int)),
        decreases n - i,
    {
        let c = t.get_char(i);
        let e = escape_char(c);
        if e.is_empty() {
            push_char(s, c);
        } else {
            push_str(s, e);
        }
        proof {
            assert(t@.take(i + 1).drop_last() =~= t@.take(i as int));
        }
        i += 1;
        assert(s@ =~= old(s)@ + seq!['"'] + escaped(t@.take(i as int)));
    }
    push_char(s, '"');
    assert(t@.take(n as int) =~= t@);
    assert(s@ =~= old(s)@ + quoted(text@));
}

} // verus!
