//! Small verified utilities on strings and decimal digits that the rest of
//! the library builds on.  All algorithms work over `Seq<char>` views;
//! executable code moves between `String` and `Vec<char>` at the edges.

use vstd::prelude::*;
use vstd::string::StrSliceExecFns;

verus! {

/// The characters of `s`, in order, as a vector.
pub fn string_to_chars(s: &str) -> (r: Vec<char>)
    ensures
        r@ == s@,
{
    let n = s.unicode_len();
    let mut r: Vec<char> = Vec::new();
    let mut i: usize = 0;
    while i < n
        invariant
            i <= n,
            n == s@.len(),
            r@ == s@.subrange(0, i as int),
        decreases n - i,
    {
        r.push(s.get_char(i));
        i = i + 1;
        proof {
            assert(r@ =~= s@.subrange(0, i as int));
        }
    }
    proof {
        assert(r@ =~= s@);
    }
    r
}

/// Relies on std's `FromIterator<char> for String`: collecting characters
/// yields the string of exactly those characters, in order.
#[verifier::external_body]
pub fn chars_to_string(v: &Vec<char>) -> (r: String)
    ensures
        r@ == v@,
{
    v.iter().collect()
}

/// The decimal digit character for a value below ten.
pub open spec fn dec_digit(d: nat) -> char
    recommends
        d < 10,
{
    if d == 0 {
        '0'
    } else if d == 1 {
        '1'
    } else if d == 2 {
        '2'
    } else if d == 3 {
        '3'
    } else if d == 4 {
        '4'
    } else if d == 5 {
        '5'
    } else if d == 6 {
        '6'
    } else if d == 7 {
        '7'
    } else if d == 8 {
        '8'
    } else {
        '9'
    }
}

/// The decimal rendering of `n`, without sign or leading zeros
/// (`0` renders as `"0"`).
pub open spec fn dec_str(n: nat) -> Seq<char>
    decreases n,
{
    if n < 10 {
        seq![dec_digit(n)]
    } else {
        dec_str(n / 10) + seq![dec_digit(n % 10)]
    }
}

fn dec_digit_char(d: u64) -> (c: char)
    requires
        d < 10,
    ensures
        c == dec_digit(d as nat),
{
    if d == 0 {
        '0'
    } else if d == 1 {
        '1'
    } else if d == 2 {
        '2'
    } else if d == 3 {
        '3'
    } else if d == 4 {
        '4'
    } else if d == 5 {
        '5'
    } else if d == 6 {
        '6'
    } else if d == 7 {
        '7'
    } else if d == 8 {
        '8'
    } else {
        '9'
    }
}

/// Appends the decimal rendering of `n` to `out`.
pub fn push_dec(n: u64, out: &mut Vec<char>)
    ensures
        final(out)@ == old(out)@ + dec_str(n as nat),
    decreases n,
{
    if n < 10 {
        out.push(dec_digit_char(n));
    } else {
        push_dec(n / 10, out);
        out.push(dec_digit_char(n % 10));
        proof {
            assert(out@ =~= old(out)@ + dec_str(n as nat));
        }
    }
}

/// The decimal rendering of `n` as a string.
pub fn u64_to_dec(n: u64) -> (r: String)
    ensures
        r@ == dec_str(n as nat),
{
    let mut v: Vec<char> = Vec::new();
    push_dec(n, &mut v);
    chars_to_string(&v)
}

/// Whether `pat` occurs in `s` at position `i`.
pub open spec fn contains_at(s: Seq<char>, pat: Seq<char>, i: int) -> bool {
    0 <= i && i + pat.len() <= s.len() && s.subrange(i, i + pat.len()) == pat
}

/// The first position at or after `from` where `pat` occurs in `s`.
pub open spec fn find_pat_from(s: Seq<char>, pat: Seq<char>, from: int) -> Option<int>
    decreases s.len() - from,
    via find_pat_from_decreases
{
    if from < 0 || from + pat.len() > s.len() {
        None
    } else if contains_at(s, pat, from) {
        Some(from)
    } else {
        find_pat_from(s, pat, from + 1)
    }
}

#[via_fn]
proof fn find_pat_from_decreases(s: Seq<char>, pat: Seq<char>, from: int) {
    if !(from < 0 || from + pat.len() > s.len()) && !contains_at(s, pat, from) {
        if pat.len() == 0 {
            assert(s.subrange(from, from) =~= pat);
        }
    }
}

/// A found occurrence lies at or after `from` and fits inside `s`.
pub proof fn lemma_find_pat_from_bounds(s: Seq<char>, pat: Seq<char>, from: int)
    ensures
        (match find_pat_from(s, pat, from) {
            Some(i) => from <= i && i + pat.len() <= s.len(),
            None => true,
        }),
    decreases s.len() - from,
{
    if !(from < 0 || from + pat.len() > s.len()) {
        if pat.len() == 0 {
            assert(s.subrange(from, from) =~= pat);
        }
        if !contains_at(s, pat, from) {
            lemma_find_pat_from_bounds(s, pat, from + 1);
        }
    }
}

/// Finds the first occurrence of `pat` in `cs` at or after `from`.
pub fn find_pat(cs: &Vec<char>, pat: &Vec<char>, from: usize) -> (r: Option<usize>)
    requires
        pat@.len() > 0,
    ensures
        (match r {
            Some(i) => find_pat_from(cs@, pat@, from as int) == Some(i as int) && from <= i && i
                + pat@.len() <= cs@.len(),
            None => find_pat_from(cs@, pat@, from as int) is None,
        }),
{
    let n = cs.len();
    let m = pat.len();
    let mut i = from;
    while n >= m && i <= n - m
        invariant
            from <= i,
            m == pat@.len(),
            n == cs@.len(),
            m > 0,
            find_pat_from(cs@, pat@, from as int) == find_pat_from(cs@, pat@, i as int),
        decreases n - i,
    {
        let mut j: usize = 0;
        let mut matched = true;
        while j < m
            invariant
                j <= m,
                i + m <= n,
                m == pat@.len(),
                n == cs@.len(),
                matched == (forall|k: int| 0 <= k < j ==> cs@[i + k] == pat@[k]),
            decreases m - j,
        {
            if cs[i + j] != pat[j] {
                matched = false;
                proof {
                    assert(cs@[i + j as int] != pat@[j as int]);
                }
                j = m;
            } else {
                j = j + 1;
            }
        }
        if matched {
            proof {
                assert(cs@.subrange(i as int, i + m) =~= pat@);
                assert(contains_at(cs@, pat@, i as int));
            }
            return Some(i);
        }
        proof {
            let w = choose|k: int| 0 <= k < m && cs@[i + k] != pat@[k];
            assert(cs@.subrange(i as int, i + m)[w] != pat@[w]);
            assert(!contains_at(cs@, pat@, i as int));
        }
        i = i + 1;
    }
    proof {
        assert(find_pat_from(cs@, pat@, i as int) is None);
    }
    None
}

/// Whether `c` is a decimal digit.
pub open spec fn is_dec_digit(c: char) -> bool {
    '0' <= c && c <= '9'
}

/// The value of a decimal digit character.
pub open spec fn dec_digit_val(c: char) -> nat
    recommends
        is_dec_digit(c),
{
    (c as int - '0' as int) as nat
}

/// Whether every character of `s` is a decimal digit.
pub open spec fn all_dec_digits(s: Seq<char>) -> bool {
    forall|i: int| 0 <= i < s.len() ==> is_dec_digit(#[trigger] s[i])
}

/// The numeric value of a string of decimal digits, most significant first.
pub open spec fn dec_value(s: Seq<char>) -> nat
    decreases s.len(),
{
    if s.len() == 0 {
        0
    } else {
        dec_value(s.drop_last()) * 10 + dec_digit_val(s.last())
    }
}

proof fn lemma_dec_value_take_step(s: Seq<char>, j: int)
    requires
        0 <= j < s.len(),
    ensures
        dec_value(s.take(j + 1)) == dec_value(s.take(j)) * 10 + dec_digit_val(s[j]),
{
    assert(s.take(j + 1).drop_last() =~= s.take(j));
    assert(s.take(j + 1).last() == s[j]);
}

proof fn lemma_dec_value_grows(s: Seq<char>, i: int, j: int)
    requires
        0 <= i <= j <= s.len(),
    ensures
        dec_value(s.take(j)) >= dec_value(s.take(i)),
    decreases j - i,
{
    if i < j {
        lemma_dec_value_grows(s, i, j - 1);
        lemma_dec_value_take_step(s, j - 1);
        assert(dec_value(s.take(j - 1)) * 10 >= dec_value(s.take(j - 1))) by (nonlinear_arith);
    }
}

/// Reads an unsigned decimal number, returning its value when the whole
/// string is made of digits and the value fits in a `u64`.
pub fn parse_u64(s: &str) -> (r: Option<u64>)
    ensures
        match r {
            Some(v) => s@.len() > 0 && all_dec_digits(s@) && v as nat == dec_value(s@),
            None => s@.len() == 0 || !all_dec_digits(s@) || dec_value(s@) > u64::MAX,
        },
{
    let cs = string_to_chars(s);
    if cs.len() == 0 {
        return None;
    }
    let mut acc: u64 = 0;
    let mut i: usize = 0;
    while i < cs.len()
        invariant
            0 <= i <= cs.len(),
            cs@ == s@,
            cs.len() > 0,
            acc as nat == dec_value(s@.take(i as int)),
            forall|k: int| 0 <= k < i ==> is_dec_digit(#[trigger] s@[k]),
        decreases cs.len() - i,
    {
        let c = cs[i];
        if !('0' <= c && c <= '9') {
            return None;
        }
        let d: u64 = (c as u32 as u64) - ('0' as u32 as u64);
        assert(d == dec_digit_val(c));
        if acc > (u64::MAX - d) / 10 {
            proof {
                assert(acc * 10 + d > u64::MAX) by (nonlinear_arith)
                    requires
                        d < 10,
                        acc > (u64::MAX - d) / 10,
                ;
                lemma_dec_value_take_step(s@, i as int);
                lemma_dec_value_grows(s@, i as int + 1, s@.len() as int);
                assert(s@.take(s@.len() as int) =~= s@);
            }
            return None;
        }
        proof {
            assert(acc * 10 + d <= u64::MAX) by (nonlinear_arith)
                requires
                    d < 10,
                    acc <= (u64::MAX - d) / 10,
            ;
            lemma_dec_value_take_step(s@, i as int);
        }
        acc = acc * 10 + d;
        i = i + 1;
    }
    proof {
        assert(s@.take(s@.len() as int) =~= s@);
    }
    Some(acc)
}

} // verus!
