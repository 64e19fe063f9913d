//! Verified conversions between integers and their decimal texts, and small
//! helpers for working with strings character by character.
//!
//! The language renders integers in canonical decimal form when they are
//! concatenated into strings, and leniently parses the numeric fields of
//! structural elements, defaulting instead of erroring on malformed text.
//! Both directions are specified here exactly.

use vstd::prelude::*;

verus! {

/// The decimal digit character for `d` (0 through 9).
pub open spec fn digit_char(d: int) -> char {
    if d == 0 {
        '0'
    } else if d == 1 {
        '1'
    } else if d == 2 {
        '2'
    } else if d == 3 {
        '3'
    } else if d == 4 {
        '4'
    } else if d == 5 {
        '5'
    } else if d == 6 {
        '6'
    } else if d == 7 {
        '7'
    } else if d == 8 {
        '8'
    } else {
        '9'
    }
}

/// Whether `c` is a decimal digit character.
pub open spec fn is_digit_char(c: char) -> bool {
    '0' <= c && c <= '9'
}

/// The value of the digit character `c`, or 0 where `c` is no digit.
pub open spec fn digit_val(c: char) -> nat {
    if is_digit_char(c) {
        (c as int - '0' as int) as nat
    } else {
        0
    }
}

/// The decimal rendering of `n`, without sign and without leading zeros
/// (`0` renders as the single character `0`).
pub open spec fn dec_digits(n: nat) -> Seq<char>
    decreases n,
{
    if n < 10 {
        seq![digit_char(n as int)]
    } else {
        dec_digits(n / 10).push(digit_char((n % 10) as int))
    }
}

/// The canonical decimal rendering of the integer `i`, a `-` sign first
/// where `i` is negative.
pub open spec fn int_text(i: int) -> Seq<char> {
    if i < 0 {
        seq!['-'] + dec_digits((-i) as nat)
    } else {
        dec_digits(i as nat)
    }
}

/// Whether `s` is one or more decimal digit characters and nothing else.
pub open spec fn is_digit_seq(s: Seq<char>) -> bool {
    s.len() > 0 && forall|i: int| 0 <= i < s.len() ==> is_digit_char(#[trigger] s[i])
}

/// The value of the digit sequence `s`, most significant digit first.
pub open spec fn digits_val(s: Seq<char>) -> nat
    decreases s.len(),
{
    if s.len() == 0 {
        0
    } else {
        digits_val(s.drop_last()) * 10 + digit_val(s.last())
    }
}

/// Parsing one or more digits as an unsigned value: the value, or `None`
/// where `s` is not all digits or its value does not fit in 64 bits.
pub open spec fn spec_parse_u64(s: Seq<char>) -> Option<u64> {
    if is_digit_seq(s) && digits_val(s) <= u64::MAX {
        Some(digits_val(s) as u64)
    } else {
        None
    }
}

/// The digit character for the value `d`.
fn digit_to_char(d: u64) -> (c: char)
    requires
        d < 10,
    ensures
        c == digit_char(d as int),
{
    if d == 0 {
        '0'
    } else if d == 1 {
        '1'
    } else if d == 2 {
        '2'
    } else if d == 3 {
        '3'
    } else if d == 4 {
        '4'
    } else if d == 5 {
        '5'
    } else if d == 6 {
        '6'
    } else if d == 7 {
        '7'
    } else if d == 8 {
        '8'
    } else {
        '9'
    }
}

/// Relies on `String::push`: appends one character at the end.
#[verifier::external_body]
pub fn push_char(s: &mut String, c: char)
    ensures
        final(s)@ == old(s)@.push(c),
{
    s.push(c);
}

/// Appends every character of `v` to `s`, in order.
pub fn push_chars(s: &mut String, v: &Vec<char>)
    ensures
        final(s)@ == old(s)@ + v@,
{
    let n = v.len();
    for i in 0..n
        invariant
            n == v@.len(),
            s@ == old(s)@ + v@.take(i as int),
    {
        push_char(s, v[i]);
        proof {
            assert(old(s)@ + v@.take(i + 1) =~= (old(s)@ + v@.take(i as int)).push(v@[i as int]));
        }
    }
    proof {
        assert(old(s)@ + v@.take(n as int) =~= old(s)@ + v@);
    }
}

/// The characters of `s`, as a vector.
pub fn str_chars(s: &str) -> (v: Vec<char>)
    ensures
        v@ == s@,
{
    let n = s.unicode_len();
    let mut v: Vec<char> = Vec::new();
    for i in 0..n
        invariant
            n == s@.len(),
            v@ == s@.take(i as int),
    {
        v.push(s.get_char(i));
        proof {
            assert(s@.take(i + 1) =~= s@.take(i as int).push(s@[i as int]));
        }
    }
    proof {
        assert(s@.take(n as int) =~= s@);
    }
    v
}

/// A `String` holding exactly the characters of `v`.
pub fn chars_to_string(v: &Vec<char>) -> (s: String)
    ensures
        s@ == v@,
{
    let mut s = String::new();
    push_chars(&mut s, v);
    proof {
        assert(Seq::<char>::empty() + v@ =~= v@);
    }
    s
}

/// A `String` holding the characters of `v` from `a` up to `b`.
pub fn chars_substring(v: &Vec<char>, a: usize, b: usize) -> (s: String)
    requires
        a <= b <= v@.len(),
    ensures
        s@ == v@.subrange(a as int, b as int),
{
    let mut s = String::new();
    proof {
        assert(v@.subrange(a as int, a as int) =~= Seq::<char>::empty());
    }
    for i in a..b
        invariant
            a <= i <= b <= v@.len(),
            s@ == v@.subrange(a as int, i as int),
    {
        push_char(&mut s, v[i]);
        proof {
            assert(v@.subrange(a as int, i + 1) =~= v@.subrange(a as int, i as int).push(
                v@[i as int]));
        }
    }
    s
}

/// The decimal rendering of `n`.
pub fn u64_to_dec(n: u64) -> (s: String)
    ensures
        s@ == dec_digits(n as nat),
{
    let mut rev: Vec<char> = Vec::new();
    let mut m: u64 = n;
    proof {
        assert(dec_digits(n as nat) =~= dec_digits(n as nat) + Seq::<char>::empty().reverse());
    }
    loop
        invariant_except_break
            dec_digits(n as nat) == dec_digits(m as nat) + rev@.reverse(),
        ensures
            dec_digits(n as nat) == rev@.reverse(),
        decreases m,
    {
        let ghost m0 = m as nat;
        let ghost rev0 = rev@;
        let d = m % 10;
        m = m / 10;
        rev.push(digit_to_char(d));
        proof {
            let c = digit_char(d as int);
            assert(rev@ == rev0.push(c));
            lemma_rev_push(rev0, c);
            if m > 0 {
                assert(dec_digits(m0) == dec_digits(m0 / 10).push(digit_char((m0 % 10) as int)));
                assert(dec_digits(m as nat).push(c) + rev0.reverse() =~= dec_digits(m as nat) + (
                seq![c] + rev0.reverse()));
            } else {
                assert(m0 < 10);
                assert(dec_digits(m0) == seq![c]);
            }
        }
        if m == 0 {
            proof {
                assert(seq![digit_char(d as int)] + rev0.reverse() =~= rev@.reverse());
            }
            break;
        }
    }
    let mut s = String::new();
    let k = rev.len();
    let mut out: Vec<char> = Vec::new();
    for i in 0..k
        invariant
            k == rev@.len(),
            out@ =~= rev@.reverse().take(i as int),
    {
        out.push(rev[k - 1 - i]);
        proof {
            assert(rev@.reverse().take(i + 1) =~= rev@.reverse().take(i as int).push(
                rev@.reverse()[i as int]));
            assert(rev@.reverse()[i as int] == rev@[k - 1 - i]);
        }
    }
    proof {
        assert(rev@.reverse().take(k as int) =~= rev@.reverse());
    }
    push_chars(&mut s, &out);
    proof {
        assert(Seq::<char>::empty() + out@ =~= out@);
    }
    s
}

/// Reversal distributes over `push` by prepending.
proof fn lemma_rev_push(s: Seq<char>, c: char)
    ensures
        s.push(c).reverse() =~= seq![c] + s.reverse(),
{
}

/// The canonical decimal rendering of `i`, `-` first where negative.
pub fn i64_to_dec(i: i64) -> (s: String)
    ensures
        s@ == int_text(i as int),
{
    if i >= 0 {
        u64_to_dec(i as u64)
    } else {
        let mag: u64 = (-(i as i128)) as u64;
        let digits = u64_to_dec(mag);
        let mut s = String::new();
        push_char(&mut s, '-');
        let tail = str_chars(digits.as_str());
        push_chars(&mut s, &tail);
        proof {
            assert(Seq::<char>::empty().push('-') + digits@ =~= seq!['-'] + dec_digits(
                (-(i as int)) as nat));
        }
        s
    }
}

/// Parses one or more decimal digits: the value, or `None` where `s` is
/// not all digits or its value exceeds 64 bits.
pub fn parse_u64_digits(s: &str) -> (r: Option<u64>)
    ensures
        r == spec_parse_u64(s@),
{
    let n = s.unicode_len();
    if n == 0 {
        return None;
    }
    let mut acc: u64 = 0;
    for i in 0..n
        invariant
            n == s@.len(),
            n > 0,
            forall|j: int| 0 <= j < i ==> is_digit_char(#[trigger] s@[j]),
            acc == digits_val(s@.take(i as int)),
    {
        let c = s.get_char(i);
        let u = c as u32;
        if u < 48 || u > 57 {
            proof {
                assert(!is_digit_char(s@[i as int]));
                assert(!is_digit_seq(s@));
            }
            return None;
        }
        let d = (u - 48) as u64;
        proof {
            assert(is_digit_char(s@[i as int]));
            assert(d == digit_val(s@[i as int]));
        }
        let step = match acc.checked_mul(10) {
            Some(t) => t.checked_add(d),
            None => None,
        };
        match step {
            Some(t) => {
                acc = t;
                proof {
                    assert(s@.take(i + 1).drop_last() =~= s@.take(i as int));
                    assert(s@.take(i + 1).last() == s@[i as int]);
                }
            },
            None => {
                proof {
                    assert(s@.take(i + 1).drop_last() =~= s@.take(i as int));
                    assert(s@.take(i + 1).last() == s@[i as int]);
                    assert(digits_val(s@.take(i + 1)) > u64::MAX);
                    if is_digit_seq(s@) {
                        lemma_digits_val_prefix_le(s@, i + 1);
                    }
                }
                return None;
            },
        }
    }
    proof {
        assert(s@.take(n as int) =~= s@);
        assert(is_digit_seq(s@));
    }
    Some(acc)
}

/// A digit sequence's value is at least the value of any of its prefixes.
proof fn lemma_digits_val_prefix_le(s: Seq<char>, j: int)
    requires
        0 <= j <= s.len(),
    ensures
        digits_val(s.take(j)) <= digits_val(s),
    decreases s.len() - j,
{
    if j < s.len() {
        assert(s.take(j + 1).drop_last() =~= s.take(j));
        assert(digits_val(s.take(j + 1)) == digits_val(s.take(j)) * 10 + digit_val(
            s.take(j + 1).last()));
        lemma_digits_val_prefix_le(s, j + 1);
    } else {
        assert(s.take(j) =~= s);
    }
}

/// Parsing an array index: the value of an all-digit text, or `None`
/// where the text is not all digits or its value does not fit in `usize`.
pub open spec fn spec_parse_usize(s: Seq<char>) -> Option<usize> {
    if is_digit_seq(s) && digits_val(s) <= usize::MAX {
        Some(digits_val(s) as usize)
    } else {
        None
    }
}

/// Parses an all-digit text as a `usize`, by `spec_parse_usize`.
pub fn parse_usize(s: &str) -> (r: Option<usize>)
    ensures
        r == spec_parse_usize(s@),
{
    match parse_u64_digits(s) {
        Some(v) => {
            if v <= usize::MAX as u64 {
                Some(v as usize)
            } else {
                None
            }
        },
        None => None,
    }
}

/// Lenient parse of an unsigned 64-bit integer literal: the value where
/// `s` is all digits and fits, otherwise the default 0.
pub open spec fn lenient_u64(s: Seq<char>) -> u64 {
    match spec_parse_u64(s) {
        Some(v) => v,
        None => 0,
    }
}

/// Lenient parse of a signed 64-bit integer literal from an unsigned
/// digit sequence: the value where it fits in `i64`, otherwise 0.
pub open spec fn lenient_i64(s: Seq<char>) -> i64 {
    match spec_parse_u64(s) {
        Some(v) => if v <= i64::MAX as u64 {
            v as i64
        } else {
            0
        },
        None => 0,
    }
}

/// Lenient parse of an integer literal into `i64`: all-digit text that
/// fits, else 0.
pub fn parse_i64_lenient(s: &str) -> (r: i64)
    ensures
        r == lenient_i64(s@),
{
    match parse_u64_digits(s) {
        Some(v) => {
            if v <= i64::MAX as u64 {
                v as i64
            } else {
                0
            }
        },
        None => 0,
    }
}

} // verus!
