//! Decimal text of unsigned 32-bit values, both directions: formatting a
//! value for the print-integer syscall, and parsing resumption input for
//! the read-number syscall. Parsing follows the standard library's rules
//! for unsigned integers: an optional leading `+`, then one or more
//! decimal digits, rejecting anything else and values that do not fit.
use vstd::prelude::*;

use crate::strutil::push_char;

verus! {

/// The character of one decimal digit.
pub open spec fn digit_char(d: int) -> char {
    if d == 0 {
        '0'
    } else if d == 1 {
        '1'
    } else if d == 2 {
        '2'
    } else if d == 3 {
        '3'
    } else if d == 4 {
        '4'
    } else if d == 5 {
        '5'
    } else if d == 6 {
        '6'
    } else if d == 7 {
        '7'
    } else if d == 8 {
        '8'
    } else {
        '9'
    }
}

/// The decimal representation of a natural number, without sign and without
/// leading zeros (a single `0` for zero).
pub open spec fn dec_rep(n: nat) -> Seq<char>
    decreases n,
{
    if n < 10 {
        seq![digit_char(n as int)]
    } else {
        dec_rep(n / 10).push(digit_char((n % 10) as int))
    }
}

/// Whether a character is a decimal digit.
pub open spec fn is_digit(c: char) -> bool {
    48 <= c as u32 <= 57
}

/// The numeric value of a digit character.
pub open spec fn digit_val(c: char) -> int {
    c as u32 - 48
}

/// Whether every character of the sequence is a decimal digit.
pub open spec fn all_digits(s: Seq<char>) -> bool {
    forall|i: int| 0 <= i < s.len() ==> is_digit(s[i])
}

/// The value of a digit sequence read as a decimal numeral.
pub open spec fn dec_value(s: Seq<char>) -> int
    decreases s.len(),
{
    if s.len() == 0 {
        0
    } else {
        dec_value(s.drop_last()) * 10 + digit_val(s.last())
    }
}

/// What parsing text as an unsigned 32-bit integer yields: after an
/// optional leading `+`, at least one digit and nothing else, with a value
/// below two to the thirty-second; anything else is rejected.
pub open spec fn parse_u32_spec(s: Seq<char>) -> Option<u32> {
    let t = if s.len() > 0 && s[0] == '+' {
        s.drop_first()
    } else {
        s
    };
    if t.len() == 0 || !all_digits(t) {
        None
    } else if dec_value(t) < 0x1_0000_0000 {
        Some(dec_value(t) as u32)
    } else {
        None
    }
}

/// One digit as its character.
fn digit_to_char(d: u32) -> (c: char)
    requires
        d < 10,
    ensures
        c == digit_char(d as int),
{
    if d == 0 {
        '0'
    } else if d == 1 {
        '1'
    } else if d == 2 {
        '2'
    } else if d == 3 {
        '3'
    } else if d == 4 {
        '4'
    } else if d == 5 {
        '5'
    } else if d == 6 {
        '6'
    } else if d == 7 {
        '7'
    } else if d == 8 {
        '8'
    } else {
        '9'
    }
}

/// Formats a value as its decimal text.
pub fn u32_to_decimal(n: u32) -> (s: String)
    ensures
        s@ == dec_rep(n as nat),
    decreases n,
{
    if n < 10 {
        let mut s = String::new();
        push_char(&mut s, digit_to_char(n));
        proof {
            assert(s@ =~= dec_rep(n as nat));
        }
        s
    } else {
        let mut s = u32_to_decimal(n / 10);
        push_char(&mut s, digit_to_char(n % 10));
        s
    }
}

/// The value of a digit sequence is never negative.
proof fn lemma_dec_value_nonneg(s: Seq<char>)
    requires
        all_digits(s),
    ensures
        dec_value(s) >= 0,
    decreases s.len(),
{
    if s.len() > 0 {
        lemma_dec_value_nonneg(s.drop_last());
    }
}

/// Extending a digit numeral on the right never shrinks its value.
proof fn lemma_dec_value_prefix(s: Seq<char>, k: int)
    requires
        all_digits(s),
        0 <= k <= s.len(),
    ensures
        dec_value(s.subrange(0, k)) <= dec_value(s),
    decreases s.len() - k,
{
    if k == s.len() {
        assert(s.subrange(0, k) =~= s);
    } else {
        let t = s.subrange(0, k + 1);
        assert(t.drop_last() =~= s.subrange(0, k));
        lemma_dec_value_nonneg(s.subrange(0, k));
        lemma_dec_value_prefix(s, k + 1);
    }
}

/// Parses text as an unsigned 32-bit integer, exactly as
/// [`parse_u32_spec`] describes.
pub fn parse_u32(s: &str) -> (r: Option<u32>)
    ensures
        r == parse_u32_spec(s@),
{
    let n = s.unicode_len();
    let ghost t = if s@.len() > 0 && s@[0] == '+' {
        s@.drop_first()
    } else {
        s@
    };
    let mut i: usize = 0;
    if n > 0 && s.get_char(0) == '+' {
        i = 1;
    }
    proof {
        assert(t =~= s@.subrange(i as int, n as int));
    }
    if i >= n {
        return None;
    }
    let ghost start = i as int;
    let mut acc: u64 = 0;
    while i < n
        invariant
            start <= i <= n,
            n == s@.len(),
            start == if s@.len() > 0 && s@[0] == '+' {
                1int
            } else {
                0int
            },
            t == s@.subrange(start, n as int),
            all_digits(s@.subrange(start, i as int)),
            acc == dec_value(s@.subrange(start, i as int)),
            acc <= 0xFFFF_FFFF,
        decreases n - i,
    {
        let c = s.get_char(i);
        let u = c as u32;
        if u < 48 || u > 57 {
            proof {
                assert(t[i - start] == c);
                assert(!is_digit(t[i - start]));
            }
            return None;
        }
        let d = u - 48;
        acc = acc * 10 + d as u64;
        proof {
            let p = s@.subrange(start, i + 1);
            assert(p.drop_last() =~= s@.subrange(start, i as int));
            assert(p.last() == c);
            assert(all_digits(p));
            assert(acc == dec_value(p));
        }
        if acc > 0xFFFF_FFFF {
            proof {
                let tt = if s@.len() > 0 && s@[0] == '+' {
                    s@.drop_first()
                } else {
                    s@
                };
                assert(tt =~= t);
                assert(t.len() > 0);
                if all_digits(t) {
                    assert(s@.subrange(start, i + 1) =~= t.subrange(0, i + 1 - start));
                    lemma_dec_value_prefix(t, i + 1 - start);
                    assert(dec_value(t) >= acc);
                    assert(!(dec_value(t) < 0x1_0000_0000));
                    assert(parse_u32_spec(s@) == None::<u32>);
                } else {
                    assert(parse_u32_spec(s@) == None::<u32>);
                }
            }
            return None;
        }
        i = i + 1;
    }
    proof {
        assert(s@.subrange(start, i as int) =~= t);
        lemma_dec_value_nonneg(t);
    }
    Some(acc as u32)
}

} // verus!
