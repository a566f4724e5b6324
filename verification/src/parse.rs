//! Parsing of the claimed user id: a signed decimal integer.
//!
//! A parseable text is an optional `+` or `-` sign followed by one or more
//! ASCII digits, whose value fits in an `i32` — the same shape the standard
//! library accepts for an `i32`.

use vstd::prelude::*;

verus! {

/// An ASCII decimal digit.
pub open spec fn is_digit(c: char) -> bool {
    '0' as int <= c as int && c as int <= '9' as int
}

/// The numeric value of one digit.
pub open spec fn digit_val(c: char) -> int {
    c as int - '0' as int
}

/// Every character of the text is a digit.
pub open spec fn all_digits(s: Seq<char>) -> bool {
    forall|i: int| 0 <= i < s.len() ==> is_digit(s[i])
}

/// The value of a digit string read most-significant first.
pub open spec fn digits_value(s: Seq<char>) -> int
    decreases s.len(),
{
    if s.len() == 0 {
        0
    } else {
        digits_value(s.drop_last()) * 10 + digit_val(s.last())
    }
}

/// The value a text denotes as a signed decimal `i32`, or `None` where the
/// text is empty, malformed, or out of range.
pub open spec fn spec_parse_i32(s: Seq<char>) -> Option<i32> {
    if s.len() == 0 {
        None
    } else {
        let negative = s[0] == '-';
        let signed = s[0] == '-' || s[0] == '+';
        let ds = if signed {
            s.subrange(1, s.len() as int)
        } else {
            s
        };
        if ds.len() == 0 || !all_digits(ds) {
            None
        } else {
            let v = if negative {
                -digits_value(ds)
            } else {
                digits_value(ds)
            };
            if -0x8000_0000 <= v && v <= 0x7fff_ffff {
                Some(v as i32)
            } else {
                None
            }
        }
    }
}

/// A digit string's value is never negative.
pub proof fn lemma_digits_value_nonneg(s: Seq<char>)
    requires
        all_digits(s),
    ensures
        digits_value(s) >= 0,
    decreases s.len(),
{
    if s.len() != 0 {
        let dl = s.drop_last();
        assert(all_digits(dl));
        lemma_digits_value_nonneg(dl);
    }
}

/// Reading one more digit multiplies the prefix value by ten and adds it.
pub proof fn lemma_digits_value_step(s: Seq<char>, i: int)
    requires
        0 <= i < s.len(),
    ensures
        digits_value(s.subrange(0, i + 1)) == digits_value(s.subrange(0, i)) * 10 + digit_val(
            s[i],
        ),
{
    let p = s.subrange(0, i + 1);
    assert(p.drop_last() =~= s.subrange(0, i));
    assert(p.last() == s[i]);
}

/// A digit string's value is at least the value of any of its prefixes.
pub proof fn lemma_digits_value_monotone(s: Seq<char>, i: int)
    requires
        all_digits(s),
        0 <= i <= s.len(),
    ensures
        digits_value(s.subrange(0, i)) <= digits_value(s),
    decreases s.len(),
{
    lemma_digits_value_nonneg(s);
    if i == s.len() {
        assert(s.subrange(0, i) =~= s);
    } else {
        let dl = s.drop_last();
        assert(all_digits(dl));
        assert(s.subrange(0, i) =~= dl.subrange(0, i));
        lemma_digits_value_monotone(dl, i);
        lemma_digits_value_nonneg(dl);
        assert(digits_value(s) == digits_value(dl) * 10 + digit_val(s.last()));
    }
}

/// Parses a signed decimal `i32` from the text: an optional sign, then one
/// or more digits, in range — exactly the texts `spec_parse_i32` accepts.
#[verifier::loop_isolation(false)]
pub fn parse_i32(s: &str) -> (r: Option<i32>)
    ensures
        r == spec_parse_i32(s@),
{
    let n = s.unicode_len();
    if n == 0 {
        return None;
    }
    let c0 = s.get_char(0);
    let negative = c0 == '-';
    let start: usize = if c0 == '-' || c0 == '+' {
        1
    } else {
        0
    };
    if n == start {
        return None;
    }
    let ghost ds = if start == 1 {
        s@.subrange(1, s@.len() as int)
    } else {
        s@
    };
    assert(ds.len() == n - start);
    let mut acc: u64 = 0;
    let mut i: usize = start;
    while i < n
        invariant
            start <= i <= n,
            acc <= 0x8000_0000,
            forall|j: int| 0 <= j < i - start ==> is_digit(ds[j]),
            acc == digits_value(ds.subrange(0, i - start)),
        decreases n - i,
    {
        let c = s.get_char(i);
        let d = c as u32;
        if d < 48 || d > 57 {
            assert(!is_digit(ds[i - start]));
            return None;
        }
        assert(is_digit(ds[i - start]));
        proof {
            lemma_digits_value_step(ds, i - start);
        }
        let acc2: u64 = acc * 10 + ((d - 48) as u64);
        assert(acc2 == digits_value(ds.subrange(0, i - start + 1)));
        if acc2 > 0x8000_0000 {
            proof {
                if all_digits(ds) {
                    lemma_digits_value_monotone(ds, i - start + 1);
                }
            }
            return None;
        }
        acc = acc2;
        i += 1;
    }
    proof {
        assert(ds.subrange(0, ds.len() as int) =~= ds);
    }
    if negative {
        let v: i64 = -(acc as i64);
        Some(v as i32)
    } else {
        if acc > 0x7fff_ffff {
            return None;
        }
        Some(acc as i32)
    }
}

} // verus!
