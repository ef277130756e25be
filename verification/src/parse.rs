//! Parsing the request count.
//!
//! The caller supplies how many times the resource is served, as text.
//! A numeral — optionally opened by a plus sign, then decimal digits,
//! with a value that fits the machine word — counts for its value;
//! anything else falls back to serving once.

use vstd::prelude::*;

verus! {

/// An ASCII decimal digit.
pub open spec fn is_digit(b: u8) -> bool {
    48 <= b <= 57
}

/// A non-empty, all-digit byte string.
pub open spec fn all_digits(s: Seq<u8>) -> bool {
    s.len() > 0 && forall|i: int| 0 <= i < s.len() ==> is_digit(#[trigger] s[i])
}

/// The value of a digit string read as a decimal numeral.
pub open spec fn digits_value(s: Seq<u8>) -> int
    decreases s.len(),
{
    if s.len() == 0 {
        0
    } else {
        digits_value(s.drop_last()) * 10 + (s.last() - 48)
    }
}

/// The digits of a numeral: a single opening plus sign is allowed and
/// ignored, as the standard integer parser has it.
pub open spec fn numeral_part(s: Seq<u8>) -> Seq<u8> {
    if s.len() > 0 && s[0] == 43u8 {
        s.subrange(1, s.len() as int)
    } else {
        s
    }
}

/// What a count string means: its numeral's value when it is one and
/// fits the machine word, and one serving otherwise.
pub open spec fn count_of(s: Seq<u8>) -> int {
    if all_digits(numeral_part(s)) && digits_value(numeral_part(s)) <= usize::MAX as int {
        digits_value(numeral_part(s))
    } else {
        1
    }
}

/// A digit string's value only grows as digits are appended: any
/// prefix's value is at most the whole string's.
proof fn lemma_digits_value_prefix_le(s: Seq<u8>, k: int)
    requires
        0 <= k <= s.len(),
        forall|i: int| 0 <= i < s.len() ==> is_digit(#[trigger] s[i]),
    ensures
        digits_value(s.subrange(0, k)) <= digits_value(s),
        digits_value(s) >= 0,
    decreases s.len() - k,
{
    if k == s.len() {
        assert(s.subrange(0, k) =~= s);
        lemma_digits_value_nonneg(s);
    } else {
        lemma_digits_value_prefix_le(s, k + 1);
        let shorter = s.subrange(0, k);
        let longer = s.subrange(0, k + 1);
        assert(longer.drop_last() =~= shorter);
        lemma_digits_value_nonneg(shorter);
        assert(digits_value(longer) == digits_value(shorter) * 10 + (longer.last() - 48));
        assert(digits_value(shorter) * 10 >= digits_value(shorter)) by (nonlinear_arith)
            requires
                digits_value(shorter) >= 0,
        ;
    }
}

/// A digit string's value is never negative.
proof fn lemma_digits_value_nonneg(s: Seq<u8>)
    requires
        forall|i: int| 0 <= i < s.len() ==> is_digit(#[trigger] s[i]),
    ensures
        digits_value(s) >= 0,
    decreases s.len(),
{
    if s.len() > 0 {
        lemma_digits_value_nonneg(s.drop_last());
        assert(digits_value(s.drop_last()) * 10 >= 0) by (nonlinear_arith)
            requires
                digits_value(s.drop_last()) >= 0,
        ;
    }
}

/// Read a request count: the numeral's value when the string is one and
/// it fits, and one serving for anything else — an empty string, a
/// stray byte, or a value past the machine word.
pub fn parse_count(count: &Vec<u8>) -> (r: usize)
    ensures
        r as int == count_of(count@),
{
    let n = count.len();
    let start: usize = if n > 0 && count[0] == 43u8 {
        1
    } else {
        0
    };
    proof {
        assert(numeral_part(count@) =~= count@.subrange(start as int, n as int));
    }
    if start >= n {
        return 1;
    }
    let ghost digits = numeral_part(count@);
    let mut value: usize = 0;
    let mut i: usize = start;
    while i < n
        invariant
            start <= i <= n,
            n == count@.len(),
            start < n,
            digits == numeral_part(count@),
            digits == count@.subrange(start as int, n as int),
            forall|j: int| 0 <= j < i - start ==> is_digit(#[trigger] digits[j]),
            value as int == digits_value(digits.subrange(0, i - start)),
        decreases n - i,
    {
        let b = count[i];
        if b < 48u8 || b > 57u8 {
            proof {
                assert(digits[i - start] == count@[i as int]);
                assert(!all_digits(digits));
            }
            return 1;
        }
        let digit = (b - 48u8) as usize;
        proof {
            assert(digits[i - start] == count@[i as int]);
            assert(digits.subrange(0, i - start + 1).drop_last() =~= digits.subrange(
                0,
                i - start,
            ));
            assert(digits_value(digits.subrange(0, i - start + 1)) == (value as int) * 10 + (b
                - 48));
        }
        let scaled = match value.checked_mul(10) {
            Some(scaled) => scaled,
            None => {
                proof {
                    overflow_means_default(count@, i - start + 1);
                }
                return 1;
            },
        };
        let next = match scaled.checked_add(digit) {
            Some(next) => next,
            None => {
                proof {
                    overflow_means_default(count@, i - start + 1);
                }
                return 1;
            },
        };
        value = next;
        i = i + 1;
    }
    proof {
        assert(digits.subrange(0, n - start) =~= digits);
    }
    value
}

/// When a numeral's prefix already overflows the machine word, the whole
/// numeral's meaning is the fallback of one serving, whatever follows.
proof fn overflow_means_default(s: Seq<u8>, scanned: int)
    requires
        0 < scanned <= numeral_part(s).len(),
        digits_value(numeral_part(s).subrange(0, scanned)) > usize::MAX as int,
    ensures
        count_of(s) == 1,
{
    let digits = numeral_part(s);
    if all_digits(digits) {
        lemma_digits_value_prefix_le(digits, scanned);
    }
}

} // verus!
