//! Parsing of signed decimal integers.
//!
//! The silence endpoint accepts a Unix-seconds timestamp as a plain
//! decimal string. The grammar is the one `i64` itself reads: an optional
//! `+` or `-` sign followed by one or more ASCII digits, nothing else, and
//! the value must fit the type.

use vstd::prelude::*;
use vstd::string::StrSliceExecFns;

verus! {

/// Unsigned magnitude of `i64::MIN`, the largest magnitude a negative
/// number may carry.
pub const NEG_MAGNITUDE_LIMIT: u64 = 0x8000000000000000;

/// `i64::MAX` as unsigned, the largest magnitude a positive number may
/// carry.
pub const POS_MAGNITUDE_LIMIT: u64 = 0x7fffffffffffffff;

/// An ASCII decimal digit, by scalar value.
pub open spec fn is_digit(c: char) -> bool {
    48 <= c as u32 <= 57
}

/// The numeric value of an ASCII digit.
pub open spec fn digit_val(c: char) -> int {
    c as u32 - 48
}

/// The minus sign.
pub open spec fn is_minus(c: char) -> bool {
    c as u32 == 45
}

/// The plus sign.
pub open spec fn is_plus(c: char) -> bool {
    c as u32 == 43
}

/// Every character is an ASCII digit.
pub open spec fn all_digits(s: Seq<char>) -> bool {
    forall|i: int| 0 <= i < s.len() ==> is_digit(#[trigger] s[i])
}

/// The value of a digit string, most significant digit first.
pub open spec fn dec_val(s: Seq<char>) -> int
    decreases s.len(),
{
    if s.len() == 0 {
        0
    } else {
        dec_val(s.drop_last()) * 10 + digit_val(s.last())
    }
}

/// What parsing the digit part yields once the sign is stripped: `None`
/// without a digit, on a stray character, or out of range.
pub open spec fn parse_digits_signed(digits: Seq<char>, neg: bool) -> Option<i64> {
    if digits.len() == 0 || !all_digits(digits) {
        None
    } else {
        let v: int = if neg {
            -dec_val(digits)
        } else {
            dec_val(digits)
        };
        if i64::MIN <= v <= i64::MAX {
            Some(v as i64)
        } else {
            None
        }
    }
}

/// What parsing a decimal string as `i64` yields: an optional sign, one
/// or more digits, nothing else, value within the type's range.
pub open spec fn spec_parse_i64(s: Seq<char>) -> Option<i64> {
    if s.len() == 0 {
        None
    } else {
        let digits = if is_minus(s[0]) || is_plus(s[0]) {
            s.drop_first()
        } else {
            s
        };
        parse_digits_signed(digits, is_minus(s[0]))
    }
}

/// A digit string has a non-negative value.
proof fn lemma_dec_val_nonneg(s: Seq<char>)
    requires
        all_digits(s),
    ensures
        dec_val(s) >= 0,
    decreases s.len(),
{
    if s.len() > 0 {
        lemma_dec_val_nonneg(s.drop_last());
    }
}

/// Appending digits never shrinks the value: a prefix is a lower bound.
proof fn lemma_dec_val_prefix(s: Seq<char>, k: int)
    requires
        all_digits(s),
        0 <= k <= s.len(),
    ensures
        dec_val(s.subrange(0, k)) <= dec_val(s),
    decreases s.len() - k,
{
    if k == s.len() {
        assert(s.subrange(0, k) =~= s);
    } else {
        assert(s.subrange(0, k + 1).drop_last() =~= s.subrange(0, k));
        assert(s.subrange(0, k + 1).last() == s[k]);
        lemma_dec_val_nonneg(s.subrange(0, k));
        lemma_dec_val_prefix(s, k + 1);
    }
}

/// Reads a decimal `i64`, with exactly the acceptance and range rules of
/// [`spec_parse_i64`].
pub fn parse_i64(s: &str) -> (r: Option<i64>)
    ensures
        r == spec_parse_i64(s@),
{
    let n = s.unicode_len();
    if n == 0 {
        return None;
    }
    let c0 = s.get_char(0);
    let neg = (c0 as u32) == 45;
    let signed = neg || (c0 as u32) == 43;
    let skip: usize = if signed {
        1
    } else {
        0
    };
    if n == skip {
        return None;
    }
    let ghost d: Seq<char> = if signed {
        s@.drop_first()
    } else {
        s@
    };
    let limit: u64 = if neg {
        NEG_MAGNITUDE_LIMIT
    } else {
        POS_MAGNITUDE_LIMIT
    };
    let mut acc: u64 = 0;
    let mut i: usize = skip;
    while i < n
        invariant
            skip <= i <= n,
            n == s@.len(),
            skip == 1 ==> signed && (is_minus(s@[0]) || is_plus(s@[0])),
            skip == 0 ==> !signed && !(is_minus(s@[0]) || is_plus(s@[0])),
            neg == is_minus(s@[0]),
            skip <= 1,
            skip < n,
            d == (if signed {
                s@.drop_first()
            } else {
                s@
            }),
            d.len() == n - skip,
            all_digits(d.subrange(0, i - skip)),
            acc as int == dec_val(d.subrange(0, i - skip)),
            acc <= limit,
            limit == (if neg {
                NEG_MAGNITUDE_LIMIT
            } else {
                POS_MAGNITUDE_LIMIT
            }),
        decreases n - i,
    {
        let c = s.get_char(i);
        let cv = c as u32;
        proof {
            assert(d[i - skip] == s@[i as int]);
        }
        if cv < 48 || cv > 57 {
            // A stray character: the string is not a number.
            assert(!all_digits(d));
            return None;
        }
        let digit = (cv - 48) as u64;
        proof {
            assert(d.subrange(0, i - skip + 1).drop_last() =~= d.subrange(0, i - skip));
            assert(d.subrange(0, i - skip + 1).last() == d[i - skip]);
        }
        let next = match acc.checked_mul(10) {
            Some(m) => match m.checked_add(digit) {
                Some(a) => a,
                None => {
                    proof {
                        overflow_means_out_of_range(d, i - skip + 1, neg, limit);
                    }
                    return None;
                },
            },
            None => {
                proof {
                    lemma_dec_val_nonneg(d.subrange(0, i - skip));
                    overflow_means_out_of_range(d, i - skip + 1, neg, limit);
                }
                return None;
            },
        };
        if next > limit {
            proof {
                overflow_means_out_of_range(d, i - skip + 1, neg, limit);
            }
            return None;
        }
        acc = next;
        i = i + 1;
    }
    proof {
        assert(d.subrange(0, d.len() as int) =~= d);
    }
    if neg {
        if acc <= POS_MAGNITUDE_LIMIT {
            Some(0i64 - (acc as i64))
        } else {
            Some(i64::MIN)
        }
    } else {
        Some(acc as i64)
    }
}

/// When a digit prefix alone already exceeds the magnitude limit, the
/// whole string parses to `None`: either a later character is no digit,
/// or the full value is at least the prefix's and so out of range.
proof fn overflow_means_out_of_range(d: Seq<char>, k: int, neg: bool, limit: u64)
    requires
        0 < k <= d.len(),
        all_digits(d.subrange(0, k)),
        dec_val(d.subrange(0, k)) > limit,
        limit == (if neg {
            NEG_MAGNITUDE_LIMIT
        } else {
            POS_MAGNITUDE_LIMIT
        }),
    ensures
        parse_digits_signed(d, neg) is None,
{
    if all_digits(d) {
        lemma_dec_val_prefix(d, k);
    } else {
    }
}

} // verus!
