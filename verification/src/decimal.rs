//! Quantization: exact parsing of decimal strings with three fractional
//! digits into integer thousandths.
//!
//! Every real input to the optimizer (price, share count, proportion,
//! budget) is quantized by formatting it with exactly three decimal digits
//! and parsing that string exactly. This module is the parsing half: it
//! maps a string of the shape `-?digits.ddd` to the integer number of
//! thousandths it denotes, with no rounding and no floating point.

use vstd::prelude::*;

verus! {

/// `c` is an ASCII decimal digit.
pub open spec fn is_digit(c: char) -> bool {
    48 <= c as int <= 57
}

/// Numeric value of a digit character.
pub open spec fn digit_val(c: char) -> int {
    c as int - 48
}

/// Every character of `s` is a decimal digit.
pub open spec fn all_digits(s: Seq<char>) -> bool {
    forall|i: int| 0 <= i < s.len() ==> is_digit(s[i])
}

/// Value of a digit string read in base ten; 0 for the empty string.
pub open spec fn digits_value(s: Seq<char>) -> int
    decreases s.len(),
{
    if s.len() == 0 {
        0
    } else {
        digits_value(s.drop_last()) * 10 + digit_val(s.last())
    }
}

/// `s` has the shape `digits.ddd`: at least one integer digit, then a
/// point, then exactly three fractional digits.
pub open spec fn wf_unsigned_decimal(s: Seq<char>) -> bool {
    &&& s.len() >= 5
    &&& s[s.len() - 4] == '.'
    &&& all_digits(s.take(s.len() - 4))
    &&& all_digits(s.skip(s.len() - 3))
}

/// Number of thousandths an unsigned `digits.ddd` string denotes.
pub open spec fn unsigned_value_milli(s: Seq<char>) -> int {
    digits_value(s.take(s.len() - 4)) * 1000 + digits_value(s.skip(s.len() - 3))
}

/// `s` starts with a minus sign.
pub open spec fn has_sign(s: Seq<char>) -> bool {
    s.len() > 0 && s[0] == '-'
}

/// `s` without its sign, if any.
pub open spec fn body_of(s: Seq<char>) -> Seq<char> {
    if has_sign(s) {
        s.skip(1)
    } else {
        s
    }
}

/// `s` has the shape `-?digits.ddd`.
pub open spec fn wf_decimal(s: Seq<char>) -> bool {
    wf_unsigned_decimal(body_of(s))
}

/// Number of thousandths a `-?digits.ddd` string denotes.
pub open spec fn decimal_value_milli(s: Seq<char>) -> int {
    if has_sign(s) {
        -unsigned_value_milli(body_of(s))
    } else {
        unsigned_value_milli(body_of(s))
    }
}

/// A digit string's value is non-negative.
proof fn lemma_digits_value_nonneg(s: Seq<char>)
    requires
        all_digits(s),
    ensures
        digits_value(s) >= 0,
    decreases s.len(),
{
    if s.len() > 0 {
        assert(all_digits(s.drop_last()));
        lemma_digits_value_nonneg(s.drop_last());
    }
}

/// Extending a digit string on the right can only grow its value.
proof fn lemma_digits_value_prefix_le(s: Seq<char>, k: int)
    requires
        all_digits(s),
        0 <= k <= s.len(),
    ensures
        digits_value(s.take(k)) <= digits_value(s),
    decreases s.len() - k,
{
    if k < s.len() {
        let t = s.take(k + 1);
        assert(t.drop_last() =~= s.take(k));
        assert(all_digits(t));
        assert(digits_value(t) == digits_value(s.take(k)) * 10 + digit_val(s[k]));
        assert(all_digits(s.take(k)));
        lemma_digits_value_nonneg(s.take(k));
        assert(digits_value(s.take(k)) <= digits_value(t));
        lemma_digits_value_prefix_le(s, k + 1);
        assert(s.take(s.len() as int) =~= s);
    } else {
        assert(s.take(k) =~= s);
    }
}

/// Parses a decimal string of the shape `-?digits.ddd` into the exact
/// number of thousandths it denotes. Returns `None` when the string has a
/// different shape or when the magnitude does not fit an `i64`.
pub fn parse_milli(s: &str) -> (r: Option<i64>)
    ensures
        r is Some <==> (wf_decimal(s@) && unsigned_value_milli(body_of(s@)) <= i64::MAX),
        r matches Some(v) ==> v == decimal_value_milli(s@),
{
    let n: usize = s.unicode_len();
    let neg: bool = n > 0 && s.get_char(0) == '-';
    let start: usize = if neg {
        1
    } else {
        0
    };
    proof {
        assert(body_of(s@) =~= if neg {
            s@.skip(1)
        } else {
            s@
        });
    }
    if n < 5 || n - start < 5 {
        return None;
    }
    let dot: usize = n - 4;
    if s.get_char(dot) != '.' {
        proof {
            let body = body_of(s@);
            assert(body[body.len() - 4] == s@[dot as int]);
        }
        return None;
    }
    let mut ival: i128 = 0;
    let mut i: usize = start;
    while i < dot
        invariant
            start <= i <= dot,
            dot == n - 4,
            n == s@.len(),
            start == if neg {
                1int
            } else {
                0int
            },
            neg == has_sign(s@),
            n - start >= 5,
            all_digits(s@.subrange(start as int, i as int)),
            ival == digits_value(s@.subrange(start as int, i as int)),
            0 <= ival <= i64::MAX,
        decreases dot - i,
    {
        let c = s.get_char(i);
        let u = c as u32;
        if u < 48 || u > 57 {
            proof {
                let body = body_of(s@);
                let ipart = body.take(body.len() - 4);
                assert(ipart[i - start] == s@[i as int]);
                assert(!is_digit(s@[i as int]));
            }
            return None;
        }
        proof {
            let pre = s@.subrange(start as int, i as int);
            let post = s@.subrange(start as int, i + 1 as int);
            assert(post.drop_last() =~= pre);
            assert(post.last() == s@[i as int]);
        }
        ival = ival * 10 + ((u - 48) as i128);
        i = i + 1;
        if ival > i64::MAX as i128 {
            proof {
                let body = body_of(s@);
                let ipart = body.take(body.len() - 4);
                if wf_decimal(s@) {
                    assert(s@.subrange(start as int, i as int) =~= ipart.take(i - start));
                    lemma_digits_value_prefix_le(ipart, i - start);
                    lemma_digits_value_nonneg(ipart.skip(0));
                    let frac = body.skip(body.len() - 3);
                    assert(all_digits(frac));
                    lemma_digits_value_nonneg(frac);
                    assert(unsigned_value_milli(body) >= digits_value(ipart) * 1000);
                    assert(digits_value(ipart) * 1000 > i64::MAX) by (nonlinear_arith)
                        requires
                            digits_value(ipart) > i64::MAX,
                    ;
                }
            }
            return None;
        }
    }
    proof {
        let body = body_of(s@);
        assert(s@.subrange(start as int, dot as int) =~= body.take(body.len() - 4));
    }
    let mut fval: i128 = 0;
    let mut j: usize = dot + 1;
    while j < n
        invariant
            dot + 1 <= j <= n,
            dot == n - 4,
            n == s@.len(),
            start == if neg {
                1int
            } else {
                0int
            },
            neg == has_sign(s@),
            n - start >= 5,
            all_digits(s@.subrange(dot + 1 as int, j as int)),
            fval == digits_value(s@.subrange(dot + 1 as int, j as int)),
            0 <= fval <= 999,
            j - dot - 1 <= 3,
            fval <= if j == dot + 1 {
                0int
            } else if j == dot + 2 {
                9int
            } else if j == dot + 3 {
                99int
            } else {
                999int
            },
        decreases n - j,
    {
        let c = s.get_char(j);
        let u = c as u32;
        if u < 48 || u > 57 {
            proof {
                let body = body_of(s@);
                let frac = body.skip(body.len() - 3);
                assert(frac[j - dot - 1] == s@[j as int]);
                assert(!is_digit(s@[j as int]));
            }
            return None;
        }
        proof {
            let pre = s@.subrange(dot + 1 as int, j as int);
            let post = s@.subrange(dot + 1 as int, j + 1 as int);
            assert(post.drop_last() =~= pre);
            assert(post.last() == s@[j as int]);
        }
        fval = fval * 10 + ((u - 48) as i128);
        j = j + 1;
    }
    proof {
        let body = body_of(s@);
        assert(s@.subrange(dot + 1 as int, n as int) =~= body.skip(body.len() - 3));
        assert(wf_decimal(s@));
    }
    let total: i128 = ival * 1000 + fval;
    if total > i64::MAX as i128 {
        return None;
    }
    if neg {
        Some((-total) as i64)
    } else {
        Some(total as i64)
    }
}

} // verus!
