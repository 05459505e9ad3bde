//! Integer literals, read against an exact specification. Verified code
//! holds no floating point, so the language has no float literals: a
//! non-integer literal is a number-format error. Float values enter a
//! program only through parameters of float type.
use vstd::prelude::*;

verus! {

/// Whether `c` is a decimal digit.
pub open spec fn spec_is_digit(c: char) -> bool {
    '0' <= c && c <= '9'
}

/// Whether every character of `s` is a decimal digit.
pub open spec fn all_digits(s: Seq<char>) -> bool {
    forall|i: int| 0 <= i < s.len() ==> spec_is_digit(#[trigger] s[i])
}

/// The value of a digit string read in base ten.
pub open spec fn spec_digits_value(s: Seq<char>) -> int
    decreases s.len(),
{
    if s.len() == 0 {
        0
    } else {
        spec_digits_value(s.drop_last()) * 10 + (s.last() as int - '0' as int)
    }
}

/// The signed 32-bit integer an integer literal denotes: an optional sign,
/// then at least one digit, the value within `i32` range; `None` otherwise.
pub open spec fn spec_parse_i32(s: Seq<char>) -> Option<i32> {
    let negative = s.len() > 0 && s[0] == '-';
    let digits = if s.len() > 0 && (s[0] == '-' || s[0] == '+') {
        s.drop_first()
    } else {
        s
    };
    if digits.len() == 0 || !all_digits(digits) {
        None
    } else {
        let v = if negative {
            -spec_digits_value(digits)
        } else {
            spec_digits_value(digits)
        };
        if i32::MIN <= v <= i32::MAX {
            Some(v as i32)
        } else {
            None
        }
    }
}

proof fn lemma_digits_value_nonneg(s: Seq<char>)
    requires
        all_digits(s),
    ensures
        0 <= spec_digits_value(s),
    decreases s.len(),
{
    if s.len() > 0 {
        assert(all_digits(s.drop_last()));
        lemma_digits_value_nonneg(s.drop_last());
    }
}

/// Appending digits never lowers the value a digit string denotes.
proof fn lemma_digits_value_append_ge(a: Seq<char>, b: Seq<char>)
    requires
        all_digits(a),
        all_digits(b),
    ensures
        spec_digits_value(a + b) >= spec_digits_value(a),
    decreases b.len(),
{
    lemma_digits_value_nonneg(a);
    if b.len() == 0 {
        assert(a + b =~= a);
    } else {
        assert(all_digits(b.drop_last()));
        lemma_digits_value_append_ge(a, b.drop_last());
        assert((a + b).drop_last() =~= a + b.drop_last());
        assert(all_digits(a + b.drop_last()));
        lemma_digits_value_nonneg(a + b.drop_last());
        assert(spec_digits_value(a + b) == spec_digits_value(a + b.drop_last()) * 10 + (
        (a + b).last() as int - '0' as int));
    }
}

/// Reads an integer literal, exactly where `spec_parse_i32` gives a value.
pub fn parse_i32_text(s: &str) -> (r: Option<i32>)
    ensures
        r == spec_parse_i32(s@),
{
    let n = s.unicode_len();
    let mut start: usize = 0;
    let mut negative = false;
    if n > 0 {
        let c0 = s.get_char(0);
        if c0 == '-' {
            negative = true;
            start = 1;
        } else if c0 == '+' {
            start = 1;
        }
    }
    let ghost digits = s@.skip(start as int);
    proof {
        if n > 0 && (s@[0] == '-' || s@[0] == '+') {
            assert(digits =~= s@.drop_first());
        } else {
            assert(digits =~= s@);
        }
    }
    if start >= n {
        return None;
    }
    let mut acc: u64 = 0;
    let mut j: usize = start;
    while j < n
        invariant
            start <= j <= n,
            n == s@.len(),
            start <= 1,
            digits == s@.skip(start as int),
            digits =~= (if s@.len() > 0 && (s@[0] == '-' || s@[0] == '+') {
                s@.drop_first()
            } else {
                s@
            }),
            negative == (s@.len() > 0 && s@[0] == '-'),
            digits.len() > 0,
            all_digits(s@.subrange(start as int, j as int)),
            acc == spec_digits_value(s@.subrange(start as int, j as int)),
            acc <= 0x8000_0000u64 * 10 + 9,
        decreases n - j,
    {
        let c = s.get_char(j);
        if !(c >= '0' && c <= '9') {
            proof {
                assert(digits[j - start] == c);
                assert(!all_digits(digits));
            }
            return None;
        }
        if acc > 0x8000_0000 {
            proof {
                if all_digits(digits) {
                    let pre = s@.subrange(start as int, j as int);
                    let rest = s@.subrange(j as int, n as int);
                    assert(digits =~= pre + rest);
                    assert(all_digits(pre));
                    assert forall|k: int| 0 <= k < rest.len() implies spec_is_digit(
                        #[trigger] rest[k],
                    ) by {
                        assert(rest[k] == digits[j - start + k]);
                    }
                    lemma_digits_value_append_ge(pre, rest);
                }
            }
            return None;
        }
        let d = (c as u32) - ('0' as u32);
        acc = acc * 10 + (d as u64);
        j = j + 1;
        proof {
            let pre = s@.subrange(start as int, j - 1);
            let cur = s@.subrange(start as int, j as int);
            assert(cur.drop_last() =~= pre);
            assert(cur.last() == c);
        }
    }
    proof {
        assert(digits =~= s@.subrange(start as int, n as int));
        lemma_digits_value_nonneg(digits);
    }
    if negative {
        if acc > 0x8000_0000 {
            None
        } else {
            Some((-(acc as i64)) as i32)
        }
    } else {
        if acc > 0x7FFF_FFFF {
            None
        } else {
            Some(acc as i32)
        }
    }
}

} // verus!
