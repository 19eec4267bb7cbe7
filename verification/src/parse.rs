//! Decimal parsing of the `X-App-Id` and `X-Timestamp` header values.
//!
//! A value parses like Rust's own integer parsing does: an optional sign
//! (`+` for unsigned values, `+` or `-` for signed ones) followed by at least
//! one ASCII decimal digit and nothing else, with the value required to fit
//! in the target type.

use vstd::prelude::*;

verus! {

/// Whether `c` is an ASCII decimal digit.
pub open spec fn is_decimal_digit(c: char) -> bool {
    '0' as u32 <= c as u32 && c as u32 <= '9' as u32
}

/// The numeric value of a decimal digit character.
pub open spec fn digit_value(c: char) -> int {
    c as u32 - '0' as u32
}

/// Whether every character of `s` is a decimal digit.
pub open spec fn all_digits(s: Seq<char>) -> bool {
    forall|i: int| 0 <= i < s.len() ==> is_decimal_digit(#[trigger] s[i])
}

/// The value of a run of decimal digits, most significant digit first.
pub open spec fn digits_value(s: Seq<char>) -> int
    decreases s.len(),
{
    if s.len() == 0 {
        0
    } else {
        digits_value(s.drop_last()) * 10 + digit_value(s.last())
    }
}

/// The digit run of an unsigned decimal string: everything after an optional
/// leading `+` sign.
pub open spec fn unsigned_body(s: Seq<char>) -> Seq<char> {
    if s.len() > 0 && s[0] == '+' {
        s.subrange(1, s.len() as int)
    } else {
        s
    }
}

/// The value `X-App-Id` carries: `Some` exactly when the text is an optional
/// `+` followed by a non-empty digit run whose value fits in a `u64`.
pub open spec fn spec_parse_u64(s: Seq<char>) -> Option<u64> {
    let body = unsigned_body(s);
    if body.len() > 0 && all_digits(body) && digits_value(body) <= u64::MAX {
        Some(digits_value(body) as u64)
    } else {
        None
    }
}

/// The value `X-Timestamp` carries: as `spec_parse_u64`, except that the sign
/// may also be `-` and the value must fit in an `i64`.
pub open spec fn spec_parse_i64(s: Seq<char>) -> Option<i64> {
    if s.len() > 0 && s[0] == '-' {
        let body = s.subrange(1, s.len() as int);
        if body.len() > 0 && all_digits(body) && -digits_value(body) >= i64::MIN {
            Some((-digits_value(body)) as i64)
        } else {
            None
        }
    } else {
        let body = unsigned_body(s);
        if body.len() > 0 && all_digits(body) && digits_value(body) <= i64::MAX {
            Some(digits_value(body) as i64)
        } else {
            None
        }
    }
}

proof fn lemma_digits_value_nonneg(s: Seq<char>)
    requires
        all_digits(s),
    ensures
        digits_value(s) >= 0,
    decreases s.len(),
{
    if s.len() > 0 {
        assert forall|i: int| 0 <= i < s.drop_last().len() implies is_decimal_digit(
            #[trigger] s.drop_last()[i],
        ) by {
            assert(s.drop_last()[i] == s[i]);
        }
        lemma_digits_value_nonneg(s.drop_last());
        assert(is_decimal_digit(s.last()));
    }
}

/// The value of a digit run never falls when more digits are appended.
proof fn lemma_digits_prefix_bound(s: Seq<char>, i: int)
    requires
        0 <= i <= s.len(),
        all_digits(s),
    ensures
        digits_value(s.subrange(0, i)) <= digits_value(s),
    decreases s.len() - i,
{
    if i == s.len() {
        assert(s.subrange(0, i) =~= s);
    } else {
        let p = s.subrange(0, i);
        let q = s.subrange(0, i + 1);
        assert(q.drop_last() =~= p);
        assert(q.last() == s[i]);
        assert forall|j: int| 0 <= j < p.len() implies is_decimal_digit(#[trigger] p[j]) by {
            assert(p[j] == s[j]);
        }
        lemma_digits_value_nonneg(p);
        assert(digits_value(q) == digits_value(p) * 10 + digit_value(s[i]));
        assert(is_decimal_digit(s[i]));
        lemma_digits_prefix_bound(s, i + 1);
    }
}

/// When a strict prefix of the digit run already exceeds `max`, the whole run
/// cannot parse below `max` either.
proof fn lemma_overflow_rejects(s: Seq<char>, start: int, i: int, max: int)
    requires
        0 <= start <= i < s.len(),
        all_digits(s.subrange(start, i + 1)),
        digits_value(s.subrange(start, i + 1)) > max,
    ensures
        !all_digits(s.subrange(start, s.len() as int)) || digits_value(
            s.subrange(start, s.len() as int),
        ) > max,
{
    let body = s.subrange(start, s.len() as int);
    if all_digits(body) {
        assert(s.subrange(start, i + 1) =~= body.subrange(0, i + 1 - start));
        lemma_digits_prefix_bound(body, i + 1 - start);
    }
}

/// Parses the decimal run of `s` from position `start` to the end, returning
/// its value when the run is non-empty, all digits, and at most `max`.
fn parse_digits(s: &str, start: usize, max: u64) -> (r: Option<u64>)
    requires
        start as int <= s@.len(),
    ensures
        ({
            let body = s@.subrange(start as int, s@.len() as int);
            match r {
                Some(v) => body.len() > 0 && all_digits(body) && digits_value(body) == v && v
                    <= max,
                None => body.len() == 0 || !all_digits(body) || digits_value(body) > max,
            }
        }),
{
    let ghost body = s@.subrange(start as int, s@.len() as int);
    let len = s.unicode_len();
    if start == len {
        return None;
    }
    let mut value: u64 = 0;
    let mut i: usize = start;
    while i < len
        invariant
            start <= i <= len,
            start < len,
            len == s@.len(),
            body == s@.subrange(start as int, s@.len() as int),
            all_digits(s@.subrange(start as int, i as int)),
            value == digits_value(s@.subrange(start as int, i as int)),
            value <= max,
        decreases len - i,
    {
        let c = s.get_char(i);
        let cu = c as u32;
        if cu < '0' as u32 || cu > '9' as u32 {
            proof {
                assert(body[i - start] == s@[i as int]);
                assert(!is_decimal_digit(body[i - start]));
            }
            return None;
        }
        let d = (cu - '0' as u32) as u64;
        let ghost p = s@.subrange(start as int, i as int);
        let ghost q = s@.subrange(start as int, i as int + 1);
        proof {
            assert(q.drop_last() =~= p);
            assert(q.last() == s@[i as int]);
            assert forall|j: int| 0 <= j < q.len() implies is_decimal_digit(#[trigger] q[j]) by {
                if j < q.len() - 1 {
                    assert(q[j] == p[j]);
                } else {
                    assert(q[j] == s@[i as int]);
                }
            }
            assert(digits_value(q) == value * 10 + d);
        }
        let v10 = match value.checked_mul(10) {
            Some(v10) => v10,
            None => {
                proof {
                    lemma_overflow_rejects(s@, start as int, i as int, max as int);
                }
                return None;
            },
        };
        let v = match v10.checked_add(d) {
            Some(v) => v,
            None => {
                proof {
                    lemma_overflow_rejects(s@, start as int, i as int, max as int);
                }
                return None;
            },
        };
        if v > max {
            proof {
                lemma_overflow_rejects(s@, start as int, i as int, max as int);
            }
            return None;
        }
        value = v;
        i = i + 1;
    }
    proof {
        assert(s@.subrange(start as int, i as int) =~= body);
    }
    Some(value)
}

/// Parses an unsigned 64-bit integer from decimal text, as the `X-App-Id`
/// header requires.
pub fn parse_u64(s: &str) -> (r: Option<u64>)
    ensures
        r == spec_parse_u64(s@),
{
    let len = s.unicode_len();
    if len > 0 && s.get_char(0) == '+' {
        let r = parse_digits(s, 1, u64::MAX);
        proof {
            assert(unsigned_body(s@) =~= s@.subrange(1, s@.len() as int));
        }
        r
    } else {
        let r = parse_digits(s, 0, u64::MAX);
        proof {
            assert(s@.subrange(0, s@.len() as int) =~= s@);
            assert(unsigned_body(s@) =~= s@);
        }
        r
    }
}

/// Parses a signed 64-bit integer from decimal text, as the `X-Timestamp`
/// header requires.
pub fn parse_i64(s: &str) -> (r: Option<i64>)
    ensures
        r == spec_parse_i64(s@),
{
    let len = s.unicode_len();
    if len == 0 {
        return None;
    }
    let c0 = s.get_char(0);
    if c0 == '-' {
        match parse_digits(s, 1, 9223372036854775808u64) {
            Some(m) => {
                let v: i64 = if m <= 9223372036854775807u64 {
                    -(m as i64)
                } else {
                    i64::MIN
                };
                Some(v)
            },
            None => None,
        }
    } else if c0 == '+' {
        let r = match parse_digits(s, 1, 9223372036854775807u64) {
            Some(m) => Some(m as i64),
            None => None,
        };
        proof {
            assert(unsigned_body(s@) =~= s@.subrange(1, s@.len() as int));
        }
        r
    } else {
        let r = match parse_digits(s, 0, 9223372036854775807u64) {
            Some(m) => Some(m as i64),
            None => None,
        };
        proof {
            assert(s@.subrange(0, s@.len() as int) =~= s@);
            assert(unsigned_body(s@) =~= s@);
        }
        r
    }
}

} // verus!
