//! Lenient decimal parsing of raw token amounts.
use vstd::prelude::*;

verus! {

/// Magnitude of `i64::MIN`, the largest magnitude a signed 64-bit value can have.
pub const MAGNITUDE_LIMIT: u128 = 9223372036854775808;

pub open spec fn is_digit(c: char) -> bool {
    '0' <= c && c <= '9'
}

pub open spec fn digit_value(c: char) -> int {
    (c as int) - ('0' as int)
}

pub open spec fn all_digits(s: Seq<char>) -> bool {
    forall|i: int| 0 <= i < s.len() ==> is_digit(#[trigger] s[i])
}

/// The value of a string of decimal digits, most significant first.
pub open spec fn digits_value(s: Seq<char>) -> int
    decreases s.len(),
{
    if s.len() == 0 {
        0
    } else {
        digits_value(s.drop_last()) * 10 + digit_value(s.last())
    }
}

/// The integer a string denotes: an optional `+` or `-` followed by one or more decimal
/// digits, with nothing before or after.
pub open spec fn signed_decimal(s: Seq<char>) -> Option<int> {
    if s.len() > 0 && (s[0] == '-' || s[0] == '+') {
        let d = s.subrange(1, s.len() as int);
        if d.len() > 0 && all_digits(d) {
            Some(if s[0] == '-' { -digits_value(d) } else { digits_value(d) })
        } else {
            None
        }
    } else if s.len() > 0 && all_digits(s) {
        Some(digits_value(s))
    } else {
        None
    }
}

/// What parsing a string as a signed 64-bit integer yields: the denoted integer when it
/// is well formed and in range.
pub open spec fn i64_value_of(s: Seq<char>) -> Option<int> {
    match signed_decimal(s) {
        Some(v) => if i64::MIN <= v && v <= i64::MAX {
            Some(v)
        } else {
            None
        },
        None => None,
    }
}

/// The amount a raw amount string stands for: malformed or out-of-range text counts as zero.
pub open spec fn amount_value(s: Seq<char>) -> int {
    match i64_value_of(s) {
        Some(v) => v,
        None => 0,
    }
}

/// Parses `s` as a signed 64-bit integer, the way `str::parse::<i64>` does.
pub fn parse_i64(s: &str) -> (r: Option<i64>)
    ensures
        match r {
            Some(v) => i64_value_of(s@) == Some(v as int),
            None => i64_value_of(s@) is None,
        },
{
    let n = s.unicode_len();
    if n == 0 {
        return None;
    }
    let first = s.get_char(0);
    let negative = first == '-';
    let start: usize = if first == '-' || first == '+' { 1 } else { 0 };
    if start == n {
        return None;
    }
    let ghost d = s@.subrange(start as int, n as int);
    let mut acc: u128 = 0;
    let mut over = false;
    let mut i: usize = start;
    while i < n
        invariant
            n == s@.len(),
            start <= i <= n,
            start < n,
            start == 0 || start == 1,
            (start == 1) == (s@[0] == '-' || s@[0] == '+'),
            negative == (s@[0] == '-'),
            d == s@.subrange(start as int, n as int),
            all_digits(s@.subrange(start as int, i as int)),
            !over ==> acc as int == digits_value(s@.subrange(start as int, i as int)),
            !over ==> acc <= MAGNITUDE_LIMIT,
            over ==> digits_value(s@.subrange(start as int, i as int)) > MAGNITUDE_LIMIT,
        decreases n - i,
    {
        let c = s.get_char(i);
        let ghost pre = s@.subrange(start as int, i as int);
        let ghost next = s@.subrange(start as int, i as int + 1);
        assert(next.drop_last() == pre);
        if !('0' <= c && c <= '9') {
            assert(d[i - start] == c);
            assert(!all_digits(d));
            if start == 0 {
                assert(d == s@);
            } else {
                assert(d == s@.subrange(1, s@.len() as int));
            }
            return None;
        }
        assert(all_digits(next)) by {
            assert forall|k: int| 0 <= k < next.len() implies is_digit(#[trigger] next[k]) by {
                if k < pre.len() {
                    assert(next[k] == pre[k]);
                }
            }
        }
        let v = (c as u32 - '0' as u32) as u128;
        if !over {
            acc = acc * 10 + v;
            if acc > MAGNITUDE_LIMIT {
                over = true;
            }
        }
        i = i + 1;
    }
    assert(s@.subrange(start as int, n as int) == d);
    if start == 0 {
        assert(s@.subrange(0, n as int) == s@);
        assert(!(s@[0] == '-' || s@[0] == '+'));
    } else {
        assert(d == s@.subrange(1, s@.len() as int));
    }
    if over {
        return None;
    }
    if negative {
        if acc == MAGNITUDE_LIMIT {
            Some(i64::MIN)
        } else {
            Some(-(acc as i64))
        }
    } else if acc < MAGNITUDE_LIMIT {
        Some(acc as i64)
    } else {
        None
    }
}

/// Reads a raw amount, counting malformed or out-of-range text as zero.
pub fn amount_of(s: &str) -> (r: i64)
    ensures
        r as int == amount_value(s@),
{
    match parse_i64(s) {
        Some(v) => v,
        None => 0,
    }
}

} // verus!
