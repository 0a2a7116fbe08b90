//! Decimal integer parsing with the semantics of Rust's `str::parse` for
//! integer types: an optional `+` or `-`, then one or more ASCII digits,
//! and a value that fits the type.

use vstd::prelude::*;

verus! {

pub open spec fn is_digit(c: char) -> bool {
    '0' <= c && c <= '9'
}

pub open spec fn all_digits(s: Seq<char>) -> bool {
    forall|i: int| 0 <= i < s.len() ==> is_digit(#[trigger] s[i])
}

/// The value of a string of decimal digits.
pub open spec fn digits_value(s: Seq<char>) -> int
    decreases s.len(),
{
    if s.len() == 0 {
        0
    } else {
        digits_value(s.drop_last()) * 10 + (s.last() as int - '0' as int)
    }
}

/// The integer a decimal literal denotes: optional sign, then at least one
/// ASCII digit; `None` when the text is not such a literal.
pub open spec fn int_literal(s: Seq<char>) -> Option<int> {
    if s.len() > 0 && (s[0] == '+' || s[0] == '-') {
        let d = s.skip(1);
        if d.len() > 0 && all_digits(d) {
            Some(
                if s[0] == '-' {
                    -digits_value(d)
                } else {
                    digits_value(d)
                },
            )
        } else {
            None
        }
    } else if s.len() > 0 && all_digits(s) {
        Some(digits_value(s))
    } else {
        None
    }
}

/// What parsing `s` as an integer within `[lo, hi]` gives.
pub open spec fn parse_in_range(s: Seq<char>, lo: int, hi: int) -> Option<int> {
    match int_literal(s) {
        Some(v) => if lo <= v <= hi {
            Some(v)
        } else {
            None
        },
        None => None,
    }
}

proof fn lemma_digits_value_nonneg_mono(s: Seq<char>, k: int)
    requires
        all_digits(s),
        0 <= k <= s.len(),
    ensures
        0 <= digits_value(s.take(k)) <= digits_value(s),
    decreases s.len() - k,
{
    if k < s.len() {
        lemma_digits_value_nonneg_mono(s, k + 1);
        assert(s.take(k + 1).drop_last() =~= s.take(k));
    } else {
        assert(s.take(k) =~= s);
        lemma_digits_value_nonneg(s);
    }
}

pub proof fn lemma_digits_value_nonneg(s: Seq<char>)
    requires
        all_digits(s),
    ensures
        digits_value(s) >= 0,
    decreases s.len(),
{
    if s.len() > 0 {
        lemma_digits_value_nonneg(s.drop_last());
    }
}

/// An unsigned literal denotes a value of at least zero.
pub proof fn lemma_uint_literal_nonneg(s: Seq<char>)
    ensures
        uint_literal(s) matches Some(v) ==> v >= 0,
{
    if s.len() > 0 && s[0] == '+' {
        if s.skip(1).len() > 0 && all_digits(s.skip(1)) {
            lemma_digits_value_nonneg(s.skip(1));
        }
    } else if s.len() > 0 && all_digits(s) {
        lemma_digits_value_nonneg(s);
    }
}

/// The digits `s[from..]` as a value, giving up (`None`) once it exceeds
/// `bound`, or when a non-digit appears.
fn digits_upto(s: &Vec<char>, from: usize, bound: u128) -> (r: Option<u128>)
    requires
        from <= s.len(),
        bound <= 0x1_0000_0000_0000_0000,
    ensures
        match r {
            Some(v) => all_digits(s@.skip(from as int)) && v == digits_value(s@.skip(from as int))
                && v <= bound,
            None => !all_digits(s@.skip(from as int)) || digits_value(s@.skip(from as int))
                > bound,
        },
{
    let ghost d = s@.skip(from as int);
    let mut v: u128 = 0;
    let mut i = from;
    while i < s.len()
        invariant
            from <= i <= s.len(),
            d == s@.skip(from as int),
            bound <= 0x1_0000_0000_0000_0000,
            all_digits(d.take(i - from)),
            v == digits_value(d.take(i - from)),
            v <= bound,
        decreases s.len() - i,
    {
        let c = s[i];
        if !('0' <= c && c <= '9') {
            assert(d[i - from] == c);
            return None;
        }
        let digit = (c as u32 - '0' as u32) as u128;
        assert(d.take(i - from + 1).drop_last() =~= d.take(i - from));
        assert(d.take(i - from + 1).last() == c);
        let nv = v * 10 + digit;
        if nv > bound {
            proof {
                assert(all_digits(d.take(i - from + 1)));
                if all_digits(d) {
                    lemma_digits_value_nonneg_mono(d, i - from + 1);
                }
            }
            return None;
        }
        v = nv;
        i += 1;
    }
    assert(d.take(i - from) =~= d);
    Some(v)
}

/// Parse `s` as a decimal integer within `[lo, hi]` (as `str::parse` does
/// for an integer type with that range).
pub fn parse_int_in(s: &str, lo: i64, hi: i64) -> (r: Option<i64>)
    requires
        lo <= 0 <= hi,
    ensures
        match r {
            Some(v) => parse_in_range(s@, lo as int, hi as int) == Some(v as int),
            None => parse_in_range(s@, lo as int, hi as int) is None,
        },
{
    let c = crate::text::chars_of(s);
    if c.len() == 0 {
        return None;
    }
    let first = c[0];
    if first == '+' || first == '-' {
        if c.len() == 1 {
            assert(s@.skip(1).len() == 0);
            return None;
        }
        let neg = first == '-';
        let bound: u128 = if neg {
            (0 - (lo as i128)) as u128
        } else {
            hi as u128
        };
        match digits_upto(&c, 1, bound) {
            None => None,
            Some(v) => {
                if neg {
                    Some((0 - (v as i128)) as i64)
                } else {
                    Some(v as i64)
                }
            },
        }
    } else {
        match digits_upto(&c, 0, hi as u128) {
            None => {
                assert(s@.skip(0) =~= s@);
                None
            },
            Some(v) => {
                assert(s@.skip(0) =~= s@);
                Some(v as i64)
            },
        }
    }
}

/// Parse as `i64`.
pub fn parse_i64(s: &str) -> (r: Option<i64>)
    ensures
        match r {
            Some(v) => parse_in_range(s@, i64::MIN as int, i64::MAX as int) == Some(v as int),
            None => parse_in_range(s@, i64::MIN as int, i64::MAX as int) is None,
        },
{
    parse_int_in(s, i64::MIN, i64::MAX)
}

/// Parse as `i32`.
pub fn parse_i32(s: &str) -> (r: Option<i32>)
    ensures
        match r {
            Some(v) => parse_in_range(s@, i32::MIN as int, i32::MAX as int) == Some(v as int),
            None => parse_in_range(s@, i32::MIN as int, i32::MAX as int) is None,
        },
{
    match parse_int_in(s, i32::MIN as i64, i32::MAX as i64) {
        Some(v) => Some(v as i32),
        None => None,
    }
}

/// The value an unsigned decimal literal denotes: an optional `+`, then at
/// least one ASCII digit (no `-`, as for Rust's unsigned types).
pub open spec fn uint_literal(s: Seq<char>) -> Option<int> {
    if s.len() > 0 && s[0] == '+' {
        let d = s.skip(1);
        if d.len() > 0 && all_digits(d) {
            Some(digits_value(d))
        } else {
            None
        }
    } else if s.len() > 0 && all_digits(s) {
        Some(digits_value(s))
    } else {
        None
    }
}

/// What parsing `s` as an unsigned integer of at most `hi` gives.
pub open spec fn parse_uint_upto(s: Seq<char>, hi: int) -> Option<int> {
    match uint_literal(s) {
        Some(v) => if v <= hi {
            Some(v)
        } else {
            None
        },
        None => None,
    }
}

/// Parse as an unsigned integer of at most `hi` (as `str::parse` does for
/// an unsigned type with that maximum).
pub fn parse_uint_upto_exec(s: &str, hi: u64) -> (r: Option<u64>)
    ensures
        match r {
            Some(v) => parse_uint_upto(s@, hi as int) == Some(v as int),
            None => parse_uint_upto(s@, hi as int) is None,
        },
{
    let c = crate::text::chars_of(s);
    if c.len() == 0 {
        return None;
    }
    if c[0] == '+' {
        if c.len() == 1 {
            assert(s@.skip(1).len() == 0);
            return None;
        }
        match digits_upto(&c, 1, hi as u128) {
            None => None,
            Some(v) => Some(v as u64),
        }
    } else {
        assert(s@.skip(0) =~= s@);
        match digits_upto(&c, 0, hi as u128) {
            None => None,
            Some(v) => Some(v as u64),
        }
    }
}

/// Parse as `usize`.
pub fn parse_usize(s: &str) -> (r: Option<usize>)
    ensures
        match r {
            Some(v) => parse_uint_upto(s@, usize::MAX as int) == Some(v as int),
            None => parse_uint_upto(s@, usize::MAX as int) is None,
        },
{
    match parse_uint_upto_exec(s, usize::MAX as u64) {
        Some(v) => Some(v as usize),
        None => None,
    }
}

/// Parse as `u64`.
pub fn parse_u64(s: &str) -> (r: Option<u64>)
    ensures
        match r {
            Some(v) => parse_uint_upto(s@, u64::MAX as int) == Some(v as int),
            None => parse_uint_upto(s@, u64::MAX as int) is None,
        },
{
    parse_uint_upto_exec(s, u64::MAX)
}

/// The end of the run of ASCII digits of `s` starting at `i`.
pub open spec fn digits_end(s: Seq<char>, i: int) -> int
    decreases s.len() - i,
{
    if i < 0 || i >= s.len() || !is_digit(s[i]) {
        i
    } else {
        digits_end(s, i + 1)
    }
}

/// A decimal floating-point number as `str::parse` for floats accepts it:
/// digits with an optional `.` and fraction digits (at least one digit in
/// all), then optionally `e` or `E`, an optional sign and at least one digit.
pub open spec fn decimal_number(s: Seq<char>) -> bool {
    let a = digits_end(s, 0);
    let has_dot = a < s.len() && s[a] == '.';
    let b = if has_dot {
        digits_end(s, a + 1)
    } else {
        a
    };
    let frac = if has_dot {
        b - (a + 1)
    } else {
        0
    };
    &&& a + frac > 0
    &&& (b == s.len() || (s[b] == 'e' || s[b] == 'E') && {
        let c = if b + 1 < s.len() && (s[b + 1] == '+' || s[b + 1] == '-') {
            b + 2
        } else {
            b + 1
        };
        let d = digits_end(s, c);
        d > c && d == s.len()
    })
}

/// `s` equals `w` ignoring ASCII case.
pub open spec fn eq_ignore_case(s: Seq<char>, w: Seq<char>) -> bool {
    crate::text::lower_seq(s) == w
}

/// Whether `str::parse::<f64>` accepts `s`: an optional sign, then `inf`,
/// `infinity` or `nan` in any case, or a decimal number.
pub open spec fn float_literal(s: Seq<char>) -> bool {
    let body = if s.len() > 0 && (s[0] == '+' || s[0] == '-') {
        s.skip(1)
    } else {
        s
    };
    eq_ignore_case(body, "inf"@) || eq_ignore_case(body, "infinity"@) || eq_ignore_case(body, "nan"@)
        || decimal_number(body)
}


fn digits_end_exec(s: &Vec<char>, i: usize) -> (r: usize)
    requires
        i <= s.len(),
    ensures
        r == digits_end(s@, i as int),
        i <= r <= s.len(),
{
    let mut j = i;
    while j < s.len() && '0' <= s[j] && s[j] <= '9'
        invariant
            i <= j <= s.len(),
            digits_end(s@, i as int) == digits_end(s@, j as int),
        decreases s.len() - j,
    {
        j += 1;
    }
    j
}

/// Does `str::parse::<f64>` accept `s`?
pub fn is_float_literal(s: &Vec<char>) -> (r: bool)
    ensures
        r == float_literal(s@),
{
    let body = if s.len() > 0 && (s[0] == '+' || s[0] == '-') {
        crate::text::slice_chars(s, 1, s.len())
    } else {
        crate::text::slice_chars(s, 0, s.len())
    };
    assert(s.len() > 0 && (s[0] == '+' || s[0] == '-') ==> body@ =~= s@.skip(1));
    assert(!(s.len() > 0 && (s[0] == '+' || s[0] == '-')) ==> body@ =~= s@);
    let lower = crate::text::lower_chars(&body);
    if crate::text::chars_equal(&lower, &crate::text::chars_of("inf"))
        || crate::text::chars_equal(&lower, &crate::text::chars_of("infinity"))
        || crate::text::chars_equal(&lower, &crate::text::chars_of("nan")) {
        return true;
    }
    let n = body.len();
    let a = digits_end_exec(&body, 0);
    let has_dot = a < n && body[a] == '.';
    let b = if has_dot {
        digits_end_exec(&body, a + 1)
    } else {
        a
    };
    let frac = if has_dot {
        b - (a + 1)
    } else {
        0
    };
    if a + frac == 0 {
        return false;
    }
    if b == n {
        return true;
    }
    if !(body[b] == 'e' || body[b] == 'E') {
        return false;
    }
    let c = if b + 1 < n && (body[b + 1] == '+' || body[b + 1] == '-') {
        b + 2
    } else {
        b + 1
    };
    let d = digits_end_exec(&body, c);
    d > c && d == n
}

} // verus!
