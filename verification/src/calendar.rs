//! Calendar dates of legacy records: parsing `YYYY-MM-DD` and counting days since
//! 1970-01-01 in the proleptic Gregorian calendar.
use vstd::prelude::*;

use crate::text::{chars_of, trim, trimmed};

verus! {

/// An ASCII decimal digit.
pub open spec fn is_digit(c: char) -> bool {
    '0' <= c && c <= '9'
}

/// The value of a digit.
pub open spec fn digit_value(c: char) -> int {
    (c as u32) - ('0' as u32)
}

/// Every character is a digit.
pub open spec fn all_digits(s: Seq<char>) -> bool {
    forall|i: int| 0 <= i < s.len() ==> is_digit(#[trigger] s[i])
}

/// The value of a string of digits.
pub open spec fn decimal(s: Seq<char>) -> int
    decreases s.len(),
{
    if s.len() == 0 {
        0
    } else {
        decimal(s.drop_last()) * 10 + digit_value(s.last())
    }
}

/// What `str::parse` gives for an integer type with range `lo..=hi`: an optional `+`
/// sign (or `-` when `signed`), then at least one digit and nothing else, in range.
pub open spec fn parse_int(s: Seq<char>, signed: bool, lo: int, hi: int) -> Option<int> {
    let negative = signed && s.len() > 0 && s[0] == '-';
    let digits = if s.len() > 0 && (s[0] == '+' || negative) {
        s.drop_first()
    } else {
        s
    };
    let value = if negative {
        -decimal(digits)
    } else {
        decimal(digits)
    };
    if digits.len() == 0 || !all_digits(digits) || value < lo || value > hi {
        None
    } else {
        Some(value)
    }
}

proof fn lemma_decimal_nonneg(s: Seq<char>)
    requires
        all_digits(s),
    ensures
        decimal(s) >= 0,
    decreases s.len(),
{
    if s.len() > 0 {
        assert(all_digits(s.drop_last())) by {
            assert forall|i: int| 0 <= i < s.drop_last().len() implies is_digit(
                #[trigger] s.drop_last()[i],
            ) by {
                assert(s.drop_last()[i] == s[i]);
            }
        }
        lemma_decimal_nonneg(s.drop_last());
        assert(is_digit(s[s.len() - 1]));
    }
}

proof fn lemma_decimal_prefix_le(s: Seq<char>, k: int)
    requires
        all_digits(s),
        0 <= k <= s.len(),
    ensures
        decimal(s.take(k)) <= decimal(s),
    decreases s.len() - k,
{
    if k < s.len() {
        lemma_decimal_prefix_le(s, k + 1);
        let t = s.take(k + 1);
        assert(t.drop_last() == s.take(k));
        assert(all_digits(s.take(k))) by {
            assert forall|i: int| 0 <= i < s.take(k).len() implies is_digit(#[trigger] s.take(k)[i]) by {
                assert(s.take(k)[i] == s[i]);
            }
        }
        lemma_decimal_nonneg(s.take(k));
        assert(is_digit(t.last())) by {
            assert(t.last() == s[k]);
        }
    } else {
        assert(s.take(k) == s);
    }
}

/// Parses an integer in `lo..=hi` as `str::parse` does; `hi` at most `i64::MAX`.
fn parse_integer(v: &Vec<char>, signed: bool, lo: i64, hi: i64) -> (r: Option<i64>)
    requires
        i64::MIN < lo <= 0 <= hi,
    ensures
        match r {
            Some(x) => parse_int(v@, signed, lo as int, hi as int) == Some(x as int),
            None => parse_int(v@, signed, lo as int, hi as int) is None,
        },
{
    let ghost s = v@;
    let negative = signed && v.len() > 0 && v[0] == '-';
    let start: usize = if v.len() > 0 && (v[0] == '+' || negative) {
        1
    } else {
        0
    };
    let ghost digits = if s.len() > 0 && (s[0] == '+' || negative) {
        s.drop_first()
    } else {
        s
    };
    assert(digits == s.subrange(start as int, s.len() as int));
    if start >= v.len() {
        return None;
    }
    let mut value: i64 = 0;
    let mut i = start;
    while i < v.len()
        invariant
            start <= i <= v.len(),
            digits == s.subrange(start as int, s.len() as int),
            s == v@,
            all_digits(s.subrange(start as int, i as int)),
            value == decimal(s.subrange(start as int, i as int)),
            0 <= value <= if negative {
                -(lo as int)
            } else {
                hi as int
            },
            i64::MIN < lo <= 0 <= hi,
            negative == (signed && s.len() > 0 && s[0] == '-'),
            digits == (if s.len() > 0 && (s[0] == '+' || negative) {
                s.drop_first()
            } else {
                s
            }),
        decreases v.len() - i,
    {
        let c = v[i];
        let ghost before = s.subrange(start as int, i as int);
        let ghost after = s.subrange(start as int, i + 1);
        assert(after.drop_last() == before);
        assert(after.last() == c);
        if !('0' <= c && c <= '9') {
            assert(digits[i - start] == c);
            assert(!is_digit(digits[i - start]));
            return None;
        }
        assert(all_digits(after)) by {
            assert forall|k: int| 0 <= k < after.len() implies is_digit(#[trigger] after[k]) by {
                if k < before.len() {
                    assert(after[k] == before[k]);
                }
            }
        }
        let d = (c as u32 - '0' as u32) as i64;
        let limit: i64 = if negative {
            -lo
        } else {
            hi
        };
        let next: i128 = value as i128 * 10 + d as i128;
        assert(decimal(after) == next);
        if next > limit as i128 {
            proof {
                assert(after == digits.take(i + 1 - start));
                assert(all_digits(digits) ==> decimal(after) <= decimal(digits)) by {
                    if all_digits(digits) {
                        lemma_decimal_prefix_le(digits, i + 1 - start);
                    }
                }
                if negative {
                    assert(limit == -lo);
                } else {
                    assert(limit == hi);
                }
            }
            return None;
        }
        value = next as i64;
        i += 1;
    }
    assert(s.subrange(start as int, v.len() as int) == digits);
    if negative {
        Some(-value)
    } else {
        Some(value)
    }
}

/// The number of characters whose UTF-8 encodings fill exactly `n` bytes at the start
/// of `s`, when such a prefix exists (what `str::get(..n)` selects).
pub open spec fn chars_for_bytes(s: Seq<char>, n: int) -> Option<int>
    decreases s.len(),
{
    if n == 0 {
        Some(0)
    } else if s.len() == 0 || utf8_width(s[0]) > n {
        None
    } else {
        match chars_for_bytes(s.drop_first(), n - utf8_width(s[0])) {
            Some(k) => Some(k + 1),
            None => None,
        }
    }
}

/// The number of bytes UTF-8 uses for `c`.
pub open spec fn utf8_width(c: char) -> int {
    if (c as u32) < 0x80 {
        1
    } else if (c as u32) < 0x800 {
        2
    } else if (c as u32) < 0x10000 {
        3
    } else {
        4
    }
}

fn width_of(c: char) -> (r: usize)
    ensures
        r == utf8_width(c),
{
    let u = c as u32;
    if u < 0x80 {
        1
    } else if u < 0x800 {
        2
    } else if u < 0x10000 {
        3
    } else {
        4
    }
}

/// The characters of the first `n` bytes of `s`, when `n` falls on a character boundary
/// within it.
fn byte_prefix(v: &Vec<char>, n: usize) -> (r: Option<Vec<char>>)
    requires
        n <= 16,
    ensures
        match chars_for_bytes(v@, n as int) {
            Some(k) => r matches Some(p) && p@ == v@.take(k),
            None => r is None,
        },
{
    let mut taken: Vec<char> = Vec::new();
    let mut used: usize = 0;
    let mut i: usize = 0;
    assert(v@.subrange(0, v@.len() as int) == v@);
    while used < n
        invariant
            i <= v.len(),
            used <= n <= 16,
            taken@ == v@.take(i as int),
            chars_for_bytes(v@, n as int) == match chars_for_bytes(
                v@.subrange(i as int, v@.len() as int),
                n - used,
            ) {
                Some(k) => Some(k + i),
                None => None,
            },
        decreases n - used,
    {
        let ghost t = v@.subrange(i as int, v@.len() as int);
        if i >= v.len() {
            assert(t.len() == 0);
            return None;
        }
        let w = width_of(v[i]);
        assert(t[0] == v@[i as int]);
        if w > n - used {
            return None;
        }
        assert(t.drop_first() == v@.subrange(i + 1, v@.len() as int));
        taken.push(v[i]);
        assert(v@.take(i + 1) == v@.take(i as int).push(v@[i as int]));
        used = used + w;
        i = i + 1;
    }
    Some(taken)
}

/// The date part of a legacy timestamp: the first ten bytes of the trimmed text.
pub open spec fn date_part(value: Seq<char>) -> Option<Seq<char>> {
    match chars_for_bytes(trim(value), 10) {
        Some(k) => Some(trim(value).take(k)),
        None => None,
    }
}

/// The pieces of `s` between `-` separators.
pub open spec fn dash_fields(s: Seq<char>) -> Seq<Seq<char>>
    decreases s.len(),
{
    if s.len() == 0 {
        seq![Seq::empty()]
    } else {
        let prev = dash_fields(s.drop_last());
        if s.last() == '-' {
            prev.push(Seq::empty())
        } else {
            prev.update(prev.len() - 1, prev.last().push(s.last()))
        }
    }
}

proof fn lemma_dash_fields_nonempty(s: Seq<char>)
    ensures
        dash_fields(s).len() >= 1,
    decreases s.len(),
{
    if s.len() > 0 {
        lemma_dash_fields_nonempty(s.drop_last());
    }
}

/// The year, month and day parsed from the date part, when all three parse.
pub open spec fn date_fields(value: Seq<char>) -> Option<(int, int, int)> {
    match date_part(value) {
        None => None,
        Some(d) => {
            let f = dash_fields(d);
            if f.len() < 3 {
                None
            } else {
                match (
                    parse_int(f[0], true, i32::MIN as int, i32::MAX as int),
                    parse_int(f[1], false, 0, u32::MAX as int),
                    parse_int(f[2], false, 0, u32::MAX as int),
                ) {
                    (Some(y), Some(m), Some(d)) => Some((y, m, d)),
                    _ => None,
                }
            }
        },
    }
}

/// The shifted year, the 400-year era and the day within the era of a civil date.
pub open spec fn civil_parts(y: int, m: int, d: int) -> (int, int, int) {
    let year = y - (if m <= 2 {
        1int
    } else {
        0int
    });
    let era = year / 400;
    let yoe = year - era * 400;
    let mp = if m > 2 {
        m - 3
    } else {
        m + 9
    };
    let doy = (153 * mp + 2) / 5 + d - 1;
    let doe = yoe * 365 + yoe / 4 - yoe / 100 + doy;
    (year, era, doe)
}

/// Days from 1970-01-01 to the given civil date (month 1..=12, day 1..=31, not checked
/// against the month's length).
pub open spec fn civil_days(y: int, m: int, d: int) -> int {
    let (year, era, doe) = civil_parts(y, m, d);
    era * 146097 + doe - 719468
}

/// A 32-bit signed value.
pub open spec fn fits_i32(x: int) -> bool {
    i32::MIN <= x <= i32::MAX
}

/// Every intermediate value of the day count fits in 32-bit signed integers, the width
/// the computation uses (so the year is not within a few million years of its limit).
pub open spec fn civil_fits(y: int, m: int, d: int) -> bool {
    let (year, era, doe) = civil_parts(y, m, d);
    &&& fits_i32(year)
    &&& (year < 0 ==> fits_i32(year - 399))
    &&& fits_i32(era * 146097)
    &&& fits_i32(era * 146097 + doe)
    &&& fits_i32(era * 146097 + doe - 719468)
}

/// The day count of a date, or `None` when the month or day is out of range.
pub open spec fn days_from_civil_spec(y: int, m: int, d: int) -> Option<int> {
    if !(1 <= m <= 12) || !(1 <= d <= 31) {
        None
    } else {
        Some(civil_days(y, m, d))
    }
}

/// Days since 1970-01-01 of a date, `None` for a month outside 1..=12 or a day outside
/// 1..=31.
pub fn days_from_civil(year: i32, month: u32, day: u32) -> (r: Option<i64>)
    requires
        civil_fits(year as int, month as int, day as int),
    ensures
        match r {
            Some(x) => days_from_civil_spec(year as int, month as int, day as int) == Some(
                x as int,
            ),
            None => days_from_civil_spec(year as int, month as int, day as int) is None,
        },
{
    if !(1 <= month && month <= 12) || !(1 <= day && day <= 31) {
        return None;
    }
    let y: i64 = year as i64 - if month <= 2 {
        1
    } else {
        0
    };
    let era: i64 = if y >= 0 {
        y / 400
    } else {
        -((399 - y) / 400)
    };
    proof {
        let gy = y as int;
        if gy < 0 {
            assert(era == gy / 400) by (nonlinear_arith)
                requires
                    gy < 0,
                    era == -((399 - gy) / 400),
            ;
        } else {
            assert(era == gy / 400);
        }
    }
    let yoe: i64 = y - era * 400;
    assert(0 <= yoe < 400);
    let m = month as i64;
    let mp: i64 = if month > 2 {
        m - 3
    } else {
        m + 9
    };
    let doy: i64 = (153 * mp + 2) / 5 + day as i64 - 1;
    let doe: i64 = yoe * 365 + yoe / 4 - yoe / 100 + doy;
    assert(0 <= doe <= 146098);
    Some(era * 146097 + doe - 719468)
}

/// Milliseconds since the epoch of a legacy date: the first ten bytes of the trimmed
/// text read as `year-month-day`; `None` when that fails or the date precedes 1970.
pub open spec fn date_ms(value: Seq<char>) -> Option<int> {
    match date_fields(value) {
        None => None,
        Some((y, m, d)) => match days_from_civil_spec(y, m, d) {
            None => None,
            Some(days) => if days >= 0 {
                Some(days * 86_400_000)
            } else {
                None
            },
        },
    }
}

/// A legacy text whose parsed year the day count can handle (see `civil_fits`).
pub open spec fn date_in_range(value: Seq<char>) -> bool {
    match date_fields(value) {
        Some((y, m, d)) => civil_fits(y, m, d),
        None => true,
    }
}

proof fn lemma_chars_for_bytes_le(s: Seq<char>, n: int)
    requires
        0 <= n,
        chars_for_bytes(s, n) is Some,
    ensures
        chars_for_bytes(s, n)->0 <= n,
        chars_for_bytes(s, n)->0 <= s.len(),
        0 <= chars_for_bytes(s, n)->0,
    decreases s.len(),
{
    if n > 0 {
        lemma_chars_for_bytes_le(s.drop_first(), n - utf8_width(s[0]));
    }
}

/// The total length of the pieces.
pub open spec fn lens_sum(f: Seq<Seq<char>>) -> int
    decreases f.len(),
{
    if f.len() == 0 {
        0
    } else {
        lens_sum(f.drop_last()) + f.last().len()
    }
}

proof fn lemma_dash_fields_lens(s: Seq<char>)
    ensures
        lens_sum(dash_fields(s)) + dash_fields(s).len() - 1 == s.len(),
    decreases s.len(),
{
    lemma_dash_fields_nonempty(s);
    if s.len() == 0 {
        let f = dash_fields(s);
        assert(f.drop_last().len() == 0);
        assert(lens_sum(f.drop_last()) == 0);
    } else {
        let prev = dash_fields(s.drop_last());
        lemma_dash_fields_lens(s.drop_last());
        lemma_dash_fields_nonempty(s.drop_last());
        if s.last() != '-' {
            let f = prev.update(prev.len() - 1, prev.last().push(s.last()));
            assert(f.drop_last() == prev.drop_last());
            assert(f.last() == prev.last().push(s.last()));
            assert(dash_fields(s) == f);
            assert(lens_sum(f) == lens_sum(f.drop_last()) + f.last().len());
            assert(lens_sum(prev) == lens_sum(prev.drop_last()) + prev.last().len());
        } else {
            let f = prev.push(Seq::<char>::empty());
            assert(f.drop_last() == prev);
            assert(dash_fields(s) == f);
            assert(lens_sum(f) == lens_sum(f.drop_last()) + f.last().len());
        }
    }
}

proof fn lemma_lens_sum_first_three(f: Seq<Seq<char>>)
    requires
        f.len() >= 3,
    ensures
        f[0].len() + f[1].len() + f[2].len() <= lens_sum(f),
    decreases f.len(),
{
    let a = f.drop_last();
    assert(lens_sum(f) == lens_sum(a) + f.last().len());
    if f.len() > 3 {
        lemma_lens_sum_first_three(a);
        assert(a[0] == f[0] && a[1] == f[1] && a[2] == f[2]);
    } else {
        let b = a.drop_last();
        let c = b.drop_last();
        assert(lens_sum(a) == lens_sum(b) + a.last().len());
        assert(lens_sum(b) == lens_sum(c) + b.last().len());
        assert(c.len() == 0);
        assert(lens_sum(c) == 0);
        assert(a.last() == f[1] && b.last() == f[0]);
    }
}

/// Ten to the power `n`.
pub open spec fn pow10(n: nat) -> int
    decreases n,
{
    if n == 0 {
        1
    } else {
        10 * pow10((n - 1) as nat)
    }
}

proof fn lemma_decimal_below(s: Seq<char>)
    requires
        all_digits(s),
    ensures
        decimal(s) < pow10(s.len()),
    decreases s.len(),
{
    if s.len() > 0 {
        assert(all_digits(s.drop_last())) by {
            assert forall|i: int| 0 <= i < s.drop_last().len() implies is_digit(
                #[trigger] s.drop_last()[i],
            ) by {
                assert(s.drop_last()[i] == s[i]);
            }
        }
        lemma_decimal_below(s.drop_last());
        assert(is_digit(s[s.len() - 1]));
        let a = decimal(s.drop_last());
        let b = pow10(s.drop_last().len());
        let d = digit_value(s.last());
        assert(a * 10 + d < b * 10) by (nonlinear_arith)
            requires
                a < b,
                0 <= d <= 9,
        ;
    }
}

proof fn lemma_pow10_mono(a: nat, b: nat)
    requires
        a <= b,
    ensures
        pow10(a) <= pow10(b),
    decreases b,
{
    if a < b {
        lemma_pow10_mono(a, (b - 1) as nat);
        assert(pow10((b - 1) as nat) >= 1) by {
            lemma_pow10_mono(0, (b - 1) as nat);
        }
    }
}

proof fn lemma_parse_small(s: Seq<char>, signed: bool, lo: int, hi: int)
    requires
        s.len() <= 6,
        parse_int(s, signed, lo, hi) is Some,
    ensures
        -1_000_000 < parse_int(s, signed, lo, hi)->0 < 1_000_000,
{
    let negative = signed && s.len() > 0 && s[0] == '-';
    let digits = if s.len() > 0 && (s[0] == '+' || negative) {
        s.drop_first()
    } else {
        s
    };
    lemma_decimal_below(digits);
    lemma_decimal_nonneg(digits);
    lemma_pow10_mono(digits.len(), 6);
    reveal_with_fuel(pow10, 7);
}

/// Every text is in range: the ten bytes of a date leave at most six characters to each
/// of its three fields, far from the limits of the day count.
pub proof fn lemma_date_in_range(value: Seq<char>)
    ensures
        date_in_range(value),
{
    if let Some((y, m, d)) = date_fields(value) {
        let t = trim(value);
        let k = chars_for_bytes(t, 10)->0;
        lemma_chars_for_bytes_le(t, 10);
        let part = t.take(k);
        assert(date_part(value) == Some(part));
        assert(part.len() <= 10);
        let f = dash_fields(part);
        assert(f.len() >= 3);
        lemma_dash_fields_lens(part);
        lemma_lens_sum_first_three(f);
        assert(f[1].len() >= 1 && f[2].len() >= 1 && f[0].len() >= 1);
        assert(lens_sum(f) <= 8);
        assert(f[0].len() <= 6);
        lemma_parse_small(f[0], true, i32::MIN as int, i32::MAX as int);
        lemma_parse_small(f[1], false, 0, u32::MAX as int);
        lemma_parse_small(f[2], false, 0, u32::MAX as int);
        lemma_civil_fits(y, m, d);
    }
}

proof fn lemma_civil_fits(y: int, m: int, d: int)
    requires
        -1_000_000 < y < 1_000_000,
        0 <= m < 1_000_000,
        0 <= d < 1_000_000,
    ensures
        civil_fits(y, m, d),
{
    let (year, era, doe) = civil_parts(y, m, d);
    assert(-2_600 <= era <= 2_600);
    let yoe = year - era * 400;
    assert(0 <= yoe < 400);
    let mp = if m > 2 {
        m - 3
    } else {
        m + 9
    };
    assert(0 <= (153 * mp + 2) / 5 <= 31_000_000);
    assert(-400_000_000 < era * 146097 < 400_000_000);
}

fn split_dashes(v: &Vec<char>) -> (r: Vec<Vec<char>>)
    ensures
        r@.len() == dash_fields(v@).len(),
        forall|i: int| 0 <= i < r@.len() ==> (#[trigger] r@[i])@ == dash_fields(v@)[i],
{
    let mut fields: Vec<Vec<char>> = Vec::new();
    let mut current: Vec<char> = Vec::new();
    let mut i: usize = 0;
    while i < v.len()
        invariant
            i <= v.len(),
            fields@.len() + 1 == dash_fields(v@.take(i as int)).len(),
            forall|k: int| 0 <= k < fields@.len() ==> (#[trigger] fields@[k])@ == dash_fields(
                v@.take(i as int),
            )[k],
            current@ == dash_fields(v@.take(i as int)).last(),
        decreases v.len() - i,
    {
        proof {
            lemma_dash_fields_nonempty(v@.take(i as int));
        }
        assert(v@.take(i + 1).drop_last() == v@.take(i as int));
        if v[i] == '-' {
            fields.push(current);
            current = Vec::new();
        } else {
            current.push(v[i]);
        }
        i += 1;
    }
    proof {
        lemma_dash_fields_nonempty(v@.take(i as int));
    }
    assert(v@.take(v.len() as int) == v@);
    fields.push(current);
    fields
}

/// Milliseconds since the epoch of a legacy date such as `2026-08-13`.
pub fn date_to_ms(value: &str) -> (r: Option<u64>)
    ensures
        match r {
            Some(x) => date_ms(value@) == Some(x as int),
            None => date_ms(value@) is None,
        },
{
    proof {
        lemma_date_in_range(value@);
    }
    let t = trimmed(value);
    let tv = chars_of(t.as_str());
    let date = match byte_prefix(&tv, 10) {
        Some(d) => d,
        None => return None,
    };
    let fields = split_dashes(&date);
    proof {
        lemma_dash_fields_nonempty(date@);
    }
    if fields.len() < 3 {
        return None;
    }
    let year = match parse_integer(&fields[0], true, i32::MIN as i64, i32::MAX as i64) {
        Some(y) => y as i32,
        None => return None,
    };
    let month = match parse_integer(&fields[1], false, 0, u32::MAX as i64) {
        Some(m) => m as u32,
        None => return None,
    };
    let day = match parse_integer(&fields[2], false, 0, u32::MAX as i64) {
        Some(d) => d as u32,
        None => return None,
    };
    let days = match days_from_civil(year, month, day) {
        Some(d) => d,
        None => return None,
    };
    if days < 0 {
        return None;
    }
    assert(days <= 0x7fff_ffff);
    Some(days as u64 * 86_400_000)
}

} // verus!
