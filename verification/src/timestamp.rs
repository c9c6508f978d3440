//! UTC timestamps of the form `YYYY-MM-DDTHH:MM:SS[.frac]Z` as milliseconds since
//! the Unix epoch, over the proleptic Gregorian calendar.
use vstd::prelude::*;
use vstd::slice::slice_subrange;
use vstd::string::StringSliceAdditionalSpecFns;
use crate::numeric::{all_digit_bytes, digits_value, is_digit_byte, parse_i64, parse_i64_spec};

verus! {

/// A leap year of the proleptic Gregorian calendar.
pub open spec fn is_leap_year(y: int) -> bool {
    (y % 4 == 0 && y % 100 != 0) || y % 400 == 0
}

/// The days of year `y`.
pub open spec fn days_in_year(y: int) -> int {
    if is_leap_year(y) {
        366
    } else {
        365
    }
}

/// The number of days from 1970-01-01 to the first of January of year `y`
/// (negative before 1970), counting each year's length.
pub open spec fn days_to_year(y: int) -> int
    decreases (if y >= 1970 {
        y - 1970
    } else {
        1970 - y
    }),
{
    if y == 1970 {
        0
    } else if y > 1970 {
        days_to_year(y - 1) + days_in_year(y - 1)
    } else {
        days_to_year(y + 1) - days_in_year(y)
    }
}

/// The number of days of year `y` before the first of month `m` (1 to 12).
pub open spec fn days_before_month(y: int, m: int) -> int {
    let base: int = if m == 1 {
        0
    } else if m == 2 {
        31
    } else if m == 3 {
        59
    } else if m == 4 {
        90
    } else if m == 5 {
        120
    } else if m == 6 {
        151
    } else if m == 7 {
        181
    } else if m == 8 {
        212
    } else if m == 9 {
        243
    } else if m == 10 {
        273
    } else if m == 11 {
        304
    } else {
        334
    };
    base + if m > 2 && is_leap_year(y) {
        1int
    } else {
        0int
    }
}

/// Days since 1970-01-01 of day `d` of month `m` of year `y`; a day past the
/// month's end runs on into the next month.
pub open spec fn civil_days(y: int, m: int, d: int) -> int {
    days_to_year(y) + days_before_month(y, m) + d - 1
}

/// Milliseconds since the epoch of the given UTC wall-clock time.
pub open spec fn epoch_ms(y: int, mo: int, d: int, h: int, mi: int, s: int, ms: int) -> int {
    ((civil_days(y, mo, d) * 24 + h) * 60 + mi) * 60000 + s * 1000 + ms
}

/// Ten to the power `k`.
pub open spec fn pow10(k: nat) -> int
    decreases k,
{
    if k == 0 {
        1
    } else {
        10 * pow10((k - 1) as nat)
    }
}

/// The number of ASCII digits at the start of `s`.
pub open spec fn digit_run_len(s: Seq<u8>) -> nat
    decreases s.len(),
{
    if s.len() > 0 && is_digit_byte(s[0]) {
        1 + digit_run_len(s.drop_first())
    } else {
        0
    }
}

/// A fraction of `n` digits with value `v`, in whole milliseconds: digits past the
/// third are cut off, missing ones count as zeros.
pub open spec fn fraction_ms(v: int, n: nat) -> int {
    if n > 3 {
        v / pow10((n - 3) as nat)
    } else {
        v * pow10((3 - n) as nat)
    }
}

/// The separators of `YYYY-MM-DDTHH:MM:SS` stand where they must, in at least 20 bytes.
pub open spec fn layout_ok(b: Seq<u8>) -> bool {
    &&& b.len() >= 20
    &&& b[4] == 45u8
    &&& b[7] == 45u8
    &&& b[10] == 84u8
    &&& b[13] == 58u8
    &&& b[16] == 58u8
}

/// The number that the digits `b[lo..hi]` spell, if they are all digits.
pub open spec fn field(b: Seq<u8>, lo: int, hi: int) -> Option<i64> {
    parse_i64_spec(b.subrange(lo, hi))
}

/// The date and time fields are all present and the month and day are in range.
pub open spec fn fields_ok(b: Seq<u8>) -> bool {
    &&& layout_ok(b)
    &&& field(b, 0, 4) is Some
    &&& field(b, 5, 7) is Some
    &&& field(b, 8, 10) is Some
    &&& field(b, 11, 13) is Some
    &&& field(b, 14, 16) is Some
    &&& field(b, 17, 19) is Some
    &&& 1 <= field(b, 5, 7)->0 <= 12
    &&& 1 <= field(b, 8, 10)->0 <= 31
}

/// The number of digits of the fraction after the seconds.
pub open spec fn frac_len(b: Seq<u8>) -> nat {
    digit_run_len(b.subrange(20, b.len() as int))
}

/// The fraction holds more digits than a 64-bit power of ten can scale down: the
/// one input shape the conversion refuses.
pub open spec fn fraction_too_long(b: Seq<u8>) -> bool {
    &&& fields_ok(b)
    &&& b[19] == 46u8
    &&& frac_len(b) >= 22
    &&& parse_i64_spec(b.subrange(20, 20 + frac_len(b) as int)) is Some
}

/// The milliseconds of the part after the seconds: `Z`, or `.` digits `Z`.
pub open spec fn tail_ms(b: Seq<u8>) -> Option<int> {
    if b[19] == 46u8 {
        let n = frac_len(b);
        if n == 0 {
            None
        } else {
            match parse_i64_spec(b.subrange(20, 20 + n as int)) {
                None => None,
                Some(v) => if b.subrange(20 + n as int, b.len() as int) == seq![90u8] {
                    Some(fraction_ms(v as int, n))
                } else {
                    None
                },
            }
        }
    } else if b.subrange(19, b.len() as int) == seq![90u8] {
        Some(0)
    } else {
        None
    }
}

/// The instant that the bytes `b` of a `YYYY-MM-DDTHH:MM:SS[.frac]Z` timestamp
/// denote, in milliseconds since the epoch; `None` when they do not match.
pub open spec fn rfc3339_ms_spec(b: Seq<u8>) -> Option<int> {
    if !fields_ok(b) {
        None
    } else {
        match tail_ms(b) {
            None => None,
            Some(f) => Some(
                epoch_ms(
                    field(b, 0, 4)->0 as int,
                    field(b, 5, 7)->0 as int,
                    field(b, 8, 10)->0 as int,
                    field(b, 11, 13)->0 as int,
                    field(b, 14, 16)->0 as int,
                    field(b, 17, 19)->0 as int,
                    f,
                ),
            ),
        }
    }
}

/// Days since 0000-03-01 to the first of March of year `y` (negative before).
pub open spec fn march_days(y: int) -> int {
    365 * y + y / 4 - y / 100 + y / 400
}

proof fn lemma_march_days_step(y: int)
    ensures
        march_days(y + 1) - march_days(y) == 365 + if is_leap_year(y + 1) {
            1int
        } else {
            0int
        },
{
    assert((y + 1) / 4 - y / 4 == if (y + 1) % 4 == 0 {
        1int
    } else {
        0int
    });
    assert((y + 1) / 100 - y / 100 == if (y + 1) % 100 == 0 {
        1int
    } else {
        0int
    });
    assert((y + 1) / 400 - y / 400 == if (y + 1) % 400 == 0 {
        1int
    } else {
        0int
    });
}

/// March 1 of year `y` counted from 0000-03-01 and from 1970-01-01 differ by a constant.
proof fn lemma_march_days_epoch(y: int)
    ensures
        march_days(y) - 719468 == days_to_year(y) + 59 + if is_leap_year(y) {
            1int
        } else {
            0int
        },
    decreases (if y >= 1970 {
        y - 1970
    } else {
        1970 - y
    }),
{
    if y == 1970 {
        assert(march_days(1970) == 719527);
    } else if y > 1970 {
        lemma_march_days_epoch(y - 1);
        lemma_march_days_step(y - 1);
    } else {
        lemma_march_days_epoch(y + 1);
        lemma_march_days_step(y);
    }
}

/// The shifted-era day count that [`rfc3339_utc_to_ms`] evaluates equals the calendar count.
proof fn lemma_civil_days(y: int, m: int, d: int)
    requires
        1 <= m <= 12,
    ensures
        ({
            let yy = if m <= 2 {
                y - 1
            } else {
                y
            };
            march_days(yy) + (153 * ((m + 9) % 12) + 2) / 5 + d - 1 - 719468
        }) == civil_days(y, m, d),
{
    if m <= 2 {
        lemma_march_days_epoch(y - 1);
        assert(days_to_year(y) == days_to_year(y - 1) + days_in_year(y - 1)) by {
            reveal_with_fuel(days_to_year, 2);
        }
    } else {
        lemma_march_days_epoch(y);
    }
}

proof fn lemma_march_days_shift(y: int)
    ensures
        march_days(y + 1200) == march_days(y) + 438291,
{
    assert((y + 1200) / 4 == y / 4 + 300);
    assert((y + 1200) / 100 == y / 100 + 12);
    assert((y + 1200) / 400 == y / 400 + 3);
}

proof fn lemma_pow10_monotone(j: nat, k: nat)
    requires
        j <= k,
    ensures
        1 <= pow10(j) <= pow10(k),
    decreases k,
{
    if k > j {
        lemma_pow10_monotone(j, (k - 1) as nat);
    } else if k > 0 {
        lemma_pow10_monotone(0, (k - 1) as nat);
    }
}

proof fn lemma_pow10_bounds(k: nat)
    ensures
        pow10(k) >= 1,
        k <= 18 ==> pow10(k) <= 1_000_000_000_000_000_000,
        pow10(3) == 1000,
        pow10(4) == 10000,
{
    assert(pow10(18) == 1_000_000_000_000_000_000) by {
        reveal_with_fuel(pow10, 19);
    }
    assert(pow10(4) == 10000) by {
        reveal_with_fuel(pow10, 5);
    }
    if k <= 18 {
        lemma_pow10_monotone(k, 18);
    } else {
        lemma_pow10_monotone(0, k);
    }
}

fn exp10(k: u32) -> (res: i64)
    requires
        k <= 18,
    ensures
        res == pow10(k as nat),
    decreases k,
{
    if k == 0 {
        1
    } else {
        let r = exp10(k - 1);
        proof {
            lemma_pow10_monotone((k - 1) as nat, 17);
            assert(pow10(17) == 100_000_000_000_000_000) by {
                reveal_with_fuel(pow10, 18);
            }
        }
        10 * r
    }
}

proof fn lemma_digit_run(s: Seq<u8>, i: int)
    requires
        0 <= i <= digit_run_len(s),
    ensures
        digit_run_len(s) <= s.len(),
        i < digit_run_len(s) ==> is_digit_byte(s[i]),
        digit_run_len(s) < s.len() ==> !is_digit_byte(s[digit_run_len(s) as int]),
    decreases s.len(),
{
    if s.len() > 0 && is_digit_byte(s[0]) {
        if i > 0 {
            lemma_digit_run(s.drop_first(), i - 1);
        } else {
            lemma_digit_run(s.drop_first(), 0);
        }
    }
}

/// Whether a timestamp falls in the one shape that the conversion refuses
/// (see [`fraction_too_long`]).
pub fn timestamp_fraction_too_long(s: &str) -> (res: bool)
    ensures
        res == fraction_too_long(s.spec_bytes()),
{
    let b = s.as_bytes();
    if !layout_check(b) {
        return false;
    }
    let fields = read_fields(b);
    if fields.is_none() {
        return false;
    }
    if b[19] != 46 {
        return false;
    }
    let n = count_digits(b, 20);
    if n < 22 {
        return false;
    }
    parse_i64(slice_subrange(b, 20, 20 + n)).is_some()
}

fn layout_check(b: &[u8]) -> (res: bool)
    ensures
        res == layout_ok(b@),
{
    b.len() >= 20 && b[4] == 45 && b[7] == 45 && b[10] == 84 && b[13] == 58 && b[16] == 58
}

/// The six date and time fields, when all parse and the month and day are in range.
fn read_fields(b: &[u8]) -> (res: Option<(i64, i64, i64, i64, i64, i64)>)
    requires
        layout_ok(b@),
    ensures
        res is Some <==> fields_ok(b@),
        res matches Some(f) ==> {
            &&& f.0 == field(b@, 0, 4)->0
            &&& f.1 == field(b@, 5, 7)->0
            &&& f.2 == field(b@, 8, 10)->0
            &&& f.3 == field(b@, 11, 13)->0
            &&& f.4 == field(b@, 14, 16)->0
            &&& f.5 == field(b@, 17, 19)->0
        },
{
    let year = parse_i64(slice_subrange(b, 0, 4));
    let month = parse_i64(slice_subrange(b, 5, 7));
    let day = parse_i64(slice_subrange(b, 8, 10));
    let hour = parse_i64(slice_subrange(b, 11, 13));
    let min = parse_i64(slice_subrange(b, 14, 16));
    let sec = parse_i64(slice_subrange(b, 17, 19));
    match (year, month, day, hour, min, sec) {
        (Some(y), Some(mo), Some(d), Some(h), Some(mi), Some(s)) => {
            if 1 <= mo && mo <= 12 && 1 <= d && d <= 31 {
                Some((y, mo, d, h, mi, s))
            } else {
                None
            }
        },
        _ => None,
    }
}

/// The number of ASCII digits in `b` from position `start` on.
fn count_digits(b: &[u8], start: usize) -> (res: usize)
    requires
        start <= b@.len(),
    ensures
        res == digit_run_len(b@.subrange(start as int, b@.len() as int)),
        start + res <= b@.len(),
{
    let n = b.len();
    let mut i = start;
    while i < n && 48 <= b[i] && b[i] <= 57
        invariant
            n == b@.len(),
            start <= i <= n,
            digit_run_len(b@.subrange(start as int, n as int)) == (i - start) + digit_run_len(
                b@.subrange(i as int, n as int),
            ),
        decreases n - i,
    {
        assert(b@.subrange(i as int, n as int).drop_first() =~= b@.subrange(i + 1, n as int));
        i += 1;
    }
    assert(digit_run_len(b@.subrange(i as int, n as int)) == 0);
    i - start
}

proof fn lemma_field_bounds(b: Seq<u8>, lo: int, hi: int)
    requires
        0 <= lo <= hi <= b.len(),
        hi - lo <= 4,
        field(b, lo, hi) is Some,
    ensures
        -999 <= field(b, lo, hi)->0 <= 9999,
{
    let s = b.subrange(lo, hi);
    let neg = s[0] == 45u8;
    let body = if s[0] == 43u8 || neg {
        s.drop_first()
    } else {
        s
    };
    lemma_digits_value_bound(body);
    lemma_pow10_bounds(0);
    lemma_pow10_monotone(body.len(), 4);
    if neg {
        lemma_pow10_monotone(body.len(), 3);
    }
}

proof fn lemma_digits_value_bound(s: Seq<u8>)
    requires
        all_digit_bytes(s),
    ensures
        digits_value(s) < pow10(s.len()),
    decreases s.len(),
{
    if s.len() > 0 {
        let p = s.drop_last();
        assert(all_digit_bytes(p)) by {
            assert forall|i: int| 0 <= i < p.len() implies is_digit_byte(#[trigger] p[i]) by {
                assert(p[i] == s[i]);
            }
        }
        lemma_digits_value_bound(p);
        assert(is_digit_byte(s[s.len() - 1]));
        assert(pow10(s.len()) == 10 * pow10(p.len()));
    }
}

/// The milliseconds of the timestamp's tail (see [`tail_ms`]).
fn read_tail_ms(b: &[u8]) -> (res: Option<i64>)
    requires
        fields_ok(b@),
        !fraction_too_long(b@),
    ensures
        match tail_ms(b@) {
            Some(f) => res == Some(f as i64) && 0 <= f < 1000,
            None => res is None,
        },
{
    let n = b.len();
    if b[19] == 46 {
        let k = count_digits(b, 20);
        if k == 0 {
            return None;
        }
        let v = match parse_i64(slice_subrange(b, 20, 20 + k)) {
            Some(v) => v,
            None => return None,
        };
        let ghost digits = b@.subrange(20, 20 + k as int);
        proof {
            assert(b@.subrange(20, n as int).subrange(0, k as int) =~= digits);
            assert forall|i: int| 0 <= i < digits.len() implies is_digit_byte(#[trigger] digits[i]) by {
                lemma_digit_run(b@.subrange(20, n as int), i);
            }
            assert(v as int == digits_value(digits) as int);
            lemma_digits_value_bound(digits);
        }
        let frac: i64;
        if k > 3 {
            let e = exp10((k - 3) as u32);
            proof {
                lemma_pow10_bounds((k - 3) as nat);
                lemma_pow10_shift3(k as nat);
                assert(v / e < 1000) by (nonlinear_arith)
                    requires
                        0 <= v < 1000 * e,
                        e >= 1,
                ;
            }
            frac = v / e;
        } else {
            let e = exp10((3 - k) as u32);
            proof {
                lemma_pow10_monotone(k as nat, 3);
                lemma_pow10_monotone((3 - k) as nat, 3);
                lemma_pow10_bounds(0);
                lemma_pow10_shift3(3);
                let p = pow10(k as nat);
                assert(p * e == 1000);
                assert(v * e < 1000) by (nonlinear_arith)
                    requires
                        0 <= v < p,
                        e >= 1,
                        p * e == 1000,
                ;
            }
            frac = v * e;
        }
        if !(20 + k + 1 == n && b[20 + k] == 90) {
            proof {
                if b@.subrange(20 + k as int, n as int) == seq![90u8] {
                    assert(b@.subrange(20 + k as int, n as int).len() == 1);
                    assert(b@.subrange(20 + k as int, n as int)[0] == b@[20 + k as int]);
                }
            }
            return None;
        }
        assert(b@.subrange(20 + k as int, n as int) =~= seq![90u8]);
        Some(frac)
    } else {
        if !(n == 20 && b[19] == 90) {
            proof {
                if b@.subrange(19, n as int) == seq![90u8] {
                    assert(b@.subrange(19, n as int).len() == 1);
                    assert(b@.subrange(19, n as int)[0] == b@[19]);
                }
            }
            return None;
        }
        assert(b@.subrange(19, n as int) =~= seq![90u8]);
        Some(0)
    }
}

proof fn lemma_pow10_shift3(k: nat)
    requires
        k >= 3,
    ensures
        pow10(k) == 1000 * pow10((k - 3) as nat),
        forall|j: nat| j <= 3 ==> #[trigger] pow10(j) * pow10((3 - j) as nat) == 1000,
{
    assert(pow10(k) == 10 * pow10((k - 1) as nat));
    assert(pow10((k - 1) as nat) == 10 * pow10((k - 2) as nat));
    assert(pow10((k - 2) as nat) == 10 * pow10((k - 3) as nat));
    assert(pow10(0) == 1 && pow10(1) == 10 && pow10(2) == 100 && pow10(3) == 1000) by {
        reveal_with_fuel(pow10, 4);
    }
}

/// Days since 1970-01-01 of a date, by the era arithmetic of days-from-civil,
/// shifted by three 400-year eras so that every division is on a non-negative value.
fn days_from_civil(year: i64, month: i64, day: i64) -> (res: i64)
    requires
        -999 <= year <= 9999,
        1 <= month <= 12,
        1 <= day <= 31,
    ensures
        res == civil_days(year as int, month as int, day as int),
        -2_000_000 <= res <= 4_000_000,
{
    proof {
        lemma_civil_days(year as int, month as int, day as int);
    }
    let yy: i64 = if month <= 2 { year - 1 } else { year } + 1200;
    let yu = yy as u64;
    let doy: i64 = (153 * ((month + 9) % 12) + 2) / 5 + day - 1;
    let base: u64 = 365 * yu + yu / 4 - yu / 100 + yu / 400;
    proof {
        let y0: int = if month <= 2 { year - 1 } else { year as int };
        lemma_march_days_shift(y0);
        assert(base as int == march_days(yy as int));
    }
    base as i64 + doy - 719468 - 438291
}

/// Converts a `YYYY-MM-DDTHH:MM:SS[.frac]Z` UTC timestamp to milliseconds since the
/// epoch; any other text gives `None`. Digits of the fraction past the third are
/// cut off and missing ones count as zeros.
pub fn rfc3339_utc_to_ms(s: &str) -> (res: Option<i64>)
    requires
        !fraction_too_long(s.spec_bytes()),
    ensures
        match rfc3339_ms_spec(s.spec_bytes()) {
            Some(v) => i64::MIN <= v <= i64::MAX && res == Some(v as i64),
            None => res is None,
        },
{
    let b = s.as_bytes();
    if !layout_check(b) {
        return None;
    }
    let (year, month, day, hour, min, sec) = match read_fields(b) {
        Some(f) => f,
        None => return None,
    };
    let frac_ms = match read_tail_ms(b) {
        Some(f) => f,
        None => return None,
    };
    proof {
        lemma_field_bounds(b@, 0, 4);
        lemma_field_bounds(b@, 11, 13);
        lemma_field_bounds(b@, 14, 16);
        lemma_field_bounds(b@, 17, 19);
    }
    let days = days_from_civil(year, month, day);
    let total = ((days * 24 + hour) * 60 + min) * 60_000 + sec * 1000 + frac_ms;
    Some(total)
}

} // verus!
