//! Decimal integers: parsing with the rules of `i64::from_str` / `u64::from_str`
//! (an optional sign, then one or more ASCII digits) and printing in base ten.
use vstd::prelude::*;
use crate::text::string_from_chars;
use vstd::string::StringSliceAdditionalSpecFns;

verus! {

/// An ASCII digit.
pub open spec fn is_digit_byte(b: u8) -> bool {
    48 <= b <= 57
}

/// Every byte is an ASCII digit.
pub open spec fn all_digit_bytes(s: Seq<u8>) -> bool {
    forall|i: int| 0 <= i < s.len() ==> is_digit_byte(#[trigger] s[i])
}

/// The value of a run of ASCII digits, most significant first.
pub open spec fn digits_value(s: Seq<u8>) -> nat
    decreases s.len(),
{
    if s.len() == 0 {
        0
    } else {
        digits_value(s.drop_last()) * 10 + (s.last() - 48) as nat
    }
}

/// What `from_str` reads from `s`: an optional `+` (or, for a signed type, `-`)
/// followed by at least one ASCII digit, and nothing else.
pub open spec fn int_from_str(s: Seq<u8>, signed: bool) -> Option<int> {
    if s.len() == 0 {
        None
    } else {
        let neg = signed && s[0] == 45u8;
        let body = if s[0] == 43u8 || neg {
            s.drop_first()
        } else {
            s
        };
        if body.len() == 0 || !all_digit_bytes(body) {
            None
        } else if neg {
            Some(-(digits_value(body) as int))
        } else {
            Some(digits_value(body) as int)
        }
    }
}

/// `i64::from_str` on the bytes `s`: the value when it is well formed and in range.
pub open spec fn parse_i64_spec(s: Seq<u8>) -> Option<i64> {
    match int_from_str(s, true) {
        Some(v) => if i64::MIN <= v <= i64::MAX {
            Some(v as i64)
        } else {
            None
        },
        None => None,
    }
}

/// `u64::from_str` on the bytes `s`.
pub open spec fn parse_u64_spec(s: Seq<u8>) -> Option<u64> {
    match int_from_str(s, false) {
        Some(v) => if 0 <= v <= u64::MAX {
            Some(v as u64)
        } else {
            None
        },
        None => None,
    }
}

/// The cap above which a digit run no longer fits any 64-bit integer.
pub open spec fn decimal_cap() -> nat {
    0x1_0000_0000_0000_0000
}

/// The value, or the cap once it reaches it (a digit run that long fits no 64-bit integer).
pub open spec fn capped(v: nat) -> nat {
    if v >= decimal_cap() {
        decimal_cap()
    } else {
        v
    }
}

/// The value of the digits `b[lo..hi]`, capped at 2^64; `None` if one is not a digit.
fn digits_value_capped(b: &[u8], lo: usize, hi: usize) -> (res: Option<u128>)
    requires
        lo <= hi <= b@.len(),
    ensures
        match res {
            None => !all_digit_bytes(b@.subrange(lo as int, hi as int)),
            Some(v) => all_digit_bytes(b@.subrange(lo as int, hi as int)) && v == capped(
                digits_value(b@.subrange(lo as int, hi as int)),
            ),
        },
{
    let mut acc: u128 = 0;
    let mut i = lo;
    assert(b@.subrange(lo as int, lo as int).len() == 0);
    while i < hi
        invariant
            lo <= i <= hi <= b@.len(),
            all_digit_bytes(b@.subrange(lo as int, i as int)),
            acc == capped(digits_value(b@.subrange(lo as int, i as int))),
        decreases hi - i,
    {
        let d = b[i];
        if d < 48 || d > 57 {
            assert(b@.subrange(lo as int, hi as int)[i - lo] == d);
            return None;
        }
        let ghost prev = b@.subrange(lo as int, i as int);
        let ghost next = b@.subrange(lo as int, i + 1);
        assert(next.drop_last() =~= prev);
        assert(next.last() == d);
        if acc >= 0x1_0000_0000_0000_0000u128 {
            assert(digits_value(prev) >= decimal_cap());
        } else {
            let v = acc * 10 + (d - 48) as u128;
            acc = if v >= 0x1_0000_0000_0000_0000u128 { 0x1_0000_0000_0000_0000u128 } else { v };
        }
        i += 1;
        assert(all_digit_bytes(b@.subrange(lo as int, i as int))) by {
            assert forall|j: int| 0 <= j < next.len() implies is_digit_byte(#[trigger] next[j]) by {
                if j < prev.len() {
                    assert(next[j] == prev[j]);
                }
            }
        }
    }
    Some(acc)
}

/// Parses a signed decimal as `i64::from_str` does.
pub fn parse_i64(b: &[u8]) -> (res: Option<i64>)
    ensures
        res == parse_i64_spec(b@),
{
    let n = b.len();
    if n == 0 {
        return None;
    }
    let neg = b[0] == 45;
    let start: usize = if b[0] == 43 || neg { 1 } else { 0 };
    assert(start == 1 ==> b@.drop_first() =~= b@.subrange(1, n as int));
    assert(start == 0 ==> b@ =~= b@.subrange(0, n as int));
    if start == n {
        return None;
    }
    match digits_value_capped(b, start, n) {
        None => None,
        Some(v) => {
            if neg {
                if v <= 0x8000_0000_0000_0000u128 {
                    let m = v as i128;
                    Some((-m) as i64)
                } else {
                    None
                }
            } else if v <= 0x7fff_ffff_ffff_ffffu128 {
                Some(v as i64)
            } else {
                None
            }
        },
    }
}

/// Parses an unsigned decimal as `u64::from_str` does.
pub fn parse_u64(b: &[u8]) -> (res: Option<u64>)
    ensures
        res == parse_u64_spec(b@),
{
    let n = b.len();
    if n == 0 {
        return None;
    }
    let start: usize = if b[0] == 43 { 1 } else { 0 };
    assert(start == 1 ==> b@.drop_first() =~= b@.subrange(1, n as int));
    assert(start == 0 ==> b@ =~= b@.subrange(0, n as int));
    if start == n {
        return None;
    }
    match digits_value_capped(b, start, n) {
        None => None,
        Some(v) => {
            if v <= 0xffff_ffff_ffff_ffffu128 {
                Some(v as u64)
            } else {
                None
            }
        },
    }
}

/// Parses the text of a string as `u64::from_str` does.
pub fn parse_u64_str(s: &str) -> (res: Option<u64>)
    ensures
        res == parse_u64_spec(s.spec_bytes()),
{
    parse_u64(s.as_bytes())
}

/// The character of a decimal digit.
pub open spec fn digit_char(d: nat) -> char {
    ((d + 48) as u8) as char
}

/// The base-ten digits of `n`, most significant first, without leading zeros.
pub open spec fn decimal_chars(n: nat) -> Seq<char>
    decreases n,
{
    if n < 10 {
        seq![digit_char(n)]
    } else {
        decimal_chars(n / 10).push(digit_char(n % 10))
    }
}

/// The bytes of [`decimal_chars`].
pub open spec fn decimal_bytes(n: nat) -> Seq<u8>
    decreases n,
{
    if n < 10 {
        seq![(n + 48) as u8]
    } else {
        decimal_bytes(n / 10).push((n % 10 + 48) as u8)
    }
}

fn decimal_digits(n: u64) -> (res: Vec<char>)
    ensures
        res@ == decimal_chars(n as nat),
    decreases n,
{
    let d = n % 10;
    let c = ((d + 48) as u8) as char;
    if n < 10 {
        let mut v: Vec<char> = Vec::new();
        v.push(c);
        assert(v@ =~= seq![digit_char(n as nat)]);
        v
    } else {
        let mut v = decimal_digits(n / 10);
        v.push(c);
        v
    }
}

/// `n.to_string()` for an unsigned integer.
pub fn format_u64(n: u64) -> (res: String)
    ensures
        res@ == decimal_chars(n as nat),
{
    let v = decimal_digits(n);
    string_from_chars(v.as_slice())
}

/// `n.to_string()` for a signed integer: a `-` before the digits of a negative value.
pub open spec fn signed_decimal_chars(n: int) -> Seq<char> {
    if n < 0 {
        seq!['-'] + decimal_chars((-n) as nat)
    } else {
        decimal_chars(n as nat)
    }
}

/// The decimal text of a signed number (`-` before a negative one).
pub fn format_i64(n: i64) -> (res: String)
    ensures
        res@ == signed_decimal_chars(n as int),
{
    if n < 0 {
        let m = (-(n as i128)) as u64;
        let digits = decimal_digits(m);
        let mut v: Vec<char> = Vec::new();
        v.push('-');
        let mut i: usize = 0;
        while i < digits.len()
            invariant
                0 <= i <= digits@.len(),
                v@ == seq!['-'] + digits@.subrange(0, i as int),
            decreases digits@.len() - i,
        {
            v.push(digits[i]);
            i += 1;
            assert(v@ =~= seq!['-'] + digits@.subrange(0, i as int));
        }
        assert(digits@.subrange(0, digits@.len() as int) =~= digits@);
        string_from_chars(v.as_slice())
    } else {
        format_u64(n as u64)
    }
}

proof fn lemma_decimal_chars_ascii(n: nat)
    ensures
        decimal_chars(n).len() >= 1,
        forall|i: int|
            0 <= i < decimal_chars(n).len() ==> '0' <= #[trigger] decimal_chars(n)[i] <= '9',
        forall|i: int|
            0 <= i < decimal_chars(n).len() ==> (#[trigger] decimal_chars(n)[i]) as u8
                == decimal_bytes(n)[i],
        decimal_bytes(n).len() == decimal_chars(n).len(),
    decreases n,
{
    if n >= 10 {
        lemma_decimal_chars_ascii(n / 10);
    }
}

proof fn lemma_decimal_bytes_value(n: nat)
    ensures
        all_digit_bytes(decimal_bytes(n)),
        digits_value(decimal_bytes(n)) == n,
        decimal_bytes(n).len() >= 1,
        decimal_bytes(n)[0] != 43u8,
        decimal_bytes(n)[0] != 45u8,
    decreases n,
{
    if n < 10 {
        let b = decimal_bytes(n);
        assert(b.drop_last().len() == 0);
        assert(digits_value(b) == digits_value(b.drop_last()) * 10 + (b.last() - 48) as nat);
    }
    if n >= 10 {
        lemma_decimal_bytes_value(n / 10);
        let b = decimal_bytes(n);
        assert(b.drop_last() =~= decimal_bytes(n / 10));
        assert(b.last() == (n % 10 + 48) as u8);
        assert(((n % 10 + 48) as u8) - 48 == n % 10);
        assert(digits_value(b) == digits_value(decimal_bytes(n / 10)) * 10 + n % 10);
        assert((n / 10) * 10 + n % 10 == n);
        assert forall|i: int| 0 <= i < b.len() implies is_digit_byte(#[trigger] b[i]) by {
            if i < b.len() - 1 {
                assert(b[i] == decimal_bytes(n / 10)[i]);
            }
        }
    }
}

/// Law: an offset written with [`format_u64`] reads back, with [`parse_u64_str`]'s
/// rules, as the same number.
pub proof fn law_decimal_round_trip(n: u64)
    ensures
        parse_u64_spec(vstd::utf8::encode_utf8(decimal_chars(n as nat))) == Some(n),
{
    lemma_decimal_chars_ascii(n as nat);
    lemma_decimal_bytes_value(n as nat);
    let c = decimal_chars(n as nat);
    assert(vstd::utf8::is_ascii_chars(c));
    vstd::utf8::is_ascii_chars_encode_utf8(c);
    assert(vstd::utf8::encode_utf8(c) =~= decimal_bytes(n as nat));
}

} // verus!
