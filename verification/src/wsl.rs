//! WSL: the distribution list that `wsl.exe -l -q` prints, the command line that
//! runs a bash script inside a distribution, its outcome, and the combined probe.
use vstd::prelude::*;
use base64::Engine;
use vstd::string::StringSliceAdditionalSpecFns;
use vstd::utf8::encode_utf8;
use crate::codex::or_empty;
use crate::incremental::{decode_lossy, utf8_lossy};
use crate::numeric::{format_i64, signed_decimal_chars};
use crate::strings::{concat, concat_spec, concat2, opt_view, owned};
use crate::text::{
    chars_eq, chars_of, lines_of, slice_range, split_lines, string_from_chars, trim_chars, trim_of,
    CharClass, is_unicode_whitespace,
};

verus! {

/// One character of the standard base64 alphabet, or the padding `=`.
pub open spec fn is_base64_char(c: char) -> bool {
    ||| ('A' <= c && c <= 'Z')
    ||| ('a' <= c && c <= 'z')
    ||| ('0' <= c && c <= '9')
    ||| c == '+'
    ||| c == '/'
    ||| c == '='
}

/// The character of a 6-bit value in the standard alphabet: `A-Z`, `a-z`, `0-9`,
/// `+`, `/`.
pub open spec fn base64_digit(v: int) -> char {
    if v < 26 {
        ((65 + v) as u32) as char
    } else if v < 52 {
        ((97 + v - 26) as u32) as char
    } else if v < 62 {
        ((48 + v - 52) as u32) as char
    } else if v == 62 {
        '+'
    } else {
        '/'
    }
}

/// The standard (padded) base64 encoding of the bytes: each group of three bytes
/// becomes four characters of six bits each; a last group of one or two bytes is
/// filled with zero bits and padded with `=` to four characters.
pub open spec fn base64_standard(b: Seq<u8>) -> Seq<char>
    decreases b.len(),
{
    if b.len() == 0 {
        Seq::empty()
    } else if b.len() == 1 {
        seq![base64_digit((b[0] as int) / 4), base64_digit(((b[0] as int) % 4) * 16), '=', '=']
    } else if b.len() == 2 {
        seq![
            base64_digit((b[0] as int) / 4),
            base64_digit(((b[0] as int) % 4) * 16 + (b[1] as int) / 16),
            base64_digit(((b[1] as int) % 16) * 4),
            '=',
        ]
    } else {
        seq![
            base64_digit((b[0] as int) / 4),
            base64_digit(((b[0] as int) % 4) * 16 + (b[1] as int) / 16),
            base64_digit(((b[1] as int) % 16) * 4 + (b[2] as int) / 64),
            base64_digit((b[2] as int) % 64),
        ] + base64_standard(b.subrange(3, b.len() as int))
    }
}

proof fn lemma_base64_digit(v: int)
    requires
        0 <= v < 64,
    ensures
        is_base64_char(base64_digit(v)),
{
    if v < 26 {
        assert(((65 + v) as u32) as char as u32 == 65 + v);
    } else if v < 52 {
        assert(((97 + v - 26) as u32) as char as u32 == 97 + v - 26);
    } else if v < 62 {
        assert(((48 + v - 52) as u32) as char as u32 == 48 + v - 52);
    }
}

/// Every character of a base64 encoding is of the alphabet or the padding `=`.
pub proof fn lemma_base64_alphabet(b: Seq<u8>)
    ensures
        forall|i: int| 0 <= i < base64_standard(b).len() ==> is_base64_char(#[trigger] base64_standard(b)[i]),
    decreases b.len(),
{
    if b.len() >= 1 {
        lemma_base64_digit((b[0] as int) / 4);
        lemma_base64_digit(((b[0] as int) % 4) * 16);
    }
    if b.len() >= 2 {
        lemma_base64_digit(((b[0] as int) % 4) * 16 + (b[1] as int) / 16);
        lemma_base64_digit(((b[1] as int) % 16) * 4);
    }
    if b.len() >= 3 {
        lemma_base64_digit(((b[1] as int) % 16) * 4 + (b[2] as int) / 64);
        lemma_base64_digit((b[2] as int) % 64);
        lemma_base64_alphabet(b.subrange(3, b.len() as int));
        let head = seq![
            base64_digit((b[0] as int) / 4),
            base64_digit(((b[0] as int) % 4) * 16 + (b[1] as int) / 16),
            base64_digit(((b[1] as int) % 16) * 4 + (b[2] as int) / 64),
            base64_digit((b[2] as int) % 64),
        ];
        let tail = base64_standard(b.subrange(3, b.len() as int));
        assert forall|i: int| 0 <= i < base64_standard(b).len() implies is_base64_char(
            #[trigger] base64_standard(b)[i],
        ) by {
            if i >= 4 {
                assert(base64_standard(b)[i] == tail[i - 4]);
            }
        }
    }
}

/// Calls `base64::engine::general_purpose::STANDARD.encode` on the text's UTF-8
/// bytes: the standard alphabet with `=` padding, as [`base64_standard`] states.
/// (`encode` panics only when the output length overflows `usize`, which no
/// string of at most `isize::MAX` bytes reaches.)
#[verifier::external_body]
pub(crate) fn base64_encode(text: &str) -> (res: String)
    ensures
        res@ == base64_standard(text.spec_bytes()),
{
    base64::engine::general_purpose::STANDARD.encode(text)
}

/// The script that runs `cmd` in the distribution's login shell: the command
/// travels base64-encoded and is decoded inside WSL, so that neither `wsl.exe`
/// nor the outer bash expands anything in it.
pub open spec fn wrapped_command_spec(cmd: Seq<char>) -> Seq<char> {
    "echo "@ + base64_standard(encode_utf8(cmd)) + " | base64 -d | bash -ls"@
}

/// The script handed to `bash -lc` for `cmd` (see [`wrapped_command_spec`]).
pub fn wrap_command(cmd: &str) -> (res: String)
    ensures
        res@ == wrapped_command_spec(cmd@),
{
    let b64 = base64_encode(cmd);
    let res = concat(&["echo ", b64.as_str(), " | base64 -d | bash -ls"]);
    proof {
        reveal_with_fuel(concat_spec, 4);
    }
    res
}

/// Law: whatever the command, the script that reaches bash is the fixed text
/// around a run of base64 characters, none of which the shell treats specially.
pub proof fn law_wrapped_command_is_inert(cmd: Seq<char>, b64: Seq<char>)
    requires
        b64 == base64_standard(encode_utf8(cmd)),
    ensures
        wrapped_command_spec(cmd).subrange(5, 5 + b64.len() as int) == b64,
        forall|i: int|
            5 <= i < 5 + b64.len() ==> {
                let c = #[trigger] wrapped_command_spec(cmd)[i];
                c != ' ' && c != '\'' && c != '"' && c != '$' && c != '`' && c != ';' && c != '|'
                    && c != '&' && c != '\\' && c != '\n'
            },
{
    reveal_strlit("echo ");
    lemma_base64_alphabet(encode_utf8(cmd));
    let w = wrapped_command_spec(cmd);
    assert(w.subrange(5, 5 + b64.len() as int) =~= b64);
    assert forall|i: int| 5 <= i < 5 + b64.len() implies {
        let c = #[trigger] w[i];
        c != ' ' && c != '\'' && c != '"' && c != '$' && c != '`' && c != ';' && c != '|'
            && c != '&' && c != '\\' && c != '\n'
    } by {
        assert(w[i] == b64[i - 5]);
    }
}

/// The arguments of `wsl.exe` that run `script` with `bash -lc` in `distro`.
pub fn wsl_args(distro: &str, script: &str) -> (res: Vec<String>)
    ensures
        res@.len() == 6,
        res@[0]@ == "-d"@,
        res@[1]@ == distro@,
        res@[2]@ == "--"@,
        res@[3]@ == "bash"@,
        res@[4]@ == "-lc"@,
        res@[5]@ == script@,
{
    let mut v: Vec<String> = Vec::new();
    v.push(owned("-d"));
    v.push(owned(distro));
    v.push(owned("--"));
    v.push(owned("bash"));
    v.push(owned("-lc"));
    v.push(owned(script));
    v
}

/// How `{:?}` prints an `Option<i32>` exit code.
pub open spec fn debug_code(code: Option<i32>) -> Seq<char> {
    match code {
        Some(c) => "Some("@ + signed_decimal_chars(c as int) + ")"@,
        None => "None"@,
    }
}

/// The exit code as `{:?}` prints it: `Some(<n>)` or `None`.
pub fn format_code(code: Option<i32>) -> (res: String)
    ensures
        res@ == debug_code(code),
{
    match code {
        Some(c) => {
            let digits = format_i64(c as i64);
            let res = concat(&["Some(", digits.as_str(), ")"]);
            proof {
                reveal_with_fuel(concat_spec, 4);
            }
            res
        },
        None => owned("None"),
    }
}

/// The output of a finished WSL command.
pub struct WslOutput {
    pub stdout: String,
    pub stderr: String,
    pub code: Option<i32>,
}

/// What a command run in a distribution gives back: on success its standard output
/// (decoded leniently, trimmed); otherwise an error with the distribution, the exit
/// code and the trimmed standard error.
pub open spec fn command_outcome_spec(
    distro: Seq<char>,
    success: bool,
    code: Option<i32>,
    stdout: Seq<u8>,
    stderr: Seq<u8>,
) -> Result<Seq<char>, Seq<char>> {
    if success {
        Ok(trim_of(utf8_lossy(stdout), CharClass::Whitespace))
    } else {
        Err(
            "WSL 命令失败（distro="@ + distro + ", 退出码 "@ + debug_code(code) + "）: "@ + trim_of(
                utf8_lossy(stderr),
                CharClass::Whitespace,
            ),
        )
    }
}

/// Law: a command that succeeded gives back the whole of its standard output,
/// decoded and trimmed of white space at both ends only (every line of it is kept,
/// the last one too, which the probe reads); a failed one gives an error that ends
/// with its whole trimmed standard error.
pub proof fn law_command_outcome_keeps_whole_output(
    distro: Seq<char>,
    code: Option<i32>,
    stdout: Seq<u8>,
    stderr: Seq<u8>,
)
    ensures
        command_outcome_spec(distro, true, code, stdout, stderr) == Ok::<Seq<char>, Seq<char>>(
            trim_of(utf8_lossy(stdout), CharClass::Whitespace),
        ),
        command_outcome_spec(distro, false, code, stdout, stderr) matches Err(e) && {
            let tail = trim_of(utf8_lossy(stderr), CharClass::Whitespace);
            &&& e.len() >= tail.len()
            &&& e.subrange(e.len() - tail.len(), e.len() as int) == tail
        },
{
    let tail = trim_of(utf8_lossy(stderr), CharClass::Whitespace);
    if let Err(e) = command_outcome_spec(distro, false, code, stdout, stderr) {
        assert(e.subrange(e.len() - tail.len(), e.len() as int) =~= tail);
    }
}

/// The outcome of a command run with [`wsl_args`] and [`wrap_command`].
pub fn command_outcome(distro: &str, success: bool, code: Option<i32>, stdout: &[u8], stderr: &[u8]) -> (res: Result<String, String>)
    ensures
        match command_outcome_spec(distro@, success, code, stdout@, stderr@) {
            Ok(o) => res matches Ok(r) && r@ == o,
            Err(e) => res matches Err(r) && r@ == e,
        },
        success ==> (res matches Ok(r) && r@ == trim_of(utf8_lossy(stdout@), CharClass::Whitespace)),
        !success ==> (res matches Err(r) && r@ == "WSL 命令失败（distro="@ + distro@ + ", 退出码 "@
            + debug_code(code) + "）: "@ + trim_of(utf8_lossy(stderr@), CharClass::Whitespace)),
{
    if success {
        let text = decode_lossy(stdout);
        let c = chars_of(text.as_str());
        let t = trim_chars(c.as_slice(), CharClass::Whitespace);
        Ok(string_from_chars(t.as_slice()))
    } else {
        let text = decode_lossy(stderr);
        let c = chars_of(text.as_str());
        let t = trim_chars(c.as_slice(), CharClass::Whitespace);
        let err = string_from_chars(t.as_slice());
        let code_text = format_code(code);
        let res = concat(&["WSL 命令失败（distro=", distro, ", 退出码 ", code_text.as_str(), "）: ", err.as_str()]);
        proof {
            reveal_with_fuel(concat_spec, 7);
        }
        Err(res)
    }
}

/// A code unit that is a surrogate (0xD800 to 0xDFFF).
pub open spec fn is_surrogate(u: u16) -> bool {
    0xD800 <= u <= 0xDFFF
}

/// A leading (high) surrogate, 0xD800 to 0xDBFF.
pub open spec fn is_high_surrogate(u: u16) -> bool {
    0xD800 <= u <= 0xDBFF
}

/// A trailing (low) surrogate, 0xDC00 to 0xDFFF.
pub open spec fn is_low_surrogate(u: u16) -> bool {
    0xDC00 <= u <= 0xDFFF
}

/// The character of a code unit that is no surrogate.
pub open spec fn unit_char(u: u16) -> char {
    (u as u32) as char
}

/// The character of a surrogate pair: 0x10000 plus ten bits from each unit.
pub open spec fn pair_char(hi: u16, lo: u16) -> char {
    ((0x10000 + (hi - 0xD800) * 0x400 + (lo - 0xDC00)) as u32) as char
}

/// UTF-16 decoding, as `String::from_utf16` does it: a unit that is no surrogate is
/// one character, a high surrogate followed by a low one is one character, and any
/// other surrogate makes the input invalid (`None`).
pub open spec fn utf16_decode(units: Seq<u16>) -> Option<Seq<char>>
    decreases units.len(),
{
    if units.len() == 0 {
        Some(Seq::empty())
    } else if !is_surrogate(units[0]) {
        match utf16_decode(units.drop_first()) {
            Some(rest) => Some(seq![unit_char(units[0])] + rest),
            None => None,
        }
    } else if units.len() >= 2 && is_high_surrogate(units[0]) && is_low_surrogate(units[1]) {
        match utf16_decode(units.subrange(2, units.len() as int)) {
            Some(rest) => Some(seq![pair_char(units[0], units[1])] + rest),
            None => None,
        }
    } else {
        None
    }
}

/// Whether no code unit is a surrogate (0xD800 to 0xDFFF).
pub open spec fn no_surrogates(units: Seq<u16>) -> bool {
    forall|i: int| 0 <= i < units.len() ==> !is_surrogate(#[trigger] units[i])
}

/// Without surrogates, each code unit is one character.
proof fn lemma_decode_without_surrogates(units: Seq<u16>)
    requires
        no_surrogates(units),
    ensures
        utf16_decode(units) == Some(units.map_values(|u: u16| unit_char(u))),
    decreases units.len(),
{
    if units.len() > 0 {
        assert(!is_surrogate(units[0]));
        lemma_decode_without_surrogates(units.drop_first());
        assert(seq![unit_char(units[0])] + units.drop_first().map_values(|u: u16| unit_char(u))
            =~= units.map_values(|u: u16| unit_char(u)));
    } else {
        assert(units.map_values(|u: u16| unit_char(u)) =~= Seq::<char>::empty());
    }
}

/// Calls `String::from_utf16` (std), which decodes UTF-16 and fails on invalid
/// input (an unpaired surrogate); the contract states that decoding.
#[verifier::external_body]
fn decode_utf16(units: &[u16]) -> (res: Option<String>)
    ensures
        opt_view(res) == utf16_decode(units@),
{
    String::from_utf16(units).ok()
}

/// The little-endian 16-bit code units of `b` (of even length).
pub open spec fn le_units(b: Seq<u8>) -> Seq<u16> {
    Seq::new((b.len() / 2) as nat, |i: int| (b[2 * i] as u16 + (b[2 * i + 1] as u16) * 256) as u16)
}

/// The bytes after a leading UTF-16LE byte order mark (`FF FE`), if there is one.
pub open spec fn without_bom(bytes: Seq<u8>) -> Seq<u8> {
    if bytes.len() >= 2 && bytes[0] == 0xFFu8 && bytes[1] == 0xFEu8 {
        bytes.subrange(2, bytes.len() as int)
    } else {
        bytes
    }
}

/// What `wsl.exe` printed, as text: UTF-16LE (after an optional byte order mark)
/// when it decodes, else the bytes read leniently as UTF-8.
pub open spec fn decode_wsl_output_spec(bytes: Seq<u8>) -> Seq<char> {
    let body = without_bom(bytes);
    if body.len() > 0 && body.len() % 2 == 0 && utf16_decode(le_units(body)) is Some {
        utf16_decode(le_units(body))->0
    } else {
        utf8_lossy(bytes)
    }
}

/// Decodes the output of `wsl.exe` (see [`decode_wsl_output_spec`]). In particular,
/// UTF-16LE text without surrogates (the distribution names), with or without a
/// byte order mark, comes back character for character.
pub fn decode_wsl_output(bytes: &[u8]) -> (res: String)
    ensures
        res@ == decode_wsl_output_spec(bytes@),
        ({
            let body = without_bom(bytes@);
            body.len() > 0 && body.len() % 2 == 0 && no_surrogates(le_units(body))
                ==> res@ == le_units(body).map_values(|u: u16| unit_char(u))
        }),
{
    let n = bytes.len();
    let start: usize = if n >= 2 && bytes[0] == 0xFF && bytes[1] == 0xFE { 2 } else { 0 };
    let body = vstd::slice::slice_subrange(bytes, start, n);
    assert(start == 0 ==> bytes@.subrange(0, n as int) =~= bytes@);
    let m = body.len();
    if m > 0 && m % 2 == 0 {
        let mut units: Vec<u16> = Vec::new();
        let mut i: usize = 0;
        while i < m / 2
            invariant
                m == body@.len(),
                m % 2 == 0,
                0 <= i <= m / 2,
                units@ == le_units(body@).take(i as int),
            decreases m / 2 - i,
        {
            let u: u16 = (body[2 * i] as u16) + (body[2 * i + 1] as u16) * 256;
            units.push(u);
            i += 1;
            assert(units@ =~= le_units(body@).take(i as int));
        }
        assert(units@ =~= le_units(body@));
        proof {
            if no_surrogates(units@) {
                lemma_decode_without_surrogates(units@);
            }
        }
        match decode_utf16(units.as_slice()) {
            Some(s) => return s,
            None => {},
        }
    }
    decode_lossy(bytes)
}

/// The UTF-16 code units of a character: itself below 0x10000, else a surrogate
/// pair carrying ten bits each of its offset from 0x10000.
pub open spec fn char_units(c: char) -> Seq<u16> {
    let v = c as u32;
    if v < 0x10000 {
        seq![v as u16]
    } else {
        seq![(0xD800 + (v - 0x10000) / 0x400) as u16, (0xDC00 + (v - 0x10000) % 0x400) as u16]
    }
}

/// The UTF-16 code units of a text, as `str::encode_utf16` gives them.
pub open spec fn utf16_units(s: Seq<char>) -> Seq<u16>
    decreases s.len(),
{
    if s.len() == 0 {
        Seq::empty()
    } else {
        char_units(s[0]) + utf16_units(s.drop_first())
    }
}

/// Code units written little-endian, two bytes each.
pub open spec fn le_bytes(units: Seq<u16>) -> Seq<u8> {
    Seq::new(
        2 * units.len(),
        |i: int|
            if i % 2 == 0 {
                (units[i / 2] % 256) as u8
            } else {
                (units[i / 2] / 256) as u8
            },
    )
}

proof fn lemma_decode_char_units(c: char, rest: Seq<u16>)
    ensures
        utf16_decode(char_units(c) + rest) == match utf16_decode(rest) {
            Some(r) => Some(seq![c] + r),
            None => None,
        },
{
    let v = c as u32;
    let units = char_units(c) + rest;
    if v < 0x10000 {
        assert(units[0] == v as u16);
        assert(units.drop_first() =~= rest);
        assert(unit_char(units[0]) == c);
    } else {
        let q = (v - 0x10000) / 0x400;
        let r = (v - 0x10000) % 0x400;
        assert(v <= 0x10FFFF);
        assert(0 <= q <= 0x3FF);
        assert(v == 0x10000 + q * 0x400 + r);
        assert(units[0] == (0xD800 + q) as u16);
        assert(units[1] == (0xDC00 + r) as u16);
        assert(units.subrange(2, units.len() as int) =~= rest);
        assert(pair_char(units[0], units[1]) == c);
    }
}

proof fn lemma_decode_utf16_units(s: Seq<char>)
    ensures
        utf16_decode(utf16_units(s)) == Some(s),
    decreases s.len(),
{
    if s.len() > 0 {
        lemma_decode_utf16_units(s.drop_first());
        lemma_decode_char_units(s[0], utf16_units(s.drop_first()));
        assert(seq![s[0]] + s.drop_first() =~= s);
    }
}

proof fn lemma_le_units_of_bytes(units: Seq<u16>)
    ensures
        le_units(le_bytes(units)) =~= units,
{
    let b = le_bytes(units);
    assert forall|i: int| 0 <= i < units.len() implies #[trigger] le_units(b)[i] == units[i] by {
        assert((2 * i) / 2 == i && (2 * i) % 2 == 0);
        assert((2 * i + 1) / 2 == i && (2 * i + 1) % 2 == 1);
        let u = units[i];
        assert(u == (u % 256) + (u / 256) * 256);
    }
}

/// Law: text that `wsl.exe` writes as UTF-16LE, with or without a byte order mark,
/// decodes back to itself (the text must not begin with U+FEFF itself, which would
/// read as the mark).
pub proof fn law_utf16le_output_round_trip(s: Seq<char>)
    requires
        s.len() > 0,
        s[0] != '\u{FEFF}',
    ensures
        decode_wsl_output_spec(le_bytes(utf16_units(s))) == s,
        decode_wsl_output_spec(seq![0xFFu8, 0xFEu8] + le_bytes(utf16_units(s))) == s,
{
    let units = utf16_units(s);
    let b = le_bytes(units);
    lemma_decode_utf16_units(s);
    lemma_le_units_of_bytes(units);
    assert(units =~= char_units(s[0]) + utf16_units(s.drop_first()));
    assert(units.len() > 0);
    let u0 = units[0];
    assert(u0 != 0xFEFFu16) by {
        let v = s[0] as u32;
        if v < 0x10000 {
            assert(u0 == v as u16);
        }
    }
    assert(b[0] == (u0 % 256) as u8 && b[1] == (u0 / 256) as u8);
    assert(u0 == (u0 % 256) + (u0 / 256) * 256);
    assert(without_bom(b) == b);
    let with_mark = seq![0xFFu8, 0xFEu8] + b;
    assert(without_bom(with_mark) =~= b);
}

/// The distribution names in `wsl.exe -l -q` output: each line trimmed of white
/// space and then of NUL characters, empty lines left out.
pub open spec fn distro_names(lines: Seq<Seq<char>>) -> Seq<Seq<char>>
    decreases lines.len(),
{
    if lines.len() == 0 {
        Seq::empty()
    } else {
        let name = trim_of(trim_of(lines.last(), CharClass::Whitespace), CharClass::Nul);
        if name.len() == 0 {
            distro_names(lines.drop_last())
        } else {
            distro_names(lines.drop_last()).push(name)
        }
    }
}

/// The distributions that `wsl.exe -l -q` listed, or its error when it failed.
pub open spec fn list_distros_spec(success: bool, code: Option<i32>, stdout: Seq<u8>) -> Result<Seq<Seq<char>>, Seq<char>> {
    if !success {
        Err("wsl.exe -l -q 退出码非 0: "@ + debug_code(code))
    } else {
        Ok(distro_names(lines_of(decode_wsl_output_spec(stdout))))
    }
}

/// The installed distributions from the result of `wsl.exe -l -q`.
pub fn list_distros(success: bool, code: Option<i32>, stdout: &[u8]) -> (res: Result<Vec<String>, String>)
    ensures
        match list_distros_spec(success, code, stdout@) {
            Ok(names) => res matches Ok(v) && v@.map_values(|s: String| s@) == names,
            Err(e) => res matches Err(r) && r@ == e,
        },
{
    if !success {
        let c = format_code(code);
        return Err(concat2("wsl.exe -l -q 退出码非 0: ", c.as_str()));
    }
    let text = decode_wsl_output(stdout);
    let chars = chars_of(text.as_str());
    let lines = split_lines(chars.as_slice());
    let ghost all = lines_of(text@);
    let mut out: Vec<String> = Vec::new();
    let mut i: usize = 0;
    while i < lines.len()
        invariant
            all == lines_of(text@),
            lines@.len() == all.len(),
            forall|j: int| 0 <= j < lines@.len() ==> #[trigger] lines@[j]@ == all[j],
            0 <= i <= lines@.len(),
            out@.map_values(|s: String| s@) == distro_names(all.take(i as int)),
        decreases lines@.len() - i,
    {
        let t = trim_chars(lines[i].as_slice(), CharClass::Whitespace);
        let name = trim_chars(t.as_slice(), CharClass::Nul);
        assert(all.take(i + 1).drop_last() =~= all.take(i as int));
        assert(all.take(i + 1).last() == all[i as int]);
        let ghost before = out@;
        if name.len() > 0 {
            let s = string_from_chars(name.as_slice());
            out.push(s);
            assert(out@.map_values(|s: String| s@) =~= before.map_values(|s: String| s@).push(
                name@,
            ));
        }
        i += 1;
    }
    assert(all.take(lines@.len() as int) =~= all);
    Ok(out)
}

/// `tok` is one of the white-space separated words of `s` (`split_whitespace`).
pub open spec fn has_word(s: Seq<char>, tok: Seq<char>) -> bool {
    exists|i: int|
        0 <= i && i + tok.len() <= s.len() && #[trigger] s.subrange(i, i + tok.len()) == tok && (
        i == 0 || is_unicode_whitespace(s[i - 1])) && (i + tok.len() == s.len()
            || is_unicode_whitespace(s[i + tok.len()]))
}

/// Whether `tok` (non-empty, without white space) is one of the words of `s`.
pub fn contains_word(s: &[char], tok: &[char]) -> (res: bool)
    requires
        tok@.len() > 0,
        forall|j: int| 0 <= j < tok@.len() ==> !is_unicode_whitespace(#[trigger] tok@[j]),
    ensures
        res == has_word(s@, tok@),
{
    let n = s.len();
    let m = tok.len();
    let mut i: usize = 0;
    while i < n
        invariant
            n == s@.len(),
            m == tok@.len(),
            m > 0,
            forall|j: int| 0 <= j < m ==> !is_unicode_whitespace(#[trigger] tok@[j]),
            0 <= i <= n,
            i == 0 || i == n || is_unicode_whitespace(s@[i - 1]) || is_unicode_whitespace(s@[i as int]),
            forall|k: int|
                0 <= k < i && k + m <= n && (k == 0 || is_unicode_whitespace(s@[k - 1])) && (k + m
                    == n || is_unicode_whitespace(s@[k + m])) ==> #[trigger] s@.subrange(k, k + m) != tok@,
        decreases n - i,
    {
        if CharClass::Whitespace.test(s[i]) {
            proof {
                if i + m <= n {
                    assert(s@.subrange(i as int, i + m)[0] == s@[i as int]);
                    assert(!is_unicode_whitespace(tok@[0]));
                }
            }
            i += 1;
        } else {
            let mut j = i;
            while j < n && !CharClass::Whitespace.test(s[j])
                invariant
                    n == s@.len(),
                    i <= j <= n,
                    forall|k: int| i <= k < j ==> !is_unicode_whitespace(#[trigger] s@[k]),
                decreases n - j,
            {
                j += 1;
            }
            let word = slice_range(s, i, j);
            if chars_eq(word.as_slice(), tok) {
                assert(s@.subrange(i as int, i + m) =~= tok@);
                return true;
            }
            proof {
                assert forall|k: int|
                    0 <= k < j && k + m <= n && (k == 0 || is_unicode_whitespace(s@[k - 1])) && (k
                        + m == n || is_unicode_whitespace(s@[k + m])) implies #[trigger] s@.subrange(
                    k,
                    k + m,
                ) != tok@ by {
                    if k >= i && s@.subrange(k, k + m) == tok@ {
                        if k > i {
                            assert(!is_unicode_whitespace(s@[k - 1]));
                        }
                        if k + m < j {
                            assert(!is_unicode_whitespace(s@[k + m]));
                        } else if k + m > j {
                            assert(s@[j as int] == tok@[j - k]);
                        }
                        assert(word@ =~= tok@);
                    }
                }
            }
            i = j;
        }
    }
    false
}

/// One combined probe of a distribution.
#[derive(Debug)]
pub struct WslProbe {
    /// Whether the kimi CLI is installed.
    pub kimi_installed: bool,
    /// Whether an interactive kimi session (TUI) runs: a kimi process that is not
    /// the web server.
    pub tui_running: bool,
}

/// The script of the combined probe: prints `installed=yes|no tui=yes|no`.
pub const PROBE_SCRIPT: &'static str = "i=no; which kimi >/dev/null 2>&1 && i=yes; \\\nw=\" $(grep -o '\"pid\":[0-9]*' ~/.kimi-code/server/instances/*.json 2>/dev/null | cut -d: -f2 | tr '\\n' ' ')\"; \\\nt=no; for p in $(pgrep -x kimi); do case \" $w \" in *\" $p \"*) ;; *) t=yes; break;; esac; done; \\\necho \"installed=$i tui=$t\"";

/// The script that ends every kimi process of a distribution.
pub const KILL_ALL_SCRIPT: &'static str = "pkill -x kimi || true";

/// The last line of a text, or the empty text.
pub open spec fn last_line(s: Seq<char>) -> Seq<char> {
    if lines_of(s).len() == 0 {
        Seq::empty()
    } else {
        lines_of(s).last()
    }
}

/// The probe's result from the script's output: only its last line counts (a
/// login profile may print before it); `installed=yes` and `tui=yes` are words of it.
pub fn probe(output: &str) -> (res: WslProbe)
    ensures
        res.kimi_installed == has_word(last_line(output@), "installed=yes"@),
        res.tui_running == has_word(last_line(output@), "tui=yes"@),
{
    let chars = chars_of(output);
    let lines = split_lines(chars.as_slice());
    let last: Vec<char> = if lines.len() == 0 { Vec::new() } else { slice_range(lines[lines.len() - 1].as_slice(), 0, lines[lines.len() - 1].len()) };
    proof {
        if lines@.len() > 0 {
            assert(lines@[lines@.len() - 1]@.subrange(0, lines@[lines@.len() - 1]@.len() as int) =~= lines@[lines@.len() - 1]@);
        } else {
            assert(last@ =~= Seq::<char>::empty());
        }
    }
    let installed = chars_of("installed=yes");
    let tui = chars_of("tui=yes");
    proof {
        reveal_strlit("installed=yes");
        reveal_strlit("tui=yes");
    }
    WslProbe {
        kimi_installed: contains_word(last.as_slice(), installed.as_slice()),
        tui_running: contains_word(last.as_slice(), tui.as_slice()),
    }
}

/// The outcome of ending every kimi process: the command's error, if any.
pub fn kill_all_kimi(outcome: Result<String, String>) -> (res: Result<(), String>)
    ensures
        match outcome {
            Ok(_) => res is Ok,
            Err(e) => res matches Err(r) && r@ == e@,
        },
{
    match outcome {
        Ok(_) => Ok(()),
        Err(e) => Err(e),
    }
}

/// The UNC paths of a directory in a distribution's home, given the home directory
/// that `$HOME` names there: through `\\wsl$` first, `\\wsl.localhost` second, with
/// the home's `/` written as `\`.
pub fn unc_home_candidates(distro: &str, home: &str, sub: &str) -> (res: Vec<String>)
    ensures
        res@.len() == 2,
        res@[0]@ == "\\\\wsl$\\"@ + distro@ + backslashed(home@) + "\\"@ + sub@,
        res@[1]@ == "\\\\wsl.localhost\\"@ + distro@ + backslashed(home@) + "\\"@ + sub@,
{
    let h = chars_of(home);
    let mut conv: Vec<char> = Vec::new();
    let mut i: usize = 0;
    while i < h.len()
        invariant
            0 <= i <= h@.len(),
            conv@ == backslashed(h@.take(i as int)),
        decreases h@.len() - i,
    {
        let c = h[i];
        conv.push(if c == '/' { '\\' } else { c });
        i += 1;
        assert(h@.take(i as int).drop_last() =~= h@.take(i - 1));
    }
    assert(h@.take(h@.len() as int) =~= h@);
    let hb = string_from_chars(conv.as_slice());
    let a = concat(&[r"\\wsl$\", distro, hb.as_str(), r"\", sub]);
    let b = concat(&[r"\\wsl.localhost\", distro, hb.as_str(), r"\", sub]);
    proof {
        reveal_with_fuel(concat_spec, 6);
    }
    let mut v: Vec<String> = Vec::new();
    v.push(a);
    v.push(b);
    v
}

/// A Linux path with every `/` written as `\`.
pub open spec fn backslashed(p: Seq<char>) -> Seq<char>
    decreases p.len(),
{
    if p.len() == 0 {
        Seq::empty()
    } else {
        backslashed(p.drop_last()).push(
            if p.last() == '/' {
                '\\'
            } else {
                p.last()
            },
        )
    }
}

} // verus!
