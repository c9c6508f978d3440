//! Incremental reading of an append-only JSONL file by byte offset: where to
//! resume, how much of what was read is whole lines, and where the next round starts.
use vstd::prelude::*;
use vstd::string::StringSliceAdditionalSpecFns;
use vstd::utf8::{decode_utf8, encode_utf8, valid_utf8};
use crate::numeric::{decimal_chars, law_decimal_round_trip, parse_u64_spec, parse_u64_str};

verus! {

/// The offset stored under a file's meta key, as `v.parse().ok()` reads it, or 0.
pub open spec fn stored_offset(stored: Option<Seq<char>>) -> u64 {
    match stored {
        Some(s) => match parse_u64_spec(encode_utf8(s)) {
            Some(v) => v,
            None => 0,
        },
        None => 0,
    }
}

/// Where to resume reading a file of `size` bytes: the stored offset, or 0 when
/// the file has become shorter than it (it was truncated or recreated).
pub open spec fn resume_offset_spec(stored: Option<Seq<char>>, size: u64) -> u64 {
    if stored_offset(stored) > size {
        0
    } else {
        stored_offset(stored)
    }
}

/// The offset from which to read the file, or `None` when nothing new has been
/// appended since the last round.
pub fn resume_offset(stored: Option<&str>, size: u64) -> (res: Option<u64>)
    ensures
        match res {
            Some(o) => o == resume_offset_spec(
                match stored {
                    Some(s) => Some(s@),
                    None => None,
                },
                size,
            ) && o < size,
            None => resume_offset_spec(
                match stored {
                    Some(s) => Some(s@),
                    None => None,
                },
                size,
            ) == size,
        },
{
    let mut offset: u64 = match stored {
        Some(s) => match parse_u64_str(s) {
            Some(v) => v,
            None => 0,
        },
        None => 0,
    };
    if offset > size {
        offset = 0;
    }
    if offset == size {
        None
    } else {
        Some(offset)
    }
}

/// The index of the last `'\n'` in `b`, if any.
pub open spec fn last_newline(b: Seq<u8>) -> Option<int>
    decreases b.len(),
{
    if b.len() == 0 {
        None
    } else if b.last() == 10u8 {
        Some(b.len() - 1)
    } else {
        last_newline(b.drop_last())
    }
}

proof fn lemma_last_newline(b: Seq<u8>)
    ensures
        match last_newline(b) {
            Some(i) => 0 <= i < b.len() && b[i] == 10u8 && forall|j: int|
                i < j < b.len() ==> b[j] != 10u8,
            None => forall|j: int| 0 <= j < b.len() ==> b[j] != 10u8,
        },
    decreases b.len(),
{
    if b.len() > 0 && b.last() != 10u8 {
        lemma_last_newline(b.drop_last());
        assert forall|j: int| 0 <= j < b.len() - 1 implies b[j] == b.drop_last()[j] by {}
    }
}

/// How many bytes of `b` are whole lines: up to and including its last `'\n'`.
/// A partial line after it is being written and is left for the next round.
pub fn complete_len(b: &[u8]) -> (res: Option<usize>)
    ensures
        match last_newline(b@) {
            Some(i) => res matches Some(k) && k == i + 1,
            None => res is None,
        },
        res matches Some(k) ==> 1 <= k <= b@.len() && b@[k - 1] == 10u8 && forall|j: int|
            k <= j < b@.len() ==> b@[j] != 10u8,
{
    proof {
        lemma_last_newline(b@);
    }
    let mut i = b.len();
    assert(b@.subrange(0, i as int) =~= b@);
    while i > 0
        invariant
            i <= b@.len(),
            forall|j: int| i <= j < b@.len() ==> b@[j] != 10u8,
            last_newline(b@) == last_newline(b@.subrange(0, i as int)),
        decreases i,
    {
        if b[i - 1] == 10 {
            assert(b@.subrange(0, i as int).last() == 10u8);
            return Some(i);
        }
        assert(b@.subrange(0, i as int).drop_last() =~= b@.subrange(0, i - 1));
        i -= 1;
    }
    None
}

/// The bytes decoded as UTF-8, each invalid sequence replaced by U+FFFD, as
/// `String::from_utf8_lossy` does.
pub uninterp spec fn utf8_lossy(bytes: Seq<u8>) -> Seq<char>;

/// Calls `String::from_utf8_lossy` (std). Its documentation says that bytes that
/// are valid UTF-8 come back as the same string; the contract states that and
/// names the result for other bytes.
#[verifier::external_body]
pub(crate) fn decode_lossy(bytes: &[u8]) -> (res: String)
    ensures
        res@ == utf8_lossy(bytes@),
        valid_utf8(bytes@) ==> res@ == decode_utf8(bytes@),
{
    String::from_utf8_lossy(bytes).into_owned()
}

/// The offset after consuming `consumed` more bytes from `offset`.
pub fn advance_offset(offset: u64, consumed: usize) -> (res: u64)
    requires
        offset + consumed <= u64::MAX,
    ensures
        res == offset + consumed,
{
    offset + consumed as u64
}

/// Law: an offset that a round stores (as its decimal text) is where the next round
/// resumes, as long as the file is at least that long; and a round that consumed
/// the whole file leaves nothing for the next one.
pub proof fn law_stored_offset_resumes(n: u64, size: u64)
    requires
        n <= size,
    ensures
        resume_offset_spec(Some(decimal_chars(n as nat)), size) == n,
        n == size ==> resume_offset_spec(Some(decimal_chars(n as nat)), size) == size,
{
    law_decimal_round_trip(n);
}

proof fn lemma_no_newline(b: Seq<u8>)
    requires
        forall|j: int| 0 <= j < b.len() ==> b[j] != 10u8,
    ensures
        last_newline(b) is None,
    decreases b.len(),
{
    if b.len() > 0 {
        lemma_no_newline(b.drop_last());
    }
}

/// Law: importing an unchanged file a second time adds nothing. A round that read
/// the file from `offset` and found a whole line stores the offset just past its
/// last `'\n'`; the next round resumes exactly there, and what it reads from there
/// holds no whole line: either nothing is left, so it reads nothing, or only a
/// partial line, for which the importers (`ledger::sync_distro`, `codex::sync_file`,
/// `win_kimi::sync_file`) return `None`. (A round that found no whole line stores
/// nothing, and the next one reads the same partial line again.)
pub proof fn law_unchanged_file_adds_nothing(file: Seq<u8>, offset: u64)
    requires
        offset <= file.len() <= u64::MAX,
    ensures
        last_newline(file.subrange(offset as int, file.len() as int)) matches Some(i) ==> {
            let next = (offset + i + 1) as u64;
            &&& offset < next <= file.len()
            &&& resume_offset_spec(Some(decimal_chars(next as nat)), file.len() as u64) == next
            &&& last_newline(file.subrange(next as int, file.len() as int)) is None
        },
{
    let b = file.subrange(offset as int, file.len() as int);
    lemma_last_newline(b);
    if let Some(i) = last_newline(b) {
        let next = (offset + i + 1) as u64;
        let rest = file.subrange(next as int, file.len() as int);
        assert forall|j: int| 0 <= j < rest.len() implies rest[j] != 10u8 by {
            assert(rest[j] == b[i + 1 + j]);
        }
        lemma_no_newline(rest);
        law_stored_offset_resumes(next, file.len() as u64);
    }
}

/// Law: when the file has become shorter than the stored offset, reading starts
/// over from its beginning.
pub proof fn law_truncated_file_restarts(stored: Seq<char>, size: u64)
    requires
        stored_offset(Some(stored)) > size,
    ensures
        resume_offset_spec(Some(stored), size) == 0,
{
}

} // verus!
