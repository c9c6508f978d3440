//! The quick line filter of the session parsers: does a JSONL line carry a given
//! `"type"` value, in compact (`"type":"x"`) or spaced (`"type": "x"`) form.
use vstd::prelude::*;
use vstd::string::StringSliceAdditionalSpecFns;
use vstd::utf8::encode_utf8;

verus! {

/// `needle` occurs in `hay` as a contiguous run of bytes.
pub open spec fn bytes_contain(hay: Seq<u8>, needle: Seq<u8>) -> bool {
    exists|i: int|
        0 <= i && i + needle.len() <= hay.len() && #[trigger] hay.subrange(i, i + needle.len())
            == needle
}

/// The bytes of `"type":"<t>"` (or `"type": "<t>"` when `spaced`).
pub open spec fn type_pattern(t: Seq<u8>, spaced: bool) -> Seq<u8> {
    seq![34u8, 116u8, 121u8, 112u8, 101u8, 34u8, 58u8] + (if spaced {
        seq![32u8]
    } else {
        Seq::<u8>::empty()
    }) + seq![34u8] + t + seq![34u8]
}

/// The line holds `"type":"<t>"` or `"type": "<t>"` somewhere.
pub open spec fn has_type_spec(line: Seq<char>, t: Seq<char>) -> bool {
    bytes_contain(encode_utf8(line), type_pattern(encode_utf8(t), false)) || bytes_contain(
        encode_utf8(line),
        type_pattern(encode_utf8(t), true),
    )
}

/// Whether `needle` occurs in `hay`.
pub fn contains_bytes(hay: &[u8], needle: &[u8]) -> (res: bool)
    ensures
        res == bytes_contain(hay@, needle@),
{
    let h = hay.len();
    let n = needle.len();
    if n > h {
        return false;
    }
    let mut i: usize = 0;
    while i <= h - n
        invariant
            h == hay@.len(),
            n == needle@.len(),
            n <= h,
            0 <= i <= h - n + 1,
            forall|j: int| 0 <= j < i ==> #[trigger] hay@.subrange(j, j + n) != needle@,
        decreases h - n + 1 - i,
    {
        let mut k: usize = 0;
        let mut same = true;
        while k < n
            invariant
                h == hay@.len(),
                n == needle@.len(),
                i + n <= h,
                0 <= k <= n,
                same == forall|m: int| 0 <= m < k ==> hay@[i + m] == needle@[m],
            decreases n - k,
        {
            if hay[i + k] != needle[k] {
                same = false;
            }
            k += 1;
        }
        if same {
            assert(hay@.subrange(i as int, i + n) =~= needle@);
            return true;
        }
        assert(hay@.subrange(i as int, i + n) != needle@) by {
            let m = choose|m: int| 0 <= m < n && hay@[i + m] != needle@[m];
            assert(hay@.subrange(i as int, i + n)[m] == hay@[i + m]);
        }
        i += 1;
    }
    assert forall|j: int| 0 <= j && j + n <= h implies #[trigger] hay@.subrange(j, j + n) != needle@ by {
        assert(j < i);
    }
    false
}

fn type_pattern_bytes(t: &[u8], spaced: bool) -> (res: Vec<u8>)
    ensures
        res@ == type_pattern(t@, spaced),
{
    let mut v: Vec<u8> = Vec::new();
    v.push(34);
    v.push(116);
    v.push(121);
    v.push(112);
    v.push(101);
    v.push(34);
    v.push(58);
    if spaced {
        v.push(32);
    }
    v.push(34);
    let ghost head = v@;
    let mut i: usize = 0;
    while i < t.len()
        invariant
            0 <= i <= t@.len(),
            v@ == head + t@.subrange(0, i as int),
        decreases t@.len() - i,
    {
        v.push(t[i]);
        i += 1;
        assert(v@ =~= head + t@.subrange(0, i as int));
    }
    v.push(34);
    assert(v@ =~= type_pattern(t@, spaced));
    v
}

/// Whether the line carries the `"type"` value `t`, compact or spaced. Only a
/// quick filter: the parsers check the fields again after parsing the JSON.
pub fn has_type(line: &str, t: &str) -> (res: bool)
    ensures
        res == has_type_spec(line@, t@),
{
    let hay = line.as_bytes();
    let tb = t.as_bytes();
    let compact = type_pattern_bytes(tb, false);
    if contains_bytes(hay, compact.as_slice()) {
        return true;
    }
    let spaced = type_pattern_bytes(tb, true);
    contains_bytes(hay, spaced.as_slice())
}

} // verus!
