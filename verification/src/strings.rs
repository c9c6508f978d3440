//! Small string operations with exact contracts: comparison and concatenation.
use vstd::prelude::*;
use crate::text::{chars_eq, chars_of, string_from_chars};

verus! {

/// Whether two strings hold the same characters.
pub fn str_equals(a: &str, b: &str) -> (res: bool)
    ensures
        res == (a@ == b@),
{
    let x = chars_of(a);
    let y = chars_of(b);
    chars_eq(x.as_slice(), y.as_slice())
}

/// A new `String` with the characters of `s`.
pub fn owned(s: &str) -> (res: String)
    ensures
        res@ == s@,
{
    let c = chars_of(s);
    string_from_chars(c.as_slice())
}

/// The concatenation of the given pieces.
pub fn concat(parts: &[&str]) -> (res: String)
    ensures
        res@ == concat_spec(parts@.map_values(|p: &str| p@)),
{
    let mut out: Vec<char> = Vec::new();
    let mut i: usize = 0;
    let ghost views = parts@.map_values(|p: &str| p@);
    while i < parts.len()
        invariant
            0 <= i <= parts@.len(),
            views == parts@.map_values(|p: &str| p@),
            out@ == concat_spec(views.take(i as int)),
        decreases parts@.len() - i,
    {
        let c = chars_of(parts[i]);
        let ghost before = out@;
        let mut k: usize = 0;
        while k < c.len()
            invariant
                0 <= k <= c@.len(),
                out@ == before + c@.subrange(0, k as int),
            decreases c@.len() - k,
        {
            out.push(c[k]);
            k += 1;
            assert(out@ =~= before + c@.subrange(0, k as int));
        }
        assert(c@.subrange(0, c@.len() as int) =~= c@);
        assert(views.take(i + 1).drop_last() =~= views.take(i as int));
        i += 1;
    }
    assert(views.take(parts@.len() as int) =~= views);
    string_from_chars(out.as_slice())
}

/// The characters of the pieces, one after another.
pub open spec fn concat_spec(parts: Seq<Seq<char>>) -> Seq<char>
    decreases parts.len(),
{
    if parts.len() == 0 {
        Seq::empty()
    } else {
        concat_spec(parts.drop_last()) + parts.last()
    }
}

/// `a` followed by `b`.
pub fn concat2(a: &str, b: &str) -> (res: String)
    ensures
        res@ == a@ + b@,
{
    let x = chars_of(a);
    let y = chars_of(b);
    let mut out = x;
    let mut k: usize = 0;
    let ghost before = out@;
    while k < y.len()
        invariant
            0 <= k <= y@.len(),
            out@ == before + y@.subrange(0, k as int),
            before == a@,
        decreases y@.len() - k,
    {
        out.push(y[k]);
        k += 1;
        assert(out@ =~= before + y@.subrange(0, k as int));
    }
    assert(y@.subrange(0, y@.len() as int) =~= y@);
    string_from_chars(out.as_slice())
}

/// The error of one file in a round: its path, `": "`, and the error.
pub fn file_error(path: &str, error: &str) -> (res: String)
    ensures
        res@ == path@ + ": "@ + error@,
{
    let p = concat2(path, ": ");
    concat2(p.as_str(), error)
}

/// The last `Some` of a list.
pub open spec fn last_some(errors: Seq<Option<Seq<char>>>) -> Option<Seq<char>>
    decreases errors.len(),
{
    if errors.len() == 0 {
        None
    } else if errors.last() is Some {
        errors.last()
    } else {
        last_some(errors.drop_last())
    }
}

/// An optional string as an optional view.
pub open spec fn opt_view(o: Option<String>) -> Option<Seq<char>> {
    match o {
        Some(s) => Some(s@),
        None => None,
    }
}

/// The error that a round reports: that of the last file that failed.
pub fn last_error(errors: Vec<Option<String>>) -> (res: Option<String>)
    ensures
        opt_view(res) == last_some(errors@.map_values(|e: Option<String>| opt_view(e))),
{
    let ghost views = errors@.map_values(|e: Option<String>| opt_view(e));
    let mut result: Option<String> = None;
    let mut errs = errors;
    let ghost all = errs@;
    assert(views.take(errs@.len() as int) =~= views);
    assert(all.subrange(0, all.len() as int) =~= all);
    while errs.len() > 0
        invariant
            views == all.map_values(|e: Option<String>| opt_view(e)),
            errs@ == all.subrange(0, errs@.len() as int),
            errs@.len() <= all.len(),
            last_some(views) == if result is Some {
                opt_view(result)
            } else {
                last_some(views.take(errs@.len() as int))
            },
        decreases errs@.len(),
    {
        let ghost n = errs@.len();
        let e = errs.pop().unwrap();
        assert(views.take(n as int).drop_last() =~= views.take(n - 1));
        assert(views.take(n as int).last() == opt_view(e));
        if result.is_none() {
            if e.is_some() {
                result = e;
            }
        }
    }
    assert(views.take(0).len() == 0);
    result
}

/// The elements joined with `sep` between them.
pub open spec fn join_spec(parts: Seq<Seq<char>>, sep: Seq<char>) -> Seq<char>
    decreases parts.len(),
{
    if parts.len() == 0 {
        Seq::empty()
    } else if parts.len() == 1 {
        parts[0]
    } else {
        join_spec(parts.drop_last(), sep) + sep + parts.last()
    }
}

/// Joins strings with a separator.
pub fn join(parts: &Vec<String>, sep: &str) -> (res: String)
    ensures
        res@ == join_spec(parts@.map_values(|p: String| p@), sep@),
{
    let ghost views = parts@.map_values(|p: String| p@);
    let mut out = String::new();
    let mut i: usize = 0;
    while i < parts.len()
        invariant
            0 <= i <= parts@.len(),
            views == parts@.map_values(|p: String| p@),
            out@ == join_spec(views.take(i as int), sep@),
        decreases parts@.len() - i,
    {
        assert(views.take(i + 1).drop_last() =~= views.take(i as int));
        if i == 0 {
            out = owned(parts[i].as_str());
        } else {
            let with_sep = concat2(out.as_str(), sep);
            out = concat2(with_sep.as_str(), parts[i].as_str());
        }
        i += 1;
    }
    assert(views.take(parts@.len() as int) =~= views);
    out
}

} // verus!
