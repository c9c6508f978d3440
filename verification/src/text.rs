//! Character-level text helpers: whitespace trimming, line splitting and the
//! conversions between `str`, `String` and `Vec<char>` that the parsers use.
use vstd::prelude::*;

verus! {

/// The `White_Space` property that `char::is_whitespace` (and so `str::trim`) uses.
pub open spec fn is_unicode_whitespace(c: char) -> bool {
    ||| ('\u{9}' <= c && c <= '\u{d}')
    ||| c == ' '
    ||| c == '\u{85}'
    ||| c == '\u{a0}'
    ||| c == '\u{1680}'
    ||| ('\u{2000}' <= c && c <= '\u{200a}')
    ||| c == '\u{2028}'
    ||| c == '\u{2029}'
    ||| c == '\u{202f}'
    ||| c == '\u{205f}'
    ||| c == '\u{3000}'
}

/// The classes of characters that the parsers strip from both ends of a text.
#[derive(Clone, Copy, PartialEq, Eq, Structural)]
pub enum CharClass {
    /// Unicode white space (`str::trim`).
    Whitespace,
    /// The NUL character (`trim_matches('\0')`).
    Nul,
    /// The double quote (`trim_matches('"')`).
    Quote,
}

impl CharClass {
    /// Whether `c` belongs to the class.
    pub open spec fn holds(self, c: char) -> bool {
        match self {
            CharClass::Whitespace => is_unicode_whitespace(c),
            CharClass::Nul => c == '\0',
            CharClass::Quote => c == '"',
        }
    }

    /// Whether `c` belongs to the class.
    pub fn test(self, c: char) -> (res: bool)
        ensures
            res == self.holds(c),
    {
        match self {
            CharClass::Whitespace => {
                ('\u{9}' <= c && c <= '\u{d}') || c == ' ' || c == '\u{85}' || c == '\u{a0}'
                    || c == '\u{1680}' || ('\u{2000}' <= c && c <= '\u{200a}') || c == '\u{2028}'
                    || c == '\u{2029}' || c == '\u{202f}' || c == '\u{205f}' || c == '\u{3000}'
            },
            CharClass::Nul => c == '\0',
            CharClass::Quote => c == '"',
        }
    }
}

/// `s` with every leading character of class `k` removed.
pub open spec fn trim_start_of(s: Seq<char>, k: CharClass) -> Seq<char>
    decreases s.len(),
{
    if s.len() > 0 && k.holds(s[0]) {
        trim_start_of(s.drop_first(), k)
    } else {
        s
    }
}

/// `s` with every trailing character of class `k` removed.
pub open spec fn trim_end_of(s: Seq<char>, k: CharClass) -> Seq<char>
    decreases s.len(),
{
    if s.len() > 0 && k.holds(s.last()) {
        trim_end_of(s.drop_last(), k)
    } else {
        s
    }
}

/// `s` with the characters of class `k` removed from both ends.
pub open spec fn trim_of(s: Seq<char>, k: CharClass) -> Seq<char> {
    trim_end_of(trim_start_of(s, k), k)
}

proof fn lemma_trim_start_skip(s: Seq<char>, k: CharClass, i: int)
    requires
        0 <= i <= s.len(),
        forall|j: int| 0 <= j < i ==> k.holds(#[trigger] s[j]),
    ensures
        trim_start_of(s, k) == trim_start_of(s.subrange(i, s.len() as int), k),
    decreases i,
{
    if i > 0 {
        lemma_trim_start_skip(s.drop_first(), k, i - 1);
        assert(s.drop_first().subrange(i - 1, s.drop_first().len() as int) =~= s.subrange(
            i,
            s.len() as int,
        ));
    } else {
        assert(s.subrange(0, s.len() as int) =~= s);
    }
}

proof fn lemma_trim_end_skip(s: Seq<char>, k: CharClass, j: int)
    requires
        0 <= j <= s.len(),
        forall|m: int| j <= m < s.len() ==> k.holds(#[trigger] s[m]),
    ensures
        trim_end_of(s, k) == trim_end_of(s.subrange(0, j), k),
    decreases s.len() - j,
{
    if j < s.len() {
        lemma_trim_end_skip(s.drop_last(), k, j);
        assert(s.drop_last().subrange(0, j) =~= s.subrange(0, j));
    } else {
        assert(s.subrange(0, j) =~= s);
    }
}

/// Trims the characters of class `k` from both ends of `s`.
pub fn trim_chars(s: &[char], k: CharClass) -> (res: Vec<char>)
    ensures
        res@ == trim_of(s@, k),
{
    let n = s.len();
    let mut i: usize = 0;
    while i < n && k.test(s[i])
        invariant
            n == s@.len(),
            0 <= i <= n,
            forall|j: int| 0 <= j < i ==> k.holds(#[trigger] s@[j]),
        decreases n - i,
    {
        i += 1;
    }
    proof {
        lemma_trim_start_skip(s@, k, i as int);
        if i < n {
            assert(!k.holds(s@.subrange(i as int, n as int)[0]));
        }
    }
    let ghost t = s@.subrange(i as int, n as int);
    assert(trim_start_of(s@, k) == t);
    let mut j: usize = n;
    while j > i && k.test(s[j - 1])
        invariant
            n == s@.len(),
            i <= j <= n,
            t == s@.subrange(i as int, n as int),
            forall|m: int| j <= m < n ==> k.holds(#[trigger] s@[m]),
        decreases j,
    {
        j -= 1;
    }
    proof {
        assert forall|m: int| (j - i) <= m < t.len() implies k.holds(#[trigger] t[m]) by {
            assert(t[m] == s@[m + i]);
        }
        lemma_trim_end_skip(t, k, j - i);
        let u = t.subrange(0, j - i);
        assert(u =~= s@.subrange(i as int, j as int));
        if j > i {
            assert(u.last() == s@[j - 1]);
        }
    }
    slice_range(s, i, j)
}

/// Copies the characters `s[lo..hi]` into a new vector.
pub fn slice_range(s: &[char], lo: usize, hi: usize) -> (res: Vec<char>)
    requires
        lo <= hi <= s@.len(),
    ensures
        res@ == s@.subrange(lo as int, hi as int),
{
    let mut out: Vec<char> = Vec::new();
    let mut i = lo;
    while i < hi
        invariant
            lo <= i <= hi <= s@.len(),
            out@ == s@.subrange(lo as int, i as int),
        decreases hi - i,
    {
        out.push(s[i]);
        i += 1;
        assert(out@ =~= s@.subrange(lo as int, i as int));
    }
    out
}

/// Whether `s` and `t` hold the same characters.
pub fn chars_eq(s: &[char], t: &[char]) -> (res: bool)
    ensures
        res == (s@ == t@),
{
    if s.len() != t.len() {
        return false;
    }
    let mut i: usize = 0;
    while i < s.len()
        invariant
            s@.len() == t@.len(),
            0 <= i <= s@.len(),
            forall|j: int| 0 <= j < i ==> s@[j] == t@[j],
        decreases s@.len() - i,
    {
        if s[i] != t[i] {
            return false;
        }
        i += 1;
    }
    assert(s@ =~= t@);
    true
}

/// Whether `s` starts with `p`.
pub fn starts_with_chars(s: &[char], p: &[char]) -> (res: bool)
    ensures
        res == (p@.len() <= s@.len() && s@.subrange(0, p@.len() as int) == p@),
{
    if p.len() > s.len() {
        return false;
    }
    let mut i: usize = 0;
    while i < p.len()
        invariant
            p@.len() <= s@.len(),
            0 <= i <= p@.len(),
            forall|j: int| 0 <= j < i ==> s@[j] == p@[j],
        decreases p@.len() - i,
    {
        if s[i] != p[i] {
            assert(s@.subrange(0, p@.len() as int)[i as int] != p@[i as int]);
            return false;
        }
        i += 1;
    }
    assert(s@.subrange(0, p@.len() as int) =~= p@);
    true
}

/// The index of the first `'\n'` of `s`, or `s.len()` when there is none.
pub open spec fn newline_index(s: Seq<char>) -> int
    decreases s.len(),
{
    if s.len() == 0 {
        0
    } else if s[0] == '\n' {
        0
    } else {
        1 + newline_index(s.drop_first())
    }
}

/// The first line break found by [`newline_index`], when there is one, is a line break with none before it.
pub proof fn lemma_newline_index(s: Seq<char>)
    ensures
        0 <= newline_index(s) <= s.len(),
        newline_index(s) < s.len() ==> s[newline_index(s)] == '\n',
        forall|j: int| 0 <= j < newline_index(s) ==> s[j] != '\n',
    decreases s.len(),
{
    if s.len() > 0 && s[0] != '\n' {
        lemma_newline_index(s.drop_first());
        assert forall|j: int| 0 <= j < newline_index(s) implies s[j] != '\n' by {
            if j > 0 {
                assert(s[j] == s.drop_first()[j - 1]);
            }
        }
    }
}

/// The lines of a text as `str::lines` yields them: split after every `'\n'`, the
/// `'\n'` and one `'\r'` right before it dropped, and no empty line after a final `'\n'`.
pub open spec fn lines_of(s: Seq<char>) -> Seq<Seq<char>>
    decreases s.len(),
{
    if s.len() == 0 {
        Seq::empty()
    } else {
        let i = newline_index(s);
        if i < s.len() {
            proof {
                lemma_newline_index(s);
            }
            seq![strip_cr(s.subrange(0, i))] + lines_of(s.subrange(i + 1, s.len() as int))
        } else {
            seq![s]
        }
    }
}

/// `s` without one trailing `'\r'`.
pub open spec fn strip_cr(s: Seq<char>) -> Seq<char> {
    if s.len() > 0 && s.last() == '\r' {
        s.drop_last()
    } else {
        s
    }
}

/// The position of the first `'\n'` at or after `start`, or `s.len()`.
pub fn find_newline(s: &[char], start: usize) -> (res: usize)
    requires
        start <= s@.len(),
    ensures
        res == start + newline_index(s@.subrange(start as int, s@.len() as int)),
{
    let n = s.len();
    let mut i = start;
    while i < n && s[i] != '\n'
        invariant
            n == s@.len(),
            start <= i <= n,
            newline_index(s@.subrange(start as int, n as int)) == (i - start) + newline_index(
                s@.subrange(i as int, n as int),
            ),
        decreases n - i,
    {
        assert(s@.subrange(i as int, n as int).drop_first() =~= s@.subrange(i + 1, n as int));
        i += 1;
    }
    i
}

/// Splits a text into its lines, as `str::lines` does.
pub fn split_lines(s: &[char]) -> (res: Vec<Vec<char>>)
    ensures
        res@.len() == lines_of(s@).len(),
        forall|i: int| 0 <= i < res@.len() ==> #[trigger] res@[i]@ == lines_of(s@)[i],
{
    let n = s.len();
    let mut out: Vec<Vec<char>> = Vec::new();
    let ghost mut acc: Seq<Seq<char>> = Seq::empty();
    let mut start: usize = 0;
    assert(s@.subrange(0, n as int) =~= s@);
    while start < n
        invariant
            n == s@.len(),
            0 <= start <= n,
            out@.len() == acc.len(),
            forall|k: int| 0 <= k < acc.len() ==> #[trigger] out@[k]@ == acc[k],
            lines_of(s@) == acc + lines_of(s@.subrange(start as int, n as int)),
        decreases n - start,
    {
        let ghost rest = s@.subrange(start as int, n as int);
        let i = find_newline(s, start);
        proof {
            lemma_newline_index(rest);
        }
        if i < n {
            let mut end = i;
            if end > start && s[end - 1] == '\r' {
                end = end - 1;
            }
            let line = slice_range(s, start, end);
            proof {
                assert(rest.subrange(0, i - start) =~= s@.subrange(start as int, i as int));
                assert(strip_cr(rest.subrange(0, i - start)) =~= line@);
                assert(rest.subrange(i - start + 1, rest.len() as int) =~= s@.subrange(
                    i + 1,
                    n as int,
                ));
                assert(acc.push(line@) + lines_of(s@.subrange(i + 1, n as int)) =~= acc
                    + lines_of(rest));
                acc = acc.push(line@);
            }
            out.push(line);
            start = i + 1;
        } else {
            let line = slice_range(s, start, n);
            proof {
                assert(lines_of(s@.subrange(n as int, n as int)) =~= Seq::<Seq<char>>::empty());
                assert(acc.push(line@) + lines_of(s@.subrange(n as int, n as int)) =~= acc
                    + lines_of(rest));
                acc = acc.push(line@);
            }
            out.push(line);
            start = n;
        }
    }
    proof {
        assert(lines_of(s@.subrange(n as int, n as int)) =~= Seq::<Seq<char>>::empty());
        assert(lines_of(s@) =~= acc);
    }
    out
}

/// The characters of a string slice.
pub fn chars_of(s: &str) -> (res: Vec<char>)
    ensures
        res@ == s@,
{
    let mut out: Vec<char> = Vec::new();
    for c in it: s.chars()
        invariant
            it.seq() == s@,
            out@ == it.seq().take(it.index() as int),
    {
        out.push(c);
        assert(out@ =~= it.seq().take(it.index() as int + 1));
    }
    assert(out@ =~= s@);
    out
}

/// Collects characters into a `String` (`FromIterator<char> for String`).
#[verifier::external_body]
pub(crate) fn string_from_chars(chars: &[char]) -> (res: String)
    ensures
        res@ == chars@,
{
    chars.iter().collect()
}

proof fn lemma_newline_index_prefix(a: Seq<char>, b: Seq<char>)
    requires
        newline_index(a) < a.len(),
    ensures
        newline_index(a + b) == newline_index(a),
    decreases a.len(),
{
    if a[0] != '\n' {
        assert((a + b).drop_first() =~= a.drop_first() + b);
        lemma_newline_index_prefix(a.drop_first(), b);
    }
}

/// Law: the lines of a text that is cut right after a `'\n'` are the lines of the
/// first part followed by the lines of the second (so lines can be read in pieces).
pub proof fn law_lines_concat(a: Seq<char>, b: Seq<char>)
    requires
        a.len() > 0,
        a.last() == '\n',
    ensures
        lines_of(a + b) == lines_of(a) + lines_of(b),
    decreases a.len(),
{
    lemma_newline_index(a);
    assert(newline_index(a) < a.len()) by {
        if newline_index(a) == a.len() {
            assert(a[a.len() - 1] != '\n');
        }
    }
    lemma_newline_index_prefix(a, b);
    let i = newline_index(a);
    let ab = a + b;
    assert(ab.len() > 0);
    assert(ab.subrange(0, i) =~= a.subrange(0, i));
    let rest_a = a.subrange(i + 1, a.len() as int);
    assert(ab.subrange(i + 1, ab.len() as int) =~= rest_a + b);
    if rest_a.len() == 0 {
        assert(rest_a + b =~= b);
        assert(lines_of(rest_a) =~= Seq::<Seq<char>>::empty());
        assert(lines_of(a) =~= seq![strip_cr(a.subrange(0, i))]);
    } else {
        assert(rest_a.last() == '\n');
        law_lines_concat(rest_a, b);
    }
    assert(lines_of(ab) =~= lines_of(a) + lines_of(b));
}

} // verus!
