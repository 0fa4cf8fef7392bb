//! Character-sequence helpers shared by the parsers: conversion between
//! `str`/`String` and `Vec<char>`, comparison, prefix and infix tests,
//! joining and whitespace splitting.
use vstd::prelude::*;
use vstd::string::*;

verus! {

/// `p` occurs in `s` starting at position `i`.
pub open spec fn occurs_at(s: Seq<char>, p: Seq<char>, i: int) -> bool {
    0 <= i && i + p.len() <= s.len() && s.subrange(i, i + p.len()) == p
}

/// `p` occurs somewhere in `s`.
pub open spec fn has_infix(s: Seq<char>, p: Seq<char>) -> bool {
    exists|i: int| occurs_at(s, p, i)
}

/// The characters of `s`, in order.
pub fn chars_of(s: &str) -> (r: Vec<char>)
    ensures
        r@ == s@,
{
    let n = s.unicode_len();
    let mut r: Vec<char> = Vec::new();
    let mut i: usize = 0;
    while i < n
        invariant
            n == s@.len(),
            i <= n,
            r@ == s@.take(i as int),
        decreases n - i,
    {
        let c = s.get_char(i);
        r.push(c);
        i = i + 1;
        assert(r@ =~= s@.take(i as int));
    }
    assert(r@ =~= s@);
    r
}

/// A `String` holding exactly the characters of `v`.
#[verifier::external_body]
pub(crate) fn string_from_chars(v: &[char]) -> (r: String)
    ensures
        r@ == v@,
{
    v.iter().collect()
}

/// A `String` holding the characters of `s`.
pub fn string_of(s: &str) -> (r: String)
    ensures
        r@ == s@,
{
    String::from_str(s)
}

/// Whether the characters of `v` are those of `lit`.
pub fn chars_eq_str(v: &[char], lit: &str) -> (r: bool)
    ensures
        r == (v@ == lit@),
{
    let n = lit.unicode_len();
    if v.len() != n {
        return false;
    }
    let mut i: usize = 0;
    while i < n
        invariant
            n == lit@.len(),
            v@.len() == n,
            i <= n,
            forall|j: int| 0 <= j < i ==> v@[j] == lit@[j],
        decreases n - i,
    {
        if v[i] != lit.get_char(i) {
            return false;
        }
        i = i + 1;
    }
    assert(v@ =~= lit@);
    true
}

/// Whether the characters of `a` are those of `b`.
pub fn chars_eq(a: &[char], b: &[char]) -> (r: bool)
    ensures
        r == (a@ == b@),
{
    if a.len() != b.len() {
        return false;
    }
    let mut i: usize = 0;
    while i < a.len()
        invariant
            a@.len() == b@.len(),
            i <= a@.len(),
            forall|j: int| 0 <= j < i ==> a@[j] == b@[j],
        decreases a@.len() - i,
    {
        if a[i] != b[i] {
            return false;
        }
        i = i + 1;
    }
    assert(a@ =~= b@);
    true
}

/// Whether `lit` occurs in `v` at position `start`.
pub fn occurs_at_exec(v: &[char], lit: &[char], start: usize) -> (r: bool)
    ensures
        r == occurs_at(v@, lit@, start as int),
{
    if start > v.len() || lit.len() > v.len() - start {
        return false;
    }
    let mut i: usize = 0;
    while i < lit.len()
        invariant
            start + lit@.len() <= v@.len(),
            start <= v@.len(),
            i <= lit@.len(),
            forall|j: int| 0 <= j < i ==> v@[start + j] == lit@[j],
        decreases lit@.len() - i,
    {
        assert(start + i < v.len());
        let k: usize = start + i;
        if v[k] != lit[i] {
            assert(v@.subrange(start as int, start + lit@.len())[i as int] != lit@[i as int]);
            return false;
        }
        i = i + 1;
    }
    assert(v@.subrange(start as int, start + lit@.len()) =~= lit@);
    true
}

/// Whether `v` begins with the characters of `lit`.
pub fn starts_with(v: &[char], lit: &str) -> (r: bool)
    ensures
        r == lit@.is_prefix_of(v@),
{
    let p = chars_of(lit);
    let r = occurs_at_exec(v, &p, 0);
    proof {
        if r {
            assert(v@.subrange(0, p@.len() as int) == p@);
            assert forall|i: int| 0 <= i < p@.len() implies p@[i] == v@[i] by {
                assert(v@.subrange(0, p@.len() as int)[i] == v@[i]);
            }
        } else if lit@.is_prefix_of(v@) {
            assert(v@.subrange(0, p@.len() as int) =~= p@);
        }
    }
    r
}

/// Whether the characters of `lit` occur anywhere in `v`.
pub fn contains_str(v: &[char], lit: &str) -> (r: bool)
    ensures
        r == has_infix(v@, lit@),
{
    let p = chars_of(lit);
    if p.len() > v.len() {
        assert(!has_infix(v@, lit@));
        return false;
    }
    let last = v.len() - p.len();
    let mut i: usize = 0;
    loop
        invariant
            p@ == lit@,
            last == v@.len() - p@.len(),
            i <= last,
            forall|j: int| 0 <= j < i ==> !occurs_at(v@, p@, j),
        decreases last - i,
    {
        if occurs_at_exec(v, &p, i) {
            return true;
        }
        if i == last {
            assert forall|j: int| !occurs_at(v@, p@, j) by {
                if 0 <= j && j + p@.len() <= v@.len() {
                    assert(j <= i);
                }
            }
            return false;
        }
        i = i + 1;
    }
}

/// `parts` joined with `sep` between consecutive elements.
pub open spec fn join_seq(parts: Seq<Seq<char>>, sep: Seq<char>) -> Seq<char>
    decreases parts.len(),
{
    if parts.len() == 0 {
        Seq::empty()
    } else if parts.len() == 1 {
        parts[0]
    } else {
        join_seq(parts.drop_last(), sep) + sep + parts.last()
    }
}

/// The views of a vector of strings.
pub open spec fn views_of(v: Seq<String>) -> Seq<Seq<char>> {
    v.map_values(|s: String| s@)
}

/// The strings of `parts` joined with `sep`.
pub fn join(parts: &Vec<String>, sep: &str) -> (r: String)
    ensures
        r@ == join_seq(views_of(parts@), sep@),
{
    let mut out: Vec<char> = Vec::new();
    let sepc = chars_of(sep);
    let ghost all = views_of(parts@);
    let mut i: usize = 0;
    while i < parts.len()
        invariant
            all == views_of(parts@),
            sepc@ == sep@,
            i <= parts@.len(),
            out@ == join_seq(all.take(i as int), sep@),
        decreases parts@.len() - i,
    {
        let piece = chars_of(parts[i].as_str());
        if i > 0 {
            out.extend_from_slice(&sepc);
        }
        out.extend_from_slice(&piece);
        proof {
            let t = all.take(i + 1);
            assert(t.drop_last() =~= all.take(i as int));
            assert(t.last() == parts@[i as int]@);
            if i == 0 {
                assert(t.len() == 1);
                assert(out@ =~= join_seq(t, sep@));
            } else {
                assert(out@ =~= join_seq(t, sep@));
            }
        }
        i = i + 1;
    }
    assert(all.take(parts@.len() as int) =~= all);
    string_from_chars(&out)
}

/// Unicode `White_Space`, the property that `char::is_whitespace` tests.
pub open spec fn is_ws(c: char) -> bool {
    ||| ('\u{9}' <= c && c <= '\u{d}')
    ||| c == ' '
    ||| c == '\u{85}'
    ||| c == '\u{a0}'
    ||| c == '\u{1680}'
    ||| ('\u{2000}' <= c && c <= '\u{200a}')
    ||| c == '\u{2028}'
    ||| c == '\u{2029}'
    ||| c == '\u{202f}'
    ||| c == '\u{205f}'
    ||| c == '\u{3000}'
}

/// Whether `c` is Unicode white space.
pub fn is_whitespace(c: char) -> (r: bool)
    ensures
        r == is_ws(c),
{
    ('\u{9}' <= c && c <= '\u{d}') || c == ' ' || c == '\u{85}' || c == '\u{a0}' || c
        == '\u{1680}' || ('\u{2000}' <= c && c <= '\u{200a}') || c == '\u{2028}' || c
        == '\u{2029}' || c == '\u{202f}' || c == '\u{205f}' || c == '\u{3000}'
}

/// The words found so far in `s` and the word being read, scanning from the left:
/// a white-space character ends the current word, any other character extends it.
pub open spec fn ws_scan(s: Seq<char>) -> (Seq<Seq<char>>, Seq<char>)
    decreases s.len(),
{
    if s.len() == 0 {
        (Seq::empty(), Seq::empty())
    } else {
        let (done, cur) = ws_scan(s.drop_last());
        if is_ws(s.last()) {
            if cur.len() > 0 {
                (done.push(cur), Seq::empty())
            } else {
                (done, cur)
            }
        } else {
            (done, cur.push(s.last()))
        }
    }
}

/// The maximal runs of non-white-space characters of `s`, in order
/// (what `str::split_whitespace` yields).
pub open spec fn split_ws(s: Seq<char>) -> Seq<Seq<char>> {
    let (done, cur) = ws_scan(s);
    if cur.len() > 0 {
        done.push(cur)
    } else {
        done
    }
}

/// The white-space separated words of `s`.
pub fn split_whitespace(s: &[char]) -> (r: Vec<Vec<char>>)
    ensures
        char_views(r@) == split_ws(s@),
        r@.len() == split_ws(s@).len(),
        forall|i: int| 0 <= i < r@.len() ==> #[trigger] r@[i]@ == split_ws(s@)[i],
{
    let mut done: Vec<Vec<char>> = Vec::new();
    let mut cur: Vec<char> = Vec::new();
    let mut i: usize = 0;
    while i < s.len()
        invariant
            i <= s@.len(),
            ws_scan(s@.take(i as int)).1 == cur@,
            ws_scan(s@.take(i as int)).0.len() == done@.len(),
            forall|k: int|
                0 <= k < done@.len() ==> #[trigger] done@[k]@ == ws_scan(s@.take(i as int)).0[k],
        decreases s@.len() - i,
    {
        let c = s[i];
        let ghost prev = ws_scan(s@.take(i as int));
        assert(s@.take(i + 1).drop_last() =~= s@.take(i as int));
        assert(s@.take(i + 1).last() == c);
        if is_whitespace(c) {
            if cur.len() > 0 {
                let w = cur;
                done.push(w);
                cur = Vec::new();
                assert(cur@ =~= Seq::<char>::empty());
            }
        } else {
            cur.push(c);
        }
        i = i + 1;
    }
    assert(s@.take(s@.len() as int) =~= s@);
    if cur.len() > 0 {
        done.push(cur);
    }
    assert(char_views(done@) =~= split_ws(s@));
    done
}

/// The character sequences held by a sequence of character vectors.
pub open spec fn char_views(v: Seq<Vec<char>>) -> Seq<Seq<char>> {
    v.map_values(|w: Vec<char>| w@)
}

/// The character vectors of `parts` joined with `sep` between them.
pub fn join_chars(parts: &[Vec<char>], sep: &str) -> (r: Vec<char>)
    ensures
        r@ == join_seq(char_views(parts@), sep@),
{
    let mut out: Vec<char> = Vec::new();
    let sepc = chars_of(sep);
    let ghost all = char_views(parts@);
    let mut i: usize = 0;
    while i < parts.len()
        invariant
            all == char_views(parts@),
            sepc@ == sep@,
            i <= parts@.len(),
            out@ == join_seq(all.take(i as int), sep@),
        decreases parts@.len() - i,
    {
        if i > 0 {
            out.extend_from_slice(&sepc);
        }
        out.extend_from_slice(&parts[i]);
        proof {
            let t = all.take(i + 1);
            assert(t.drop_last() =~= all.take(i as int));
            assert(t.last() == parts@[i as int]@);
            assert(out@ =~= join_seq(t, sep@));
        }
        i = i + 1;
    }
    assert(all.take(parts@.len() as int) =~= all);
    out
}

/// `s` without its leading white space.
pub open spec fn trim_start(s: Seq<char>) -> Seq<char>
    decreases s.len(),
{
    if s.len() > 0 && is_ws(s[0]) {
        trim_start(s.drop_first())
    } else {
        s
    }
}

/// `s` without its trailing white space.
pub open spec fn trim_end(s: Seq<char>) -> Seq<char>
    decreases s.len(),
{
    if s.len() > 0 && is_ws(s.last()) {
        trim_end(s.drop_last())
    } else {
        s
    }
}

/// `s` without leading and trailing white space (what `str::trim` gives).
pub open spec fn trim(s: Seq<char>) -> Seq<char> {
    trim_end(trim_start(s))
}

/// The characters of `s` from `start` on, without leading and trailing white space.
pub fn trim_from(s: &[char], start: usize) -> (r: Vec<char>)
    requires
        start <= s@.len(),
    ensures
        r@ == trim(s@.skip(start as int)),
{
    let mut lo = start;
    while lo < s.len() && is_whitespace(s[lo])
        invariant
            start <= lo <= s@.len(),
            trim_start(s@.skip(start as int)) == trim_start(s@.skip(lo as int)),
        decreases s@.len() - lo,
    {
        assert(s@.skip(lo as int).drop_first() =~= s@.skip(lo + 1));
        lo = lo + 1;
    }
    assert(trim_start(s@.skip(lo as int)) == s@.skip(lo as int));
    let mut hi = s.len();
    while hi > lo && is_whitespace(s[hi - 1])
        invariant
            lo <= hi <= s@.len(),
            trim_end(s@.skip(lo as int)) == trim_end(s@.subrange(lo as int, hi as int)),
        decreases hi,
    {
        assert(s@.subrange(lo as int, hi as int).drop_last() =~= s@.subrange(lo as int, hi - 1));
        hi = hi - 1;
    }
    assert(s@.skip(lo as int) =~= s@.subrange(lo as int, s@.len() as int));
    let mut r: Vec<char> = Vec::new();
    let mut i = lo;
    while i < hi
        invariant
            lo <= i <= hi <= s@.len(),
            r@ == s@.subrange(lo as int, i as int),
        decreases hi - i,
    {
        r.push(s[i]);
        assert(r@ =~= s@.subrange(lo as int, i + 1));
        i = i + 1;
    }
    r
}

/// The pieces of `s` between occurrences of `sep` (what `str::split` yields):
/// the pieces completed so far and the one being read.
pub open spec fn split_scan(s: Seq<char>, sep: char) -> (Seq<Seq<char>>, Seq<char>)
    decreases s.len(),
{
    if s.len() == 0 {
        (Seq::empty(), Seq::empty())
    } else {
        let (done, cur) = split_scan(s.drop_last(), sep);
        if s.last() == sep {
            (done.push(cur), Seq::empty())
        } else {
            (done, cur.push(s.last()))
        }
    }
}

/// The pieces of `s` between occurrences of `sep`; there is always at least one.
pub open spec fn split_on(s: Seq<char>, sep: char) -> Seq<Seq<char>> {
    let (done, cur) = split_scan(s, sep);
    done.push(cur)
}

proof fn lemma_split_without_sep(s: Seq<char>, sep: char)
    requires
        !s.contains(sep),
    ensures
        split_scan(s, sep) == (Seq::<Seq<char>>::empty(), s),
    decreases s.len(),
{
    if s.len() > 0 {
        let d = s.drop_last();
        assert(!d.contains(sep)) by {
            if d.contains(sep) {
                let i = choose|i: int| 0 <= i < d.len() && d[i] == sep;
                assert(s[i] == sep);
            }
        }
        lemma_split_without_sep(d, sep);
        assert(s.last() != sep) by {
            assert(s[s.len() - 1] == s.last());
        }
        assert(d.push(s.last()) =~= s);
    }
}

proof fn lemma_split_extend(p: Seq<char>, q: Seq<char>, sep: char)
    requires
        !q.contains(sep),
    ensures
        split_scan(p + q, sep) == (split_scan(p, sep).0, split_scan(p, sep).1 + q),
    decreases q.len(),
{
    if q.len() == 0 {
        assert(p + q =~= p);
        assert(split_scan(p, sep).1 + q =~= split_scan(p, sep).1);
    } else {
        let d = q.drop_last();
        assert(!d.contains(sep)) by {
            if d.contains(sep) {
                let i = choose|i: int| 0 <= i < d.len() && d[i] == sep;
                assert(q[i] == sep);
            }
        }
        lemma_split_extend(p, d, sep);
        assert((p + q).drop_last() =~= p + d);
        assert((p + q).last() == q[q.len() - 1]);
        assert(q[q.len() - 1] != sep);
        assert((split_scan(p, sep).1 + d).push(q.last()) =~= split_scan(p, sep).1 + q);
    }
}

/// Text without `sep` is one piece; two such texts joined by `sep` are two.
pub proof fn lemma_split_two(m: Seq<char>, k: Seq<char>, sep: char)
    requires
        !m.contains(sep),
        !k.contains(sep),
    ensures
        split_on(k, sep) == seq![k],
        split_on(m + seq![sep] + k, sep) == seq![m, k],
{
    lemma_split_without_sep(k, sep);
    assert(Seq::<Seq<char>>::empty().push(k) =~= seq![k]);
    lemma_split_without_sep(m, sep);
    let p = m + seq![sep];
    assert(p.drop_last() =~= m);
    assert(p.last() == sep);
    assert(split_scan(p, sep) == (seq![m], Seq::<char>::empty())) by {
        assert(Seq::<Seq<char>>::empty().push(m) =~= seq![m]);
    }
    lemma_split_extend(p, k, sep);
    assert(Seq::<char>::empty() + k =~= k);
    assert(seq![m].push(k) =~= seq![m, k]);
}

pub fn split_chars(s: &[char], start: usize, sep: char) -> (r: Vec<Vec<char>>)
    requires
        start <= s@.len(),
    ensures
        r@.len() == split_on(s@.skip(start as int), sep).len(),
        forall|i: int|
            0 <= i < r@.len() ==> #[trigger] r@[i]@ == split_on(s@.skip(start as int), sep)[i],
{
    let ghost t = s@.skip(start as int);
    let mut done: Vec<Vec<char>> = Vec::new();
    let mut cur: Vec<char> = Vec::new();
    let mut i: usize = start;
    while i < s.len()
        invariant
            start <= i <= s@.len(),
            t == s@.skip(start as int),
            split_scan(t.take(i - start), sep).1 == cur@,
            split_scan(t.take(i - start), sep).0.len() == done@.len(),
            forall|k: int|
                0 <= k < done@.len() ==> #[trigger] done@[k]@ == split_scan(
                    t.take(i - start),
                    sep,
                ).0[k],
        decreases s@.len() - i,
    {
        let c = s[i];
        assert(t.take(i + 1 - start).drop_last() =~= t.take(i - start));
        assert(t.take(i + 1 - start).last() == c);
        if c == sep {
            let w = cur;
            done.push(w);
            cur = Vec::new();
            assert(cur@ =~= Seq::<char>::empty());
        } else {
            cur.push(c);
        }
        i = i + 1;
    }
    assert(t.take(s@.len() - start) =~= t);
    done.push(cur);
    done
}


} // verus!
