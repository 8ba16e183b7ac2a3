//! Text primitives over sequences of characters.

use vstd::prelude::*;

verus! {

/// The first of two values that is there.
pub open spec fn either<T>(a: Option<T>, b: Option<T>) -> Option<T> {
    if a is Some {
        a
    } else {
        b
    }
}

/// `String::push` appends one character.
pub assume_specification[ String::push ](s: &mut String, ch: char)
    ensures
        final(s)@ == old(s)@.push(ch),
;

/// White space as `char::is_whitespace` sees it.
pub open spec fn is_space(c: char) -> bool {
    ||| ('\u{9}' <= c && c <= '\u{d}')
    ||| c == ' '
    ||| c == '\u{85}'
    ||| c == '\u{a0}'
    ||| c == '\u{1680}'
    ||| ('\u{2000}' <= c && c <= '\u{200a}')
    ||| c == '\u{2028}'
    ||| c == '\u{2029}'
    ||| c == '\u{202f}'
    ||| c == '\u{205f}'
    ||| c == '\u{3000}'
}

/// An ASCII decimal digit.
pub open spec fn is_digit(c: char) -> bool {
    '0' <= c && c <= '9'
}

/// ASCII lower case of one character.
pub open spec fn lower_char(c: char) -> char {
    if 'A' <= c && c <= 'Z' {
        (((c as u8) + 32) as u8) as char
    } else {
        c
    }
}

pub fn space_char(c: char) -> (r: bool)
    ensures
        r == is_space(c),
{
    ('\u{9}' <= c && c <= '\u{d}') || c == ' ' || c == '\u{85}' || c == '\u{a0}' || c == '\u{1680}'
        || ('\u{2000}' <= c && c <= '\u{200a}') || c == '\u{2028}' || c == '\u{2029}' || c
        == '\u{202f}' || c == '\u{205f}' || c == '\u{3000}'
}

pub fn lowered_char(c: char) -> (r: char)
    ensures
        r == lower_char(c),
{
    if 'A' <= c && c <= 'Z' {
        ((c as u8) + 32) as char
    } else {
        c
    }
}

/// The characters of a string.
pub fn to_chars(s: &str) -> (r: Vec<char>)
    ensures
        r@ == s@,
{
    let mut v: Vec<char> = Vec::new();
    for c in it: s.chars()
        invariant
            it.seq() == s@,
            v@ == s@.subrange(0, it.index() as int),
    {
        v.push(c);
    }
    assert(s@.subrange(0, s@.len() as int) =~= s@);
    v
}

/// The string made of `v[from..to]`.
pub fn from_range(v: &Vec<char>, from: usize, to: usize) -> (r: String)
    requires
        from <= to <= v@.len(),
    ensures
        r@ == v@.subrange(from as int, to as int),
{
    let mut s = String::new();
    let mut i: usize = from;
    assert(v@.subrange(from as int, from as int) =~= Seq::<char>::empty());
    while i < to
        invariant
            from <= i <= to <= v@.len(),
            s@ =~= v@.subrange(from as int, i as int),
        decreases to - i,
    {
        s.push(v[i]);
        i = i + 1;
    }
    s
}

/// `str` equality is equality of the characters.
pub assume_specification[ <str as PartialEq>::eq ](a: &str, b: &str) -> (r: bool)
    ensures
        r == (a@ == b@),
;

/// Whether two strings hold the same characters.
pub fn same(a: &str, b: &str) -> (r: bool)
    ensures
        r == (a@ == b@),
{
    *a == *b
}

/// An owned copy.
pub fn owned(a: &str) -> (r: String)
    ensures
        r@ == a@,
{
    a.to_owned()
}

pub fn cat2(a: &str, b: &str) -> (r: String)
    ensures
        r@ == a@ + b@,
{
    let mut s: String = owned(a);
    s.append(b);
    s
}

pub fn cat3(a: &str, b: &str, c: &str) -> (r: String)
    ensures
        r@ == a@ + b@ + c@,
{
    let mut s: String = cat2(a, b);
    s.append(c);
    s
}

pub fn cat4(a: &str, b: &str, c: &str, d: &str) -> (r: String)
    ensures
        r@ == a@ + b@ + c@ + d@,
{
    let mut s: String = cat3(a, b, c);
    s.append(d);
    s
}

pub fn cat5(a: &str, b: &str, c: &str, d: &str, e: &str) -> (r: String)
    ensures
        r@ == a@ + b@ + c@ + d@ + e@,
{
    let mut s: String = cat4(a, b, c, d);
    s.append(e);
    s
}

/// `p` stands in `s` at position `i`.
pub open spec fn occurs_at(s: Seq<char>, p: Seq<char>, i: int) -> bool {
    0 <= i && i + p.len() <= s.len() && s.subrange(i, i + p.len()) == p
}

/// The first position at or after `i` where `p` stands in `s`.
pub open spec fn find_from(s: Seq<char>, p: Seq<char>, i: int) -> Option<int>
    decreases s.len() - i + 1,
{
    if i < 0 || i + p.len() > s.len() {
        None
    } else if occurs_at(s, p, i) {
        Some(i)
    } else {
        find_from(s, p, i + 1)
    }
}

/// The first position where `p` stands in `s`.
pub open spec fn find(s: Seq<char>, p: Seq<char>) -> Option<int> {
    find_from(s, p, 0)
}

/// The last position at or before `i` where `p` stands in `s`.
pub open spec fn rfind_from(s: Seq<char>, p: Seq<char>, i: int) -> Option<int>
    decreases i + 1,
{
    if i < 0 {
        None
    } else if occurs_at(s, p, i) {
        Some(i)
    } else {
        rfind_from(s, p, i - 1)
    }
}

/// The last position where `p` stands in `s`.
pub open spec fn rfind(s: Seq<char>, p: Seq<char>) -> Option<int> {
    rfind_from(s, p, s.len() - p.len())
}

pub open spec fn contains(s: Seq<char>, p: Seq<char>) -> bool {
    find(s, p) is Some
}

pub open spec fn starts_with(s: Seq<char>, p: Seq<char>) -> bool {
    occurs_at(s, p, 0)
}

pub open spec fn ends_with(s: Seq<char>, p: Seq<char>) -> bool {
    occurs_at(s, p, s.len() - p.len())
}

/// What follows the first `n` characters.
pub open spec fn drop(s: Seq<char>, n: int) -> Seq<char> {
    s.subrange(n, s.len() as int)
}

/// The first `n` characters.
pub open spec fn take(s: Seq<char>, n: int) -> Seq<char> {
    s.subrange(0, n)
}

/// `find_from` gives the least position at or after `i`, and only such a one.
pub proof fn lemma_find_from(s: Seq<char>, p: Seq<char>, i: int)
    requires
        0 <= i,
    ensures
        match find_from(s, p, i) {
            Some(k) => i <= k && occurs_at(s, p, k) && forall|j: int| i <= j < k ==> !occurs_at(
                s,
                p,
                j,
            ),
            None => forall|j: int| i <= j ==> !occurs_at(s, p, j),
        },
    decreases s.len() - i + 1,
{
    if i + p.len() <= s.len() && !occurs_at(s, p, i) {
        lemma_find_from(s, p, i + 1);
    }
}

/// `rfind_from` gives the greatest position at or before `i`, and only such a one.
pub proof fn lemma_rfind_from(s: Seq<char>, p: Seq<char>, i: int)
    ensures
        match rfind_from(s, p, i) {
            Some(k) => k <= i && occurs_at(s, p, k) && forall|j: int| k < j <= i ==> !occurs_at(
                s,
                p,
                j,
            ),
            None => forall|j: int| j <= i ==> !occurs_at(s, p, j),
        },
    decreases i + 1,
{
    if 0 <= i && !occurs_at(s, p, i) {
        lemma_rfind_from(s, p, i - 1);
    }
}

/// Searching a suffix is searching the whole from where the suffix begins.
pub proof fn lemma_find_shift(s: Seq<char>, p: Seq<char>, k: int, i: int)
    requires
        0 <= k <= s.len(),
        0 <= i,
    ensures
        find_from(s, p, k + i) == match find_from(drop(s, k), p, i) {
            Some(j) => Some(j + k),
            None => None::<int>,
        },
    decreases s.len() - i + 1,
{
    let t = drop(s, k);
    if i + p.len() <= t.len() {
        assert(t.subrange(i, i + p.len()) =~= s.subrange(k + i, k + i + p.len()));
        if !occurs_at(t, p, i) {
            lemma_find_shift(s, p, k, i + 1);
        }
    }
}

/// Whether `p` stands in `v` at position `i`.
pub fn matches_at(v: &Vec<char>, p: &Vec<char>, i: usize) -> (r: bool)
    ensures
        r == occurs_at(v@, p@, i as int),
{
    if i > v.len() || p.len() > v.len() - i {
        return false;
    }
    let mut k: usize = 0;
    while k < p.len()
        invariant
            k <= p@.len(),
            i + p@.len() <= v@.len() <= usize::MAX,
            forall|j: int| 0 <= j < k ==> v@[i + j] == p@[j],
        decreases p@.len() - k,
    {
        if v[i + k] != p[k] {
            assert(v@.subrange(i as int, i + p@.len())[k as int] != p@[k as int]);
            return false;
        }
        k = k + 1;
    }
    assert(v@.subrange(i as int, i + p@.len()) =~= p@);
    true
}

/// `find_from` on characters.
pub fn position_from(v: &Vec<char>, p: &Vec<char>, from: usize) -> (r: Option<usize>)
    requires
        from <= v@.len(),
    ensures
        match r {
            Some(i) => find_from(v@, p@, from as int) == Some(i as int) && from <= i && i + p@.len()
                <= v@.len(),
            None => find_from(v@, p@, from as int) is None,
        },
{
    let mut i: usize = from;
    while i <= v.len() && p.len() <= v.len() - i
        invariant
            from <= i,
            find_from(v@, p@, from as int) == find_from(v@, p@, i as int),
        decreases v@.len() - i + 1,
    {
        if matches_at(v, p, i) {
            return Some(i);
        }
        if i == v.len() {
            assert(v@.subrange(i as int, i as int) =~= p@);
            return None;
        }
        i = i + 1;
    }
    None
}

/// The first position of `p` in `s`, counted in characters.
pub fn find_text(s: &str, p: &str) -> (r: Option<usize>)
    ensures
        match r {
            Some(i) => find(s@, p@) == Some(i as int) && i + p@.len() <= s@.len(),
            None => find(s@, p@) is None,
        },
{
    let v: Vec<char> = to_chars(s);
    let pv: Vec<char> = to_chars(p);
    position_from(&v, &pv, 0)
}

/// The last position of `p` in `s`, counted in characters.
pub fn rfind_text(s: &str, p: &str) -> (r: Option<usize>)
    ensures
        match r {
            Some(i) => rfind(s@, p@) == Some(i as int) && i + p@.len() <= s@.len(),
            None => rfind(s@, p@) is None,
        },
{
    let v: Vec<char> = to_chars(s);
    let pv: Vec<char> = to_chars(p);
    if pv.len() > v.len() {
        return None;
    }
    let mut i: usize = v.len() - pv.len();
    loop
        invariant
            i + pv@.len() <= v@.len(),
            v@ == s@,
            pv@ == p@,
            rfind(v@, pv@) == rfind_from(v@, pv@, i as int),
        decreases i,
    {
        if matches_at(&v, &pv, i) {
            return Some(i);
        }
        if i == 0 {
            assert(rfind_from(v@, pv@, -1) is None);
            return None;
        }
        i = i - 1;
    }
}

pub fn has_text(s: &str, p: &str) -> (r: bool)
    ensures
        r == contains(s@, p@),
{
    find_text(s, p).is_some()
}

pub fn begins_with(s: &str, p: &str) -> (r: bool)
    ensures
        r == starts_with(s@, p@),
{
    let v: Vec<char> = to_chars(s);
    let pv: Vec<char> = to_chars(p);
    matches_at(&v, &pv, 0)
}

pub fn finishes_with(s: &str, p: &str) -> (r: bool)
    ensures
        r == ends_with(s@, p@),
{
    let v: Vec<char> = to_chars(s);
    let pv: Vec<char> = to_chars(p);
    if pv.len() > v.len() {
        return false;
    }
    matches_at(&v, &pv, v.len() - pv.len())
}

/// The characters from `from` up to `to`.
pub fn slice<'a>(s: &'a str, from: usize, to: usize) -> (r: &'a str)
    requires
        from <= to <= s@.len(),
    ensures
        r@ == s@.subrange(from as int, to as int),
{
    s.substring_char(from, to)
}

/// The characters from `from` on.
pub fn slice_from<'a>(s: &'a str, from: usize) -> (r: &'a str)
    requires
        from <= s@.len(),
    ensures
        r@ == drop(s@, from as int),
{
    s.substring_char(from, s.unicode_len())
}

/// What follows the prefix `p`, where `s` begins with it.
pub open spec fn strip_prefix(s: Seq<char>, p: Seq<char>) -> Option<Seq<char>> {
    if starts_with(s, p) {
        Some(drop(s, p.len() as int))
    } else {
        None
    }
}

/// What precedes the suffix `p`, where `s` ends with it.
pub open spec fn strip_suffix(s: Seq<char>, p: Seq<char>) -> Option<Seq<char>> {
    if ends_with(s, p) {
        Some(take(s, s.len() - p.len()))
    } else {
        None
    }
}

/// The parts before and after the first `p`.
pub open spec fn split_once(s: Seq<char>, p: Seq<char>) -> Option<(Seq<char>, Seq<char>)> {
    match find(s, p) {
        Some(i) => Some((take(s, i), drop(s, i + p.len()))),
        None => None,
    }
}

/// The parts before and after the last `p`.
pub open spec fn rsplit_once(s: Seq<char>, p: Seq<char>) -> Option<(Seq<char>, Seq<char>)> {
    match rfind(s, p) {
        Some(i) => Some((take(s, i), drop(s, i + p.len()))),
        None => None,
    }
}

/// The model of an optional string slice.
pub open spec fn opt(o: Option<&str>) -> Option<Seq<char>> {
    match o {
        Some(s) => Some(s@),
        None => None,
    }
}

/// The model of an optional pair of string slices.
pub open spec fn opt_pair(o: Option<(&str, &str)>) -> Option<(Seq<char>, Seq<char>)> {
    match o {
        Some(p) => Some((p.0@, p.1@)),
        None => None,
    }
}

pub fn without_prefix<'a>(s: &'a str, p: &str) -> (r: Option<&'a str>)
    ensures
        opt(r) == strip_prefix(s@, p@),
{
    if begins_with(s, p) {
        Some(slice_from(s, p.unicode_len()))
    } else {
        None
    }
}

pub fn without_suffix<'a>(s: &'a str, p: &str) -> (r: Option<&'a str>)
    ensures
        opt(r) == strip_suffix(s@, p@),
{
    if finishes_with(s, p) {
        Some(slice(s, 0, s.unicode_len() - p.unicode_len()))
    } else {
        None
    }
}

pub fn cut_once<'a>(s: &'a str, p: &str) -> (r: Option<(&'a str, &'a str)>)
    ensures
        opt_pair(r) == split_once(s@, p@),
{
    let _len: usize = s.unicode_len();
    match find_text(s, p) {
        Some(i) => Some((slice(s, 0, i), slice_from(s, i + p.unicode_len()))),
        None => None,
    }
}

pub fn rcut_once<'a>(s: &'a str, p: &str) -> (r: Option<(&'a str, &'a str)>)
    ensures
        opt_pair(r) == rsplit_once(s@, p@),
{
    let _len: usize = s.unicode_len();
    match rfind_text(s, p) {
        Some(i) => Some((slice(s, 0, i), slice_from(s, i + p.unicode_len()))),
        None => None,
    }
}

/// The pieces between the occurrences of `p`; always one at least.
pub open spec fn split(s: Seq<char>, p: Seq<char>) -> Seq<Seq<char>>
    decreases s.len(),
    via split_decreases
{
    if p.len() == 0 {
        seq![s]
    } else {
        match find(s, p) {
            Some(i) => seq![take(s, i)] + split(drop(s, i + p.len()), p),
            None => seq![s],
        }
    }
}

#[via_fn]
proof fn split_decreases(s: Seq<char>, p: Seq<char>) {
    lemma_find_from(s, p, 0);
}

/// `s` with each occurrence of `p`, left to right, replaced by `w`.
pub open spec fn replace(s: Seq<char>, p: Seq<char>, w: Seq<char>) -> Seq<char>
    decreases s.len(),
    via replace_decreases
{
    if p.len() == 0 {
        s
    } else {
        match find(s, p) {
            Some(i) => take(s, i) + w + replace(drop(s, i + p.len()), p, w),
            None => s,
        }
    }
}

#[via_fn]
proof fn replace_decreases(s: Seq<char>, p: Seq<char>, w: Seq<char>) {
    lemma_find_from(s, p, 0);
}

/// The line without a carriage return at its end.
pub open spec fn strip_return(s: Seq<char>) -> Seq<char> {
    if s.len() > 0 && s.last() == '\r' {
        s.drop_last()
    } else {
        s
    }
}

/// The lines of `s`, without their line endings.
pub open spec fn lines(s: Seq<char>) -> Seq<Seq<char>>
    decreases s.len(),
    via lines_decreases
{
    match find(s, seq!['\n']) {
        Some(i) => seq![strip_return(take(s, i))] + lines(drop(s, i + 1)),
        None => if s.len() == 0 {
            Seq::empty()
        } else {
            seq![s]
        },
    }
}

#[via_fn]
proof fn lines_decreases(s: Seq<char>) {
    lemma_find_from(s, seq!['\n'], 0);
}

pub fn split_text(s: &str, p: &str) -> (r: Vec<String>)
    requires
        p@.len() > 0,
    ensures
        r.deep_view() == split(s@, p@),
{
    let v: Vec<char> = to_chars(s);
    let pv: Vec<char> = to_chars(p);
    let mut out: Vec<String> = Vec::new();
    let mut start: usize = 0;
    let _len: usize = v.len();
    assert(drop(v@, 0) =~= v@);
    assert(out.deep_view() + split(drop(v@, 0), pv@) =~= split(v@, pv@));
    loop
        invariant
            start <= v@.len(),
            v@.len() <= usize::MAX,
            v@ == s@,
            pv@ == p@,
            pv@.len() > 0,
            out.deep_view() + split(drop(v@, start as int), pv@) == split(v@, pv@),
        decreases v@.len() - start,
    {
        let ghost rest = drop(v@, start as int);
        proof {
            lemma_find_shift(v@, pv@, start as int, 0);
            lemma_find_from(rest, pv@, 0);
        }
        match position_from(&v, &pv, start) {
            Some(i) => {
                let ghost before = out.deep_view();
                out.push(from_range(&v, start, i));
                assert(take(rest, i - start) =~= v@.subrange(start as int, i as int));
                assert(out.deep_view() =~= before.push(take(rest, i - start)));
                assert(drop(rest, i - start + pv@.len()) =~= drop(v@, i + pv@.len()));
                start = i + pv.len();
                assert(out.deep_view() + split(drop(v@, start as int), pv@) =~= before + split(
                    rest,
                    pv@,
                ));
            },
            None => {
                let ghost before = out.deep_view();
                out.push(from_range(&v, start, v.len()));
                assert(out.deep_view() =~= before.push(rest));
                assert(out.deep_view() =~= before + split(rest, pv@));
                return out;
            },
        }
    }
}

pub fn replace_text(s: &str, p: &str, w: &str) -> (r: String)
    requires
        p@.len() > 0,
    ensures
        r@ == replace(s@, p@, w@),
{
    let v: Vec<char> = to_chars(s);
    let pv: Vec<char> = to_chars(p);
    let mut out: String = String::new();
    let mut start: usize = 0;
    let _len: usize = v.len();
    assert(drop(v@, 0) =~= v@);
    assert(out@ + replace(drop(v@, 0), pv@, w@) =~= replace(v@, pv@, w@));
    loop
        invariant
            start <= v@.len(),
            v@.len() <= usize::MAX,
            v@ == s@,
            pv@ == p@,
            pv@.len() > 0,
            out@ + replace(drop(v@, start as int), pv@, w@) == replace(v@, pv@, w@),
        decreases v@.len() - start,
    {
        let ghost rest = drop(v@, start as int);
        proof {
            lemma_find_shift(v@, pv@, start as int, 0);
            lemma_find_from(rest, pv@, 0);
        }
        match position_from(&v, &pv, start) {
            Some(i) => {
                let ghost before = out@;
                let piece: String = from_range(&v, start, i);
                out.append(piece.as_str());
                out.append(w);
                assert(take(rest, i - start) =~= v@.subrange(start as int, i as int));
                assert(drop(rest, i - start + pv@.len()) =~= drop(v@, i + pv@.len()));
                start = i + pv.len();
                assert(out@ + replace(drop(v@, start as int), pv@, w@) =~= before + replace(
                    rest,
                    pv@,
                    w@,
                ));
            },
            None => {
                let piece: String = from_range(&v, start, v.len());
                out.append(piece.as_str());
                return out;
            },
        }
    }
}

pub fn lines_text(s: &str) -> (r: Vec<String>)
    ensures
        r.deep_view() == lines(s@),
{
    let v: Vec<char> = to_chars(s);
    let mut pv: Vec<char> = Vec::new();
    pv.push('\n');
    let mut out: Vec<String> = Vec::new();
    let mut start: usize = 0;
    let _len: usize = v.len();
    assert(pv@ =~= seq!['\n']);
    assert(drop(v@, 0) =~= v@);
    assert(out.deep_view() + lines(drop(v@, 0)) =~= lines(v@));
    loop
        invariant
            start <= v@.len(),
            v@.len() <= usize::MAX,
            v@ == s@,
            pv@ == seq!['\n'],
            out.deep_view() + lines(drop(v@, start as int)) == lines(v@),
        decreases v@.len() - start,
    {
        let ghost rest = drop(v@, start as int);
        proof {
            lemma_find_shift(v@, pv@, start as int, 0);
            lemma_find_from(rest, pv@, 0);
        }
        match position_from(&v, &pv, start) {
            Some(i) => {
                let ghost before = out.deep_view();
                assert(take(rest, i - start) =~= v@.subrange(start as int, i as int));
                let end: usize = if i > start && v[i - 1] == '\r' {
                    i - 1
                } else {
                    i
                };
                out.push(from_range(&v, start, end));
                assert(v@.subrange(start as int, end as int) =~= strip_return(take(rest, i - start)));
                assert(out.deep_view() =~= before.push(strip_return(take(rest, i - start))));
                assert(drop(rest, i - start + 1) =~= drop(v@, i + 1));
                start = i + 1;
                assert(out.deep_view() + lines(drop(v@, start as int)) =~= before + lines(rest));
            },
            None => {
                let ghost before = out.deep_view();
                if start < v.len() {
                    out.push(from_range(&v, start, v.len()));
                    assert(out.deep_view() =~= before.push(rest));
                }
                assert(out.deep_view() =~= before + lines(rest));
                return out;
            },
        }
    }
}

/// `s` without white space at its start.
pub open spec fn trim_start(s: Seq<char>) -> Seq<char>
    decreases s.len(),
{
    if s.len() > 0 && is_space(s[0]) {
        trim_start(s.drop_first())
    } else {
        s
    }
}

/// `s` without white space at its end.
pub open spec fn trim_end(s: Seq<char>) -> Seq<char>
    decreases s.len(),
{
    if s.len() > 0 && is_space(s.last()) {
        trim_end(s.drop_last())
    } else {
        s
    }
}

/// `s` without white space at either end.
pub open spec fn trim(s: Seq<char>) -> Seq<char> {
    trim_end(trim_start(s))
}

/// `s` without the character `c` at its start.
pub open spec fn trim_start_char(s: Seq<char>, c: char) -> Seq<char>
    decreases s.len(),
{
    if s.len() > 0 && s[0] == c {
        trim_start_char(s.drop_first(), c)
    } else {
        s
    }
}

/// `s` without the character `c` at its end.
pub open spec fn trim_end_char(s: Seq<char>, c: char) -> Seq<char>
    decreases s.len(),
{
    if s.len() > 0 && s.last() == c {
        trim_end_char(s.drop_last(), c)
    } else {
        s
    }
}

/// `s` without the character `c` at either end.
pub open spec fn trim_char(s: Seq<char>, c: char) -> Seq<char> {
    trim_end_char(trim_start_char(s, c), c)
}

pub fn trimmed_start<'a>(s: &'a str) -> (r: &'a str)
    ensures
        r@ == trim_start(s@),
{
    let v: Vec<char> = to_chars(s);
    let mut i: usize = 0;
    assert(drop(v@, 0) =~= v@);
    while i < v.len() && space_char(v[i])
        invariant
            i <= v@.len(),
            trim_start(drop(v@, i as int)) == trim_start(v@),
        decreases v@.len() - i,
    {
        assert(drop(v@, i as int).drop_first() =~= drop(v@, i + 1));
        i = i + 1;
    }
    slice_from(s, i)
}

pub fn trimmed_end<'a>(s: &'a str) -> (r: &'a str)
    ensures
        r@ == trim_end(s@),
{
    let v: Vec<char> = to_chars(s);
    let mut i: usize = v.len();
    assert(take(v@, v@.len() as int) =~= v@);
    while i > 0 && space_char(v[i - 1])
        invariant
            i <= v@.len(),
            trim_end(take(v@, i as int)) == trim_end(v@),
        decreases i,
    {
        assert(take(v@, i as int).drop_last() =~= take(v@, i - 1));
        i = i - 1;
    }
    slice(s, 0, i)
}

pub fn trimmed<'a>(s: &'a str) -> (r: &'a str)
    ensures
        r@ == trim(s@),
{
    trimmed_end(trimmed_start(s))
}

pub fn trimmed_start_char<'a>(s: &'a str, c: char) -> (r: &'a str)
    ensures
        r@ == trim_start_char(s@, c),
{
    let v: Vec<char> = to_chars(s);
    let mut i: usize = 0;
    assert(drop(v@, 0) =~= v@);
    while i < v.len() && v[i] == c
        invariant
            i <= v@.len(),
            trim_start_char(drop(v@, i as int), c) == trim_start_char(v@, c),
        decreases v@.len() - i,
    {
        assert(drop(v@, i as int).drop_first() =~= drop(v@, i + 1));
        i = i + 1;
    }
    slice_from(s, i)
}

pub fn trimmed_end_char<'a>(s: &'a str, c: char) -> (r: &'a str)
    ensures
        r@ == trim_end_char(s@, c),
{
    let v: Vec<char> = to_chars(s);
    let mut i: usize = v.len();
    assert(take(v@, v@.len() as int) =~= v@);
    while i > 0 && v[i - 1] == c
        invariant
            i <= v@.len(),
            trim_end_char(take(v@, i as int), c) == trim_end_char(v@, c),
        decreases i,
    {
        assert(take(v@, i as int).drop_last() =~= take(v@, i - 1));
        i = i - 1;
    }
    slice(s, 0, i)
}

pub fn trimmed_char<'a>(s: &'a str, c: char) -> (r: &'a str)
    ensures
        r@ == trim_char(s@, c),
{
    trimmed_end_char(trimmed_start_char(s, c), c)
}

/// ASCII upper case of one character.
pub open spec fn upper_char(c: char) -> char {
    if 'a' <= c && c <= 'z' {
        (((c as u8) - 32) as u8) as char
    } else {
        c
    }
}

/// ASCII upper case of a text.
pub open spec fn upper(s: Seq<char>) -> Seq<char> {
    s.map_values(|c: char| upper_char(c))
}

pub fn uppered(s: &str) -> (r: String)
    ensures
        r@ == upper(s@),
{
    let v: Vec<char> = to_chars(s);
    let mut out: String = String::new();
    let mut i: usize = 0;
    while i < v.len()
        invariant
            i <= v@.len(),
            v@ == s@,
            out@ =~= upper(s@.subrange(0, i as int)),
        decreases v@.len() - i,
    {
        let c: char = v[i];
        out.push(
            if 'a' <= c && c <= 'z' {
                ((c as u8) - 32) as char
            } else {
                c
            },
        );
        i = i + 1;
    }
    assert(s@.subrange(0, s@.len() as int) =~= s@);
    out
}

/// ASCII lower case of a text.
pub open spec fn lower(s: Seq<char>) -> Seq<char> {
    s.map_values(|c: char| lower_char(c))
}

pub fn lowered(s: &str) -> (r: String)
    ensures
        r@ == lower(s@),
{
    let v: Vec<char> = to_chars(s);
    let mut out: String = String::new();
    let mut i: usize = 0;
    while i < v.len()
        invariant
            i <= v@.len(),
            out@ =~= lower(v@.subrange(0, i as int)),
        decreases v@.len() - i,
    {
        out.push(lowered_char(v[i]));
        i = i + 1;
        assert(v@.subrange(0, i as int) =~= v@.subrange(0, i - 1).push(v@[i - 1]));
    }
    assert(v@.subrange(0, v@.len() as int) =~= v@);
    out
}

/// Equality up to ASCII case.
pub fn same_ignoring_case(a: &str, b: &str) -> (r: bool)
    ensures
        r == (lower(a@) == lower(b@)),
{
    let la: String = lowered(a);
    let lb: String = lowered(b);
    same(la.as_str(), lb.as_str())
}

/// The texts with `sep` between each two.
pub open spec fn join(parts: Seq<Seq<char>>, sep: Seq<char>) -> Seq<char>
    decreases parts.len(),
{
    if parts.len() == 0 {
        Seq::empty()
    } else if parts.len() == 1 {
        parts[0]
    } else {
        join(parts.drop_last(), sep) + sep + parts.last()
    }
}

pub fn join_texts(parts: &Vec<String>, sep: &str) -> (r: String)
    ensures
        r@ == join(parts.deep_view(), sep@),
{
    let mut out: String = String::new();
    let mut i: usize = 0;
    let ghost all = parts.deep_view();
    while i < parts.len()
        invariant
            i <= parts@.len(),
            all == parts.deep_view(),
            out@ == join(all.subrange(0, i as int), sep@),
        decreases parts@.len() - i,
    {
        let ghost before = out@;
        if i > 0 {
            out.append(sep);
        }
        out.append(parts[i].as_str());
        assert(all.subrange(0, i + 1).drop_last() =~= all.subrange(0, i as int));
        assert(all.subrange(0, i + 1).last() == parts@[i as int]@);
        if i == 0 {
            assert(before =~= Seq::<char>::empty());
            assert(out@ =~= parts@[0]@);
        }
        i = i + 1;
    }
    assert(all.subrange(0, all.len() as int) =~= all);
    out
}

/// The character of a decimal digit.
pub open spec fn digit_char(d: int) -> char {
    ((48 + d) as u8) as char
}

/// The decimal digits of `n`.
pub open spec fn dec(n: nat) -> Seq<char>
    decreases n,
{
    if n < 10 {
        seq![digit_char(n as int)]
    } else {
        dec(n / 10).push(digit_char((n % 10) as int))
    }
}

/// The decimal digits of `n`, with a minus sign where it is negative.
pub open spec fn dec_int(n: int) -> Seq<char> {
    if n < 0 {
        seq!['-'] + dec((-n) as nat)
    } else {
        dec(n as nat)
    }
}

pub fn digit_of(d: u64) -> (r: char)
    requires
        d < 10,
    ensures
        r == digit_char(d as int),
{
    (48 + d as u8) as char
}

pub fn u64_text(n: u64) -> (r: String)
    ensures
        r@ == dec(n as nat),
    decreases n,
{
    if n < 10 {
        let mut s: String = String::new();
        s.push(digit_of(n));
        assert(s@ =~= dec(n as nat));
        s
    } else {
        let mut s: String = u64_text(n / 10);
        s.push(digit_of(n % 10));
        s
    }
}

pub fn u128_text(n: u128) -> (r: String)
    ensures
        r@ == dec(n as nat),
    decreases n,
{
    if n < 10 {
        let mut s: String = String::new();
        s.push(digit_of(n as u64));
        assert(s@ =~= dec(n as nat));
        s
    } else {
        let mut s: String = u128_text(n / 10);
        s.push(digit_of((n % 10) as u64));
        s
    }
}

pub fn usize_text(n: usize) -> (r: String)
    ensures
        r@ == dec(n as nat),
{
    u64_text(n as u64)
}

pub fn i64_text(n: i64) -> (r: String)
    ensures
        r@ == dec_int(n as int),
{
    if n < 0 {
        let magnitude: u64 = if n == i64::MIN {
            9223372036854775808u64
        } else {
            (-n) as u64
        };
        let digits: String = u64_text(magnitude);
        let r: String = cat2("-", digits.as_str());
        proof {
            reveal_strlit("-");
            assert("-"@ =~= seq!['-']);
        }
        r
    } else {
        u64_text(n as u64)
    }
}

/// Every character is a decimal digit.
pub open spec fn all_digits(s: Seq<char>) -> bool {
    forall|i: int| 0 <= i < s.len() ==> is_digit(#[trigger] s[i])
}

/// The value of a decimal digit.
pub open spec fn digit_value(c: char) -> nat {
    (c as u32 - 48) as nat
}

/// The number that a run of decimal digits writes.
pub open spec fn digits_value(s: Seq<char>) -> nat
    decreases s.len(),
{
    if s.len() == 0 {
        0
    } else {
        digits_value(s.drop_last()) * 10 + digit_value(s.last())
    }
}

/// The number that a non-empty run of decimal digits writes.
pub open spec fn parse_nat(s: Seq<char>) -> Option<nat> {
    if s.len() > 0 && all_digits(s) {
        Some(digits_value(s))
    } else {
        None
    }
}

/// An integer as `str::parse` reads it: an optional sign, then digits alone.
pub open spec fn parse_integer(s: Seq<char>) -> Option<int> {
    if s.len() > 0 && s[0] == '-' {
        match parse_nat(drop(s, 1)) {
            Some(n) => Some(-(n as int)),
            None => None,
        }
    } else if s.len() > 0 && s[0] == '+' {
        match parse_nat(drop(s, 1)) {
            Some(n) => Some(n as int),
            None => None,
        }
    } else {
        match parse_nat(s) {
            Some(n) => Some(n as int),
            None => None,
        }
    }
}

/// An integer within bounds.
pub open spec fn parse_within(s: Seq<char>, min: int, max: int) -> Option<int> {
    match parse_integer(s) {
        Some(n) => if min <= n <= max {
            Some(n)
        } else {
            None
        },
        None => None,
    }
}

/// An unsigned integer within a bound; a minus sign is never accepted.
pub open spec fn parse_unsigned(s: Seq<char>, max: int) -> Option<int> {
    if s.len() > 0 && s[0] == '-' {
        None
    } else {
        parse_within(s, 0, max)
    }
}

/// What a run of characters writes as a magnitude.
pub enum Magnitude {
    NotDigits,
    TooLarge,
    Value(u64),
}

pub fn magnitude_from(v: &Vec<char>, from: usize) -> (r: Magnitude)
    requires
        from <= v@.len(),
    ensures
        match r {
            Magnitude::NotDigits => parse_nat(drop(v@, from as int)) is None,
            Magnitude::TooLarge => parse_nat(drop(v@, from as int)) is Some && parse_nat(
                drop(v@, from as int),
            )->0 > u64::MAX,
            Magnitude::Value(n) => parse_nat(drop(v@, from as int)) == Some(n as nat),
        },
{
    if from >= v.len() {
        return Magnitude::NotDigits;
    }
    let mut i: usize = from;
    let mut acc: u64 = 0;
    let mut over: bool = false;
    let ghost t = drop(v@, from as int);
    assert(t.subrange(0, 0) =~= Seq::<char>::empty());
    while i < v.len()
        invariant
            from <= i <= v@.len(),
            t == drop(v@, from as int),
            forall|j: int| 0 <= j < i - from ==> is_digit(#[trigger] t[j]),
            over ==> digits_value(t.subrange(0, i - from)) > u64::MAX,
            !over ==> digits_value(t.subrange(0, i - from)) == acc,
        decreases v@.len() - i,
    {
        let c: char = v[i];
        if !('0' <= c && c <= '9') {
            assert(t[i - from] == c);
            return Magnitude::NotDigits;
        }
        let d: u64 = (c as u32 - 48) as u64;
        assert(t.subrange(0, i + 1 - from).drop_last() =~= t.subrange(0, i - from));
        assert(t.subrange(0, i + 1 - from).last() == c);
        if !over {
            match acc.checked_mul(10) {
                Some(m) => match m.checked_add(d) {
                    Some(n) => {
                        acc = n;
                    },
                    None => {
                        over = true;
                    },
                },
                None => {
                    over = true;
                },
            }
        }
        i = i + 1;
    }
    assert(t.subrange(0, t.len() as int) =~= t);
    if over {
        Magnitude::TooLarge
    } else {
        Magnitude::Value(acc)
    }
}

pub fn parse_u64_text(s: &str) -> (r: Option<u64>)
    ensures
        match r {
            Some(n) => parse_unsigned(s@, u64::MAX as int) == Some(n as int),
            None => parse_unsigned(s@, u64::MAX as int) is None,
        },
{
    let v: Vec<char> = to_chars(s);
    if v.len() > 0 && v[0] == '-' {
        return None;
    }
    let from: usize = if v.len() > 0 && v[0] == '+' {
        1
    } else {
        0
    };
    assert(drop(v@, 0) =~= v@);
    match magnitude_from(&v, from) {
        Magnitude::Value(n) => Some(n),
        _ => None,
    }
}

pub fn parse_i64_text(s: &str) -> (r: Option<i64>)
    ensures
        match r {
            Some(n) => parse_within(s@, i64::MIN as int, i64::MAX as int) == Some(n as int),
            None => parse_within(s@, i64::MIN as int, i64::MAX as int) is None,
        },
{
    let v: Vec<char> = to_chars(s);
    let negative: bool = v.len() > 0 && v[0] == '-';
    let from: usize = if v.len() > 0 && (v[0] == '+' || v[0] == '-') {
        1
    } else {
        0
    };
    assert(drop(v@, 0) =~= v@);
    match magnitude_from(&v, from) {
        Magnitude::Value(n) => {
            if negative {
                if n <= 9223372036854775807 {
                    Some(-(n as i64))
                } else if n == 9223372036854775808 {
                    Some(i64::MIN)
                } else {
                    None
                }
            } else if n <= 9223372036854775807 {
                Some(n as i64)
            } else {
                None
            }
        },
        _ => None,
    }
}

pub fn parse_i32_text(s: &str) -> (r: Option<i32>)
    ensures
        match r {
            Some(n) => parse_within(s@, i32::MIN as int, i32::MAX as int) == Some(n as int),
            None => parse_within(s@, i32::MIN as int, i32::MAX as int) is None,
        },
{
    match parse_i64_text(s) {
        Some(n) => if -2147483648 <= n && n <= 2147483647 {
            Some(n as i32)
        } else {
            None
        },
        None => None,
    }
}

/// Reading back the digits of a number gives the number.
pub proof fn law_decimal_round_trip(n: nat)
    ensures
        parse_nat(dec(n)) == Some(n),
    decreases n,
{
    if n < 10 {
        let s = dec(n);
        assert(s.drop_last() =~= Seq::<char>::empty());
        assert(digits_value(s.drop_last()) == 0);
    } else {
        law_decimal_round_trip(n / 10);
        let s = dec(n);
        assert(s.drop_last() =~= dec(n / 10));
        assert forall|i: int| 0 <= i < s.len() implies is_digit(#[trigger] s[i]) by {
            if i < s.len() - 1 {
                assert(s[i] == dec(n / 10)[i]);
            }
        }
    }
}

/// Splitting leaves one piece at least.
pub proof fn lemma_split_not_empty(s: Seq<char>, p: Seq<char>)
    ensures
        split(s, p).len() > 0,
{
}

} // verus!
