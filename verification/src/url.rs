//! URLs and their queries.

use crate::codec::{ascii_text, hex_char, hex_digit, hex_value};
use crate::outside::{join_url, joined_url, lossy_text, url_error, url_error_of, utf8_lossy};
use crate::text::{
    cat2, cat3, cut_once, join, join_texts, owned, replace, replace_text, same, slice, split,
    split_once, split_text, take, to_chars, trim_end_char, trimmed_end_char,
};
use vstd::prelude::*;
use vstd::utf8::encode_utf8;

verus! {

/// The last position of a slash or backslash.
pub open spec fn last_separator(s: Seq<char>, n: int) -> Option<int>
    decreases n,
{
    if n <= 0 || n > s.len() {
        None
    } else if s[n - 1] == '/' || s[n - 1] == '\\' {
        Some(n - 1)
    } else {
        last_separator(s, n - 1)
    }
}

/// A reference as seen from a base.
pub open spec fn combined_url(base: Seq<char>, value: Seq<char>) -> Seq<char> {
    if base.len() == 0 {
        value
    } else {
        match joined_url(base, value) {
            Some(joined) => replace(replace(joined, "%7B"@, "{"@), "%7D"@, "}"@),
            None => if url_error_of(value) is None {
                value
            } else {
                match last_separator(base, base.len() as int) {
                    Some(i) => take(base, i + 1) + value,
                    None => value,
                }
            },
        }
    }
}

/// A reference as seen from a base.
pub fn combine_url(base: &str, value: &str) -> (r: String)
    ensures
        r@ == combined_url(base@, value@),
{
    if base.unicode_len() == 0 {
        return owned(value);
    }
    proof {
        reveal_strlit("%7B");
        reveal_strlit("%7D");
    }
    match join_url(base, value) {
        Some(joined) => {
            let once: String = replace_text(joined.as_str(), "%7B", "{");
            replace_text(once.as_str(), "%7D", "}")
        },
        None => {
            if url_error(value).is_none() {
                return owned(value);
            }
            let v: Vec<char> = to_chars(base);
            let mut n: usize = v.len();
            while n > 0 && v[n - 1] != '/' && v[n - 1] != '\\'
                invariant
                    n <= v@.len(),
                    last_separator(v@, v@.len() as int) == last_separator(v@, n as int),
                decreases n,
            {
                n = n - 1;
            }
            if n == 0 {
                owned(value)
            } else {
                cat2(slice(base, 0, n), value)
            }
        },
    }
}

/// The query of a URL, without question mark and fragment.
pub open spec fn query_of(url: Seq<char>) -> Seq<char> {
    match split_once(url, "?"@) {
        None => ""@,
        Some((head, query)) => match split_once(query, "#"@) {
            Some((bare, fragment)) => bare,
            None => query,
        },
    }
}

pub fn query_part<'a>(url: &'a str) -> (r: &'a str)
    ensures
        r@ == query_of(url@),
{
    match cut_once(url, "?") {
        None => "",
        Some((_, query)) => match cut_once(query, "#") {
            Some((bare, _)) => bare,
            None => query,
        },
    }
}

/// A URL without query and fragment.
pub open spec fn bare_url(url: Seq<char>) -> Seq<char> {
    let head = match split_once(url, "?"@) {
        Some((head, query)) => head,
        None => url,
    };
    match split_once(head, "#"@) {
        Some((bare, fragment)) => bare,
        None => head,
    }
}

fn bare_part<'a>(url: &'a str) -> (r: &'a str)
    ensures
        r@ == bare_url(url@),
{
    let head: &str = match cut_once(url, "?") {
        Some((head, _)) => head,
        None => url,
    };
    match cut_once(head, "#") {
        Some((bare, _)) => bare,
        None => head,
    }
}

/// The value of a hexadecimal digit in ASCII.
pub open spec fn hex_byte(b: u8) -> Option<int> {
    hex_digit(b as char)
}

/// The bytes that a form encoded run of bytes stands for. An incomplete escape stands for itself.
pub open spec fn form_bytes(s: Seq<u8>) -> Seq<u8>
    decreases s.len(),
{
    if s.len() == 0 {
        Seq::empty()
    } else if s[0] == 43 {
        seq![32u8] + form_bytes(s.drop_first())
    } else if s[0] == 37 && s.len() > 2 && hex_byte(s[1]) is Some && hex_byte(s[2]) is Some {
        seq![(hex_byte(s[1])->0 * 16 + hex_byte(s[2])->0) as u8] + form_bytes(
            s.subrange(3, s.len() as int),
        )
    } else {
        seq![s[0]] + form_bytes(s.drop_first())
    }
}

/// A byte that form encoding leaves as it is.
pub open spec fn is_form_plain(b: u8) -> bool {
    (65 <= b <= 90) || (97 <= b <= 122) || (48 <= b <= 57) || b == 45 || b == 95 || b == 46 || b
        == 33 || b == 42 || b == 40 || b == 41
}

/// The form encoding of one byte.
pub open spec fn form_escape(b: u8) -> Seq<u8> {
    if is_form_plain(b) {
        seq![b]
    } else if b == 32 {
        seq![43u8]
    } else {
        seq![37u8, hex_char(b as int / 16, false) as u8, hex_char(b as int % 16, false) as u8]
    }
}

/// The form encoding of bytes.
pub open spec fn form_escapes(s: Seq<u8>) -> Seq<u8>
    decreases s.len(),
{
    if s.len() == 0 {
        Seq::empty()
    } else {
        form_escape(s[0]) + form_escapes(s.drop_first())
    }
}

/// The form encoding of a text.
pub open spec fn form_encoded(s: Seq<char>) -> Seq<char> {
    ascii_text(form_escapes(encode_utf8(s)))
}

/// The text that a form encoded text stands for.
pub open spec fn form_decoded(s: Seq<char>) -> Seq<char> {
    lossy_text(form_bytes(encode_utf8(s)))
}

proof fn lemma_escape_round_trip(b: u8, rest: Seq<u8>)
    ensures
        form_bytes(form_escape(b) + rest) == seq![b] + form_bytes(rest),
        forall|i: int| 0 <= i < form_escape(b).len() ==> #[trigger] form_escape(b)[i] < 128,
{
    let e = form_escape(b);
    let s = e + rest;
    if is_form_plain(b) || b == 32 {
        assert(s.drop_first() =~= rest);
    } else {
        let hi = hex_char(b as int / 16, false);
        let lo = hex_char(b as int % 16, false);
        assert((hi as u8) as char == hi && (lo as u8) as char == lo);
        assert(s[1] == hi as u8 && s[2] == lo as u8);
        assert(hex_byte(s[1]) == Some(b as int / 16));
        assert(hex_byte(s[2]) == Some(b as int % 16));
        assert(s.subrange(3, s.len() as int) =~= rest);
    }
}

proof fn lemma_escapes_round_trip(s: Seq<u8>)
    ensures
        form_bytes(form_escapes(s)) == s,
        forall|i: int| 0 <= i < form_escapes(s).len() ==> #[trigger] form_escapes(s)[i] < 128,
    decreases s.len(),
{
    if s.len() == 0 {
        assert(form_bytes(form_escapes(s)) =~= s);
    } else {
        let rest = form_escapes(s.drop_first());
        lemma_escapes_round_trip(s.drop_first());
        lemma_escape_round_trip(s[0], rest);
        assert(seq![s[0]] + s.drop_first() =~= s);
        let e = form_escape(s[0]);
        assert forall|i: int| 0 <= i < (e + rest).len() implies #[trigger] (e + rest)[i] < 128 by {
            if i < e.len() {
                assert((e + rest)[i] == e[i]);
            } else {
                assert((e + rest)[i] == rest[i - e.len()]);
            }
        }
    }
}

/// Form encoding loses nothing: decoding the encoding of a text gives the bytes of the text.
pub proof fn law_form_round_trip(s: Seq<char>)
    ensures
        form_bytes(encode_utf8(form_encoded(s))) == encode_utf8(s),
{
    let e = form_escapes(encode_utf8(s));
    let t = form_encoded(s);
    lemma_escapes_round_trip(encode_utf8(s));
    assert forall|i: int| 0 <= i < t.len() implies 0 <= #[trigger] t[i] as u32 && (t[i] as u32) < 128 by {
        assert(t[i] == e[i] as char);
    }
    vstd::utf8::is_ascii_chars_encode_utf8(t);
    assert(encode_utf8(t) =~= e);
}

/// The text that a form encoded text stands for.
pub fn form_decode(value: &str) -> (r: String)
    ensures
        r@ == form_decoded(value@),
        forall|t: Seq<char>| #[trigger] encode_utf8(t) == form_bytes(encode_utf8(value@)) ==> r@ == t,
{
    let b: &[u8] = value.as_bytes();
    let _len: usize = b.len();
    let mut out: Vec<u8> = Vec::new();
    let mut i: usize = 0;
    let ghost all = b@;
    assert(all.subrange(0, all.len() as int) =~= all);
    assert(out@ + form_bytes(all) =~= form_bytes(all));
    while i < b.len()
        invariant
            i <= b@.len() <= usize::MAX,
            all == b@,
            all == encode_utf8(value@),
            out@ + form_bytes(all.subrange(i as int, all.len() as int)) == form_bytes(all),
        decreases b@.len() - i,
    {
        let ghost rest = all.subrange(i as int, all.len() as int);
        let ghost before = out@;
        assert(rest[0] == b@[i as int]);
        assert(rest.drop_first() =~= all.subrange(i + 1, all.len() as int));
        if b[i] == 43 {
            out.push(32);
            i = i + 1;
            assert(out@ + form_bytes(rest.drop_first()) =~= before + form_bytes(rest));
        } else {
            let mut escaped: Option<u8> = None;
            if b[i] == 37 && b.len() - i > 2 {
                assert(rest[1] == b@[i + 1] && rest[2] == b@[i + 2]);
                match (hex_value(b[i + 1] as char), hex_value(b[i + 2] as char)) {
                    (Some(hi), Some(lo)) => {
                        escaped = Some(hi * 16 + lo);
                    },
                    _ => {},
                }
            }
            match escaped {
                Some(x) => {
                    out.push(x);
                    assert(rest.subrange(3, rest.len() as int) =~= all.subrange(
                        i + 3,
                        all.len() as int,
                    ));
                    i = i + 3;
                    assert(out@ + form_bytes(all.subrange(i as int, all.len() as int)) =~= before
                        + form_bytes(rest));
                },
                None => {
                    out.push(b[i]);
                    i = i + 1;
                    assert(out@ + form_bytes(rest.drop_first()) =~= before + form_bytes(rest));
                },
            }
        }
    }
    assert(out@ =~= form_bytes(all));
    utf8_lossy(&out)
}

fn form_digit(n: u8) -> (r: char)
    requires
        n < 16,
    ensures
        r == hex_char(n as int, false),
        (r as u8) as char == r,
{
    if n < 10 {
        (48 + n) as char
    } else {
        (87 + n) as char
    }
}

/// The form encoding of a text.
pub fn form_encode(value: &str) -> (r: String)
    ensures
        r@ == form_encoded(value@),
{
    let b: &[u8] = value.as_bytes();
    let mut out: String = String::new();
    let mut i: usize = 0;
    let ghost all = b@;
    assert(all.subrange(0, all.len() as int) =~= all);
    assert(out@ + ascii_text(form_escapes(all)) =~= ascii_text(form_escapes(all)));
    while i < b.len()
        invariant
            i <= b@.len(),
            all == b@,
            out@ + ascii_text(form_escapes(all.subrange(i as int, all.len() as int))) == ascii_text(
                form_escapes(all),
            ),
        decreases b@.len() - i,
    {
        let ghost rest = all.subrange(i as int, all.len() as int);
        let ghost before = out@;
        assert(rest.drop_first() =~= all.subrange(i + 1, all.len() as int));
        let x: u8 = b[i];
        if (65 <= x && x <= 90) || (97 <= x && x <= 122) || (48 <= x && x <= 57) || x == 45 || x
            == 95 || x == 46 || x == 33 || x == 42 || x == 40 || x == 41 {
            out.push(x as char);
        } else if x == 32 {
            out.push('+');
        } else {
            out.push('%');
            out.push(form_digit(x / 16));
            out.push(form_digit(x % 16));
        }
        assert(43u8 as char == '+' && 37u8 as char == '%');
        assert(out@ =~= before + ascii_text(form_escape(x)));
        i = i + 1;
        assert(out@ + ascii_text(form_escapes(rest.drop_first())) =~= before + ascii_text(
            form_escapes(rest),
        ));
    }
    assert(ascii_text(form_escapes(all.subrange(i as int, all.len() as int))) =~= Seq::<
        char,
    >::empty());
    assert(out@ =~= ascii_text(form_escapes(all)));
    out
}

/// One parameter of a query.
#[derive(Debug)]
pub struct QueryPair {
    pub key: String,
    pub value: String,
    pub has_equals: bool,
}

/// Model of `QueryPair`.
pub struct QueryPairView {
    pub key: Seq<char>,
    pub value: Seq<char>,
    pub has_equals: bool,
}

impl DeepView for QueryPair {
    type V = QueryPairView;

    open spec fn deep_view(&self) -> QueryPairView {
        QueryPairView { key: self.key@, value: self.value@, has_equals: self.has_equals }
    }
}

/// The parameter that a part of a query writes.
pub open spec fn query_pair(part: Seq<char>) -> QueryPairView {
    match split_once(part, "="@) {
        Some((key, value)) => QueryPairView {
            key: form_decoded(key),
            value: form_decoded(value),
            has_equals: true,
        },
        None => QueryPairView { key: form_decoded(part), value: ""@, has_equals: false },
    }
}

/// The parameters of the parts that are not empty.
pub open spec fn query_pairs(parts: Seq<Seq<char>>) -> Seq<QueryPairView>
    decreases parts.len(),
{
    if parts.len() == 0 {
        Seq::empty()
    } else if parts.last().len() == 0 {
        query_pairs(parts.drop_last())
    } else {
        query_pairs(parts.drop_last()).push(query_pair(parts.last()))
    }
}

/// The parameters of a query, in order.
pub open spec fn query_parameters(query: Seq<char>) -> Seq<QueryPairView> {
    query_pairs(split(trim_end_char(query, '?'), "&"@))
}

fn parse_query(query: &str) -> (r: Vec<QueryPair>)
    ensures
        r.deep_view() == query_parameters(query@),
{
    proof {
        reveal_strlit("&");
    }
    let parts: Vec<String> = split_text(trimmed_end_char(query, '?'), "&");
    let ghost all = parts.deep_view();
    let mut out: Vec<QueryPair> = Vec::new();
    let mut i: usize = 0;
    assert(all.subrange(0, 0) =~= Seq::<Seq<char>>::empty());
    assert(out.deep_view() =~= Seq::<QueryPairView>::empty());
    while i < parts.len()
        invariant
            i <= parts@.len(),
            all == parts.deep_view(),
            out.deep_view() == query_pairs(all.subrange(0, i as int)),
        decreases parts@.len() - i,
    {
        let ghost head = all.subrange(0, i + 1);
        assert(head.drop_last() =~= all.subrange(0, i as int));
        assert(head.last() == parts@[i as int]@);
        let part: &str = parts[i].as_str();
        if part.unicode_len() > 0 {
            let pair: QueryPair = match cut_once(part, "=") {
                Some((key, value)) => QueryPair {
                    key: form_decode(key),
                    value: form_decode(value),
                    has_equals: true,
                },
                None => QueryPair { key: form_decode(part), value: owned(""), has_equals: false },
            };
            let ghost before = out.deep_view();
            assert(pair.deep_view() == query_pair(part@));
            out.push(pair);
            assert(out.deep_view() =~= before.push(pair.deep_view()));
        }
        i = i + 1;
    }
    assert(all.subrange(0, all.len() as int) =~= all);
    out
}

/// The first parameter with a key, from position `i` on.
pub open spec fn pair_from(pairs: Seq<QueryPairView>, key: Seq<char>, i: int) -> Option<int>
    decreases pairs.len() - i,
{
    if i < 0 || i >= pairs.len() {
        None
    } else if pairs[i].key == key {
        Some(i)
    } else {
        pair_from(pairs, key, i + 1)
    }
}

fn pair_position(pairs: &Vec<QueryPair>, key: &str) -> (r: Option<usize>)
    ensures
        match r {
            Some(i) => i < pairs@.len() && pair_from(pairs.deep_view(), key@, 0) == Some(i as int),
            None => pair_from(pairs.deep_view(), key@, 0) is None,
        },
{
    let ghost all = pairs.deep_view();
    let mut i: usize = 0;
    while i < pairs.len()
        invariant
            i <= pairs@.len(),
            all == pairs.deep_view(),
            pair_from(all, key@, 0) == pair_from(all, key@, i as int),
        decreases pairs@.len() - i,
    {
        assert(all[i as int] == pairs@[i as int].deep_view());
        if same(pairs[i].key.as_str(), key) {
            return Some(i);
        }
        i = i + 1;
    }
    None
}

/// Two values of one key, with a comma between where both hold something.
pub open spec fn joined_pair(a: QueryPairView, b: QueryPairView) -> QueryPairView {
    QueryPairView {
        key: a.key,
        has_equals: a.has_equals || b.has_equals,
        value: if a.value.len() == 0 {
            b.value
        } else if b.value.len() == 0 {
            a.value
        } else {
            a.value + ","@ + b.value
        },
    }
}

/// The parameters with each key once, where it stands first.
pub open spec fn merged_pairs(pairs: Seq<QueryPairView>) -> Seq<QueryPairView>
    decreases pairs.len(),
{
    if pairs.len() == 0 {
        Seq::empty()
    } else {
        let head = merged_pairs(pairs.drop_last());
        match pair_from(head, pairs.last().key, 0) {
            Some(i) => head.update(i, joined_pair(head[i], pairs.last())),
            None => head.push(pairs.last()),
        }
    }
}

fn join_duplicate_query_pairs(pairs: &Vec<QueryPair>) -> (r: Vec<QueryPair>)
    ensures
        r.deep_view() == merged_pairs(pairs.deep_view()),
{
    let ghost all = pairs.deep_view();
    let mut out: Vec<QueryPair> = Vec::new();
    let mut i: usize = 0;
    assert(all.subrange(0, 0) =~= Seq::<QueryPairView>::empty());
    assert(out.deep_view() =~= Seq::<QueryPairView>::empty());
    while i < pairs.len()
        invariant
            i <= pairs@.len(),
            all == pairs.deep_view(),
            out.deep_view() == merged_pairs(all.subrange(0, i as int)),
        decreases pairs@.len() - i,
    {
        let ghost head = all.subrange(0, i + 1);
        assert(head.drop_last() =~= all.subrange(0, i as int));
        let pair: &QueryPair = &pairs[i];
        assert(head.last() == pair.deep_view());
        let ghost before = out.deep_view();
        match pair_position(&out, pair.key.as_str()) {
            Some(k) => {
                assert(before[k as int] == out@[k as int].deep_view());
                let value: String = if out[k].value.as_str().unicode_len() == 0 {
                    pair.value.clone()
                } else if pair.value.as_str().unicode_len() == 0 {
                    out[k].value.clone()
                } else {
                    cat3(out[k].value.as_str(), ",", pair.value.as_str())
                };
                let joined: QueryPair = QueryPair {
                    key: out[k].key.clone(),
                    value,
                    has_equals: out[k].has_equals || pair.has_equals,
                };
                assert(joined.deep_view() == joined_pair(before[k as int], pair.deep_view()));
                out.set(k, joined);
                assert(out.deep_view() =~= before.update(k as int, joined.deep_view()));
            },
            None => {
                let copy: QueryPair = QueryPair {
                    key: pair.key.clone(),
                    value: pair.value.clone(),
                    has_equals: pair.has_equals,
                };
                out.push(copy);
                assert(out.deep_view() =~= before.push(pair.deep_view()));
            },
        }
        i = i + 1;
    }
    assert(all.subrange(0, all.len() as int) =~= all);
    out
}

/// The parameters before position `n` that do not have a key, besides the one at `keep`.
pub open spec fn without_key(pairs: Seq<QueryPairView>, key: Seq<char>, keep: int, n: int) -> Seq<
    QueryPairView,
>
    decreases n,
{
    if n <= 0 || n > pairs.len() {
        Seq::empty()
    } else if pairs[n - 1].key != key || n - 1 == keep {
        without_key(pairs, key, keep, n - 1).push(pairs[n - 1])
    } else {
        without_key(pairs, key, keep, n - 1)
    }
}

/// The parameters with one set: in the place of the first with its key, all further ones dropped;
/// at the end where there is none, or where it has no value.
pub open spec fn with_pair(pairs: Seq<QueryPairView>, pair: QueryPairView) -> Seq<QueryPairView> {
    match pair_from(pairs, pair.key, 0) {
        Some(i) => if pair.has_equals {
            without_key(pairs.update(i, pair), pair.key, i, pairs.len() as int)
        } else {
            pairs.push(pair)
        },
        None => pairs.push(pair),
    }
}

fn set_or_add_query_pair(pairs: &mut Vec<QueryPair>, pair: QueryPair)
    ensures
        final(pairs).deep_view() == with_pair(old(pairs).deep_view(), pair.deep_view()),
{
    let ghost start = pairs.deep_view();
    let ghost view = pair.deep_view();
    match pair_position(pairs, pair.key.as_str()) {
        Some(first) => {
            if pair.has_equals {
                let key: String = pair.key.clone();
                pairs.set(first, pair);
                let ghost all = pairs.deep_view();
                assert(all =~= start.update(first as int, view));
                let mut kept: Vec<QueryPair> = Vec::new();
                let mut i: usize = 0;
                assert(kept.deep_view() =~= Seq::<QueryPairView>::empty());
                while i < pairs.len()
                    invariant
                        i <= pairs@.len(),
                        all == pairs.deep_view(),
                        kept.deep_view() == without_key(all, key@, first as int, i as int),
                    decreases pairs@.len() - i,
                {
                    assert(all[i as int] == pairs@[i as int].deep_view());
                    if !same(pairs[i].key.as_str(), key.as_str()) || i == first {
                        let copy: QueryPair = QueryPair {
                            key: pairs[i].key.clone(),
                            value: pairs[i].value.clone(),
                            has_equals: pairs[i].has_equals,
                        };
                        let ghost before = kept.deep_view();
                        kept.push(copy);
                        assert(kept.deep_view() =~= before.push(copy.deep_view()));
                    }
                    i = i + 1;
                }
                *pairs = kept;
            } else {
                pairs.push(pair);
                assert(pairs.deep_view() =~= start.push(view));
            }
        },
        None => {
            pairs.push(pair);
            assert(pairs.deep_view() =~= start.push(view));
        },
    }
}

/// One parameter as it is written.
pub open spec fn pair_text(p: QueryPairView) -> Seq<char> {
    if p.has_equals {
        form_encoded(p.key) + "="@ + form_encoded(p.value)
    } else {
        form_encoded(p.key)
    }
}

/// A query as it is written.
pub open spec fn query_text(pairs: Seq<QueryPairView>) -> Seq<char> {
    join(pairs.map_values(|p: QueryPairView| pair_text(p)), "&"@)
}

fn format_query(pairs: &Vec<QueryPair>) -> (r: String)
    ensures
        r@ == query_text(pairs.deep_view()),
{
    let ghost all = pairs.deep_view();
    let mut out: Vec<String> = Vec::new();
    let mut i: usize = 0;
    while i < pairs.len()
        invariant
            i <= pairs@.len(),
            all == pairs.deep_view(),
            out.deep_view() =~= all.subrange(0, i as int).map_values(
                |p: QueryPairView| pair_text(p),
            ),
        decreases pairs@.len() - i,
    {
        let key: String = form_encode(pairs[i].key.as_str());
        let text: String = if pairs[i].has_equals {
            let value: String = form_encode(pairs[i].value.as_str());
            cat3(key.as_str(), "=", value.as_str())
        } else {
            key
        };
        assert(text@ == pair_text(all[i as int]));
        let ghost before = out.deep_view();
        out.push(text);
        assert(out.deep_view() =~= before.push(text@));
        i = i + 1;
    }
    assert(all.subrange(0, all.len() as int) =~= all);
    join_texts(&out, "&")
}

/// The parameters of `source` set one after the other.
pub open spec fn with_pairs(target: Seq<QueryPairView>, source: Seq<QueryPairView>) -> Seq<
    QueryPairView,
>
    decreases source.len(),
{
    if source.len() == 0 {
        target
    } else {
        with_pair(with_pairs(target, source.drop_last()), source.last())
    }
}

/// A URL with the parameters of another set in its query; its fragment is dropped.
pub open spec fn with_query_of(url: Seq<char>, source_url: Seq<char>) -> Seq<char> {
    let source = query_of(source_url);
    if source.len() == 0 {
        url
    } else {
        let pairs = with_pairs(
            query_parameters(query_of(url)),
            merged_pairs(query_parameters(source)),
        );
        if pairs.len() == 0 {
            bare_url(url)
        } else {
            bare_url(url) + "?"@ + query_text(pairs)
        }
    }
}

/// A URL with the parameters of another set in its query.
pub fn append_query_params(url: &str, source_url: &str) -> (r: String)
    ensures
        r@ == with_query_of(url@, source_url@),
{
    let source: &str = query_part(source_url);
    if source.unicode_len() == 0 {
        return owned(url);
    }
    let mut target: Vec<QueryPair> = parse_query(query_part(url));
    let raw: Vec<QueryPair> = parse_query(source);
    let pairs: Vec<QueryPair> = join_duplicate_query_pairs(&raw);
    let ghost all = pairs.deep_view();
    let ghost start = target.deep_view();
    let mut i: usize = 0;
    assert(all.subrange(0, 0) =~= Seq::<QueryPairView>::empty());
    while i < pairs.len()
        invariant
            i <= pairs@.len(),
            all == pairs.deep_view(),
            target.deep_view() == with_pairs(start, all.subrange(0, i as int)),
        decreases pairs@.len() - i,
    {
        let ghost head = all.subrange(0, i + 1);
        assert(head.drop_last() =~= all.subrange(0, i as int));
        let copy: QueryPair = QueryPair {
            key: pairs[i].key.clone(),
            value: pairs[i].value.clone(),
            has_equals: pairs[i].has_equals,
        };
        assert(head.last() == copy.deep_view());
        set_or_add_query_pair(&mut target, copy);
        i = i + 1;
    }
    assert(all.subrange(0, all.len() as int) =~= all);
    let path: &str = bare_part(url);
    if target.len() == 0 {
        owned(path)
    } else {
        let query: String = format_query(&target);
        cat3(path, "?", query.as_str())
    }
}

} // verus!
