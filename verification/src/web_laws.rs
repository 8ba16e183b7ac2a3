//! What becomes of URLs, headers and answers.

use crate::error::ErrorView;
use crate::http::{
    decoded_body, decoded_by, decoded_once, header_map, is_transport_stream, marked_packets,
    path_end, redirect_target, redirected, response_step, ResponseStepView,
};
use crate::outside::{brotli_plain, gzip_plain, joined_url, url_error_of};
use crate::processor::{base_of, request_headers, with_header, ParserConfigView};
use crate::text::{dec, lower, split, trim};
use crate::text_laws::{
    law_cut_at_a_character, law_no_cut_without_the_character, law_split_at_a_character,
    law_split_without_the_character,
};
use crate::text_map::{law_lookup_after_put, lookup};
use crate::url::{
    bare_url, combined_url, pair_from, query_of, with_pair, with_pairs, with_query_of, without_key,
    QueryPairView,
};
use vstd::prelude::*;

verus! {

/// A URL is taken apart into what it names, its query and its fragment.
pub proof fn law_urls_are_taken_apart(path: Seq<char>, query: Seq<char>, fragment: Seq<char>)
    requires
        !path.contains('?'),
        !path.contains('#'),
        !query.contains('#'),
    ensures
        query_of(path + "?"@ + query) == query,
        query_of(path + "?"@ + (query + "#"@ + fragment)) == query,
        bare_url(path + "?"@ + query) == path,
        query_of(path) == ""@,
        bare_url(path) == path,
{
    reveal_strlit("?");
    reveal_strlit("#");
    assert("?"@ =~= seq!['?']);
    assert("#"@ =~= seq!['#']);
    law_cut_at_a_character(path, '?', query);
    law_cut_at_a_character(path, '?', query + "#"@ + fragment);
    law_no_cut_without_the_character(query, '#');
    law_no_cut_without_the_character(path, '#');
    law_no_cut_without_the_character(path, '?');
    law_cut_at_a_character(query, '#', fragment);
}

/// The value that a query holds under a key: that of the first parameter with it.
pub open spec fn value_of(pairs: Seq<QueryPairView>, key: Seq<char>) -> Option<Seq<char>> {
    match pair_from(pairs, key, 0) {
        Some(i) => Some(pairs[i].value),
        None => None,
    }
}

proof fn lemma_pair_from(pairs: Seq<QueryPairView>, key: Seq<char>, i: int)
    requires
        0 <= i <= pairs.len(),
    ensures
        match pair_from(pairs, key, i) {
            Some(k) => i <= k < pairs.len() && pairs[k].key == key && forall|j: int|
                i <= j < k ==> (#[trigger] pairs[j]).key != key,
            None => forall|j: int| i <= j < pairs.len() ==> (#[trigger] pairs[j]).key != key,
        },
    decreases pairs.len() - i,
{
    if i < pairs.len() && pairs[i].key != key {
        lemma_pair_from(pairs, key, i + 1);
    }
}

/// The first parameter of a key is where the first one is.
proof fn lemma_first_of_key(pairs: Seq<QueryPairView>, key: Seq<char>, i: int, k: int)
    requires
        0 <= i <= k < pairs.len(),
        pairs[k].key == key,
        forall|j: int| i <= j < k ==> (#[trigger] pairs[j]).key != key,
    ensures
        pair_from(pairs, key, i) == Some(k),
    decreases k - i,
{
    if i < k {
        lemma_first_of_key(pairs, key, i + 1, k);
    }
}

/// Leaving out the parameters of a key keeps those of another: the value of the other stays.
proof fn lemma_without_key(
    pairs: Seq<QueryPairView>,
    key: Seq<char>,
    keep: int,
    n: int,
    other: Seq<char>,
)
    requires
        0 <= n <= pairs.len(),
        0 <= keep < pairs.len(),
        pairs[keep].key == key,
        other != key,
    ensures
        value_of(without_key(pairs, key, keep, n), other) == value_of(pairs.take(n), other),
        n > keep ==> value_of(without_key(pairs, key, keep, n), key) == Some(pairs[keep].value),
        n <= keep ==> value_of(without_key(pairs, key, keep, n), key) is None,
    decreases n,
{
    let r = without_key(pairs, key, keep, n);
    lemma_pair_from(r, other, 0);
    lemma_pair_from(r, key, 0);
    lemma_pair_from(pairs.take(n), other, 0);
    if n > 0 {
        lemma_without_key(pairs, key, keep, n - 1, other);
        let before = without_key(pairs, key, keep, n - 1);
        lemma_pair_from(before, other, 0);
        lemma_pair_from(before, key, 0);
        lemma_pair_from(pairs.take(n - 1), other, 0);
        assert(pairs.take(n) =~= pairs.take(n - 1).push(pairs[n - 1]));
        lemma_value_of_push(pairs.take(n - 1), pairs[n - 1], other);
        if r != before {
            lemma_value_of_push(before, pairs[n - 1], other);
            lemma_value_of_push(before, pairs[n - 1], key);
        }
    }
}

/// One more parameter at the end counts where its key is new.
proof fn lemma_value_of_push(pairs: Seq<QueryPairView>, p: QueryPairView, key: Seq<char>)
    ensures
        value_of(pairs.push(p), key) == match value_of(pairs, key) {
            Some(v) => Some(v),
            None => if p.key == key {
                Some(p.value)
            } else {
                None
            },
        },
{
    let all = pairs.push(p);
    lemma_pair_from(pairs, key, 0);
    lemma_pair_from(all, key, 0);
    match pair_from(pairs, key, 0) {
        Some(k) => {
            assert(all[k] == pairs[k]);
            assert forall|j: int| 0 <= j < k implies (#[trigger] all[j]).key != key by {
                assert(all[j] == pairs[j]);
            }
            lemma_first_of_key(all, key, 0, k);
        },
        None => {
            if p.key == key {
                let k = pairs.len() as int;
                assert forall|j: int| 0 <= j < k implies (#[trigger] all[j]).key != key by {
                    assert(all[j] == pairs[j]);
                }
                lemma_first_of_key(all, key, 0, k);
            } else {
                match pair_from(all, key, 0) {
                    Some(k) => {
                        if k < pairs.len() {
                            assert(all[k] == pairs[k]);
                        }
                    },
                    None => {},
                }
            }
        },
    }
}

/// A parameter that is set has its value, and every other parameter keeps its own.
pub proof fn law_set_parameter_has_its_value(
    pairs: Seq<QueryPairView>,
    pair: QueryPairView,
    other: Seq<char>,
)
    requires
        pair.has_equals,
        other != pair.key,
    ensures
        value_of(with_pair(pairs, pair), pair.key) == Some(pair.value),
        value_of(with_pair(pairs, pair), other) == value_of(pairs, other),
{
    lemma_pair_from(pairs, pair.key, 0);
    match pair_from(pairs, pair.key, 0) {
        Some(i) => {
            let changed = pairs.update(i, pair);
            lemma_without_key(changed, pair.key, i, pairs.len() as int, other);
            assert(changed.take(pairs.len() as int) =~= changed);
            lemma_pair_from(pairs, other, 0);
            lemma_pair_from(changed, other, 0);
            match pair_from(pairs, other, 0) {
                Some(k) => {
                    assert(changed[k] == pairs[k]);
                    assert forall|j: int| 0 <= j < k implies (#[trigger] changed[j]).key != other by {
                        assert(j == i || changed[j] == pairs[j]);
                    }
                    lemma_first_of_key(changed, other, 0, k);
                },
                None => {
                    match pair_from(changed, other, 0) {
                        Some(k) => {
                            assert(k == i || changed[k] == pairs[k]);
                        },
                        None => {},
                    }
                },
            }
        },
        None => {
            lemma_value_of_push(pairs, pair, pair.key);
            lemma_value_of_push(pairs, pair, other);
        },
    }
}

/// Every parameter that is set, one after the other, has the value that was set last for its key; what
/// is not set stays.
pub proof fn law_set_parameters_count(
    target: Seq<QueryPairView>,
    source: Seq<QueryPairView>,
    key: Seq<char>,
)
    requires
        forall|i: int| 0 <= i < source.len() ==> (#[trigger] source[i]).has_equals,
    ensures
        (forall|i: int| 0 <= i < source.len() ==> (#[trigger] source[i]).key != key) ==> value_of(
            with_pairs(target, source),
            key,
        ) == value_of(target, key),
        source.len() > 0 ==> value_of(with_pairs(target, source), source.last().key) == Some(
            source.last().value,
        ),
    decreases source.len(),
{
    if source.len() > 0 {
        let head = source.drop_last();
        let last = source.last();
        assert(last.has_equals);
        assert forall|i: int| 0 <= i < head.len() implies (#[trigger] head[i]).has_equals by {
            assert(head[i] == source[i]);
        }
        law_set_parameters_count(target, head, key);
        if key != last.key {
            law_set_parameter_has_its_value(with_pairs(target, head), last, key);
        } else {
            assert(source[source.len() - 1].key == key);
        }
        assert(last.key.push('x').len() != last.key.len());
        law_set_parameter_has_its_value(with_pairs(target, head), last, last.key.push('x'));
        if forall|i: int| 0 <= i < source.len() ==> (#[trigger] source[i]).key != key {
            assert forall|i: int| 0 <= i < head.len() implies (#[trigger] head[i]).key != key by {
                assert(head[i] == source[i]);
            }
        }
    }
}

/// A URL stays as it is where the other has no query.
pub proof fn law_no_query_to_take(url: Seq<char>, source: Seq<char>)
    requires
        query_of(source).len() == 0,
    ensures
        with_query_of(url, source) == url,
{
}

/// Without a base a reference is the URL; else it is joined to the base, with its braces kept.
pub proof fn law_references_are_joined(base: Seq<char>, value: Seq<char>)
    ensures
        combined_url(Seq::empty(), value) == value,
        base.len() > 0 && joined_url(base, value) is None && url_error_of(value) is None
            ==> combined_url(base, value) == value,
        base.len() > 0 && joined_url(base, value) is Some && !joined_url(base, value)->0.contains('%')
            ==> combined_url(base, value) == joined_url(base, value)->0,
{
    reveal_strlit("%7B");
    reveal_strlit("%7D");
    if base.len() > 0 && joined_url(base, value) is Some && !joined_url(base, value)->0.contains('%') {
        let j = joined_url(base, value)->0;
        crate::text_laws::lemma_lacks_first(j, "%7B"@);
        crate::text_laws::lemma_lacks_first(j, "%7D"@);
    }
}

/// The base of the user comes before the URL of the manifest.
pub proof fn law_base_of_the_user_counts(manifest_url: Seq<char>, config: ParserConfigView)
    ensures
        config.base_url.len() > 0 ==> base_of(manifest_url, config) == config.base_url,
        config.base_url.len() == 0 ==> base_of(manifest_url, config) == manifest_url,
{
}

/// Success is taken, a redirect to another place is followed, and anything else fails with its number
/// and its URL.
pub proof fn law_answers(url: Seq<char>, status: u16, location: Option<Seq<char>>)
    ensures
        200 <= status <= 299 ==> response_step(url, status, location) == ResponseStepView::Take,
        300 <= status <= 399 && location is Some && redirect_target(url, location->0) != url
            ==> response_step(url, status, location) == ResponseStepView::Follow(
            redirect_target(url, location->0),
        ),
        status < 200 || status >= 400 ==> response_step(url, status, location)
            == ResponseStepView::Fail(
            ErrorView::Http("HTTP status "@ + dec(status as nat) + " for "@ + url),
        ),
        location is None ==> redirected(url, status, location) is None,
        joined_url(url, location->0) is Some && location is Some ==> redirect_target(
            url,
            location->0,
        ) == joined_url(url, location->0)->0,
{
}

/// The path of a reference ends where its query or its fragment begins, whichever is first.
pub proof fn law_paths_end(path: Seq<char>, rest: Seq<char>)
    requires
        !path.contains('?'),
        !path.contains('#'),
    ensures
        path_end(path + "?"@ + rest) == path.len(),
        path_end(path + "#"@ + rest) == path.len(),
        path_end(path) == path.len(),
{
    reveal_strlit("?");
    reveal_strlit("#");
    assert("?"@ =~= seq!['?']);
    assert("#"@ =~= seq!['#']);
    law_cut_at_a_character(path, '?', rest);
    law_cut_at_a_character(path, '#', rest);
    law_no_cut_without_the_character(path, '?');
    law_no_cut_without_the_character(path, '#');
    let a = path + "?"@ + rest;
    let b = path + "#"@ + rest;
    crate::text::lemma_find_from(a, "#"@, 0);
    crate::text::lemma_find_from(b, "?"@, 0);
    match crate::text::find(a, "#"@) {
        Some(k) => {
            crate::text_laws::lemma_char_occurs(a, '#', k);
            if k < path.len() {
                assert(a[k] == path[k]);
            } else {
                assert(a[path.len() as int] == '?');
            }
        },
        None => {},
    }
    match crate::text::find(b, "?"@) {
        Some(k) => {
            crate::text_laws::lemma_char_occurs(b, '?', k);
            if k < path.len() {
                assert(b[k] == path[k]);
            } else {
                assert(b[path.len() as int] == '#');
            }
        },
        None => {},
    }
}

/// The headers of an answer are known by their names in lower case; the last of a name counts.
pub proof fn law_last_header_counts(headers: Seq<(Seq<char>, Seq<char>)>, n: int)
    requires
        0 < n <= headers.len(),
    ensures
        lookup(header_map(headers, n), lower(headers[n - 1].0)) == Some(headers[n - 1].1),
{
    law_lookup_after_put(
        header_map(headers, n - 1),
        lower(headers[n - 1].0),
        headers[n - 1].1,
        lower(headers[n - 1].0),
    );
}

/// A body without an encoding stays; one in gzip or brotli is undone by that; an encoding that is not
/// known changes nothing.
pub proof fn law_bodies_are_decoded(body: Seq<u8>, headers: Seq<(Seq<char>, Seq<char>)>)
    ensures
        lookup(headers, "content-encoding"@) is None ==> decoded_body(body, headers) == Ok::<
            Seq<u8>,
            ErrorView,
        >(body),
        body.len() >= 2 && body[0] == 0x1f && body[1] == 0x8b && gzip_plain(body) is Ok
            ==> decoded_once("gzip"@, body) == Ok::<Seq<u8>, ErrorView>(gzip_plain(body)->Ok_0),
        body.len() >= 2 && body[0] == 0x1f && body[1] != 0x8b ==> decoded_once("gzip"@, body)
            == Ok::<Seq<u8>, ErrorView>(body),
        brotli_plain(body) is Ok ==> decoded_once("br"@, body) == Ok::<Seq<u8>, ErrorView>(
            brotli_plain(body)->Ok_0,
        ),
        decoded_once("identity"@, body) == Ok::<Seq<u8>, ErrorView>(body),
{
    reveal_strlit("gzip");
    reveal_strlit("deflate");
    reveal_strlit("br");
    reveal_strlit("identity");
    assert("gzip"@.len() == 4 && "deflate"@.len() == 7 && "br"@.len() == 2 && "identity"@.len()
        == 8);
}

/// Several encodings are undone in the order in which they are listed.
pub proof fn law_encodings_are_undone_in_order(a: Seq<char>, b: Seq<char>, body: Seq<u8>)
    requires
        !a.contains(','),
        !b.contains(','),
        decoded_once(lower(trim(a)), body) is Ok,
    ensures
        decoded_by(split(a + ","@ + b, ","@), 2, body) == decoded_once(
            lower(trim(b)),
            decoded_once(lower(trim(a)), body)->Ok_0,
        ),
{
    reveal_strlit(",");
    assert(","@ =~= seq![',']);
    law_split_at_a_character(a, ',', b);
    law_split_without_the_character(b, ',');
    let parts = split(a + ","@ + b, ","@);
    assert(parts =~= seq![a, b]);
    assert(decoded_by(parts, 0, body) == Ok::<Seq<u8>, ErrorView>(body));
    assert(decoded_by(parts, 1, body) == decoded_once(lower(trim(a)), body));
}

/// The header that the user gives is the one that is sent, whatever the case of its name.
pub proof fn law_last_header_of_the_user(
    user: Seq<(Seq<char>, Seq<char>)>,
    key: Seq<char>,
    value: Seq<char>,
)
    ensures
        lookup(request_headers(user.push((key, value))), key) == Some(value),
        lookup(request_headers(Seq::empty()), "user-agent"@) == Some(
            crate::processor::default_user_agent(),
        ),
{
    let all = user.push((key, value));
    assert(all.drop_last() =~= user);
    let before = crate::processor::with_headers_of(
        with_header(Seq::empty(), "user-agent"@, crate::processor::default_user_agent()),
        user,
    );
    crate::processor::law_user_header_wins(before, key, value);
    crate::processor::law_user_header_wins(
        Seq::empty(),
        "user-agent"@,
        crate::processor::default_user_agent(),
    );
}

/// Five marked packets are a transport stream, and fewer than three are not.
pub proof fn law_transport_streams(b: Seq<u8>)
    requires
        b.len() >= 940,
    ensures
        b[0] == 0x47 && b[188] == 0x47 && b[376] == 0x47 ==> is_transport_stream(b),
        b[0] != 0x47 && b[188] != 0x47 && b[376] != 0x47 ==> !is_transport_stream(b),
{
    reveal_with_fuel(marked_packets, 6);
}

} // verus!
