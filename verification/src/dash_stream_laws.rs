//! What a DASH manifest says of its streams, and how its elements are found.

use crate::codec::{hex_text, law_hex_round_trip};
use crate::dash::{
    after_representation, dash_encryption, dash_media_type, extended_base, first_word, is_protected,
    kid_bytes, mime_extension, mpd_of, protected_stream, protection_at, protections,
    representation_of, resolution_of, text_of_child, with_default_tracks, with_fragment_extension,
    with_stream, word_end, DashContextView, PeriodView,
};
use crate::manifest::{EncryptionInfoView, EncryptionMethod, MediaType, StreamView};
use crate::numeric::manifest_number;
use crate::text::{contains, is_space, replace, split, take, trim_char};
use crate::text_laws::{
    law_contains_char, law_replace_first, law_replace_without_occurrence, law_split_at_a_character,
    law_split_without_the_character, law_trim_keeps,
};
use crate::url::combined_url;
use crate::xml::{attr_from, attr_of, children, children_from, first_child, is_child, XmlNodeView};
use vstd::prelude::*;

verus! {

proof fn lemma_children(doc: Seq<XmlNodeView>, parent: int, name: Seq<char>, i: int)
    requires
        0 <= i <= doc.len(),
    ensures
        ({
            let all = children_from(doc, parent, name, i);
            &&& forall|k: int|
                0 <= k < all.len() ==> i <= (#[trigger] all[k]) < doc.len() && is_child(
                    doc[all[k]],
                    parent,
                    name,
                )
            &&& forall|j: int, k: int| 0 <= j < k < all.len() ==> #[trigger] all[j] < #[trigger] all[k]
            &&& forall|n: int|
                i <= n < doc.len() && is_child(#[trigger] doc[n], parent, name) ==> all.contains(n)
        }),
    decreases doc.len() - i,
{
    let all = children_from(doc, parent, name, i);
    if i < doc.len() {
        lemma_children(doc, parent, name, i + 1);
        let rest = children_from(doc, parent, name, i + 1);
        if is_child(doc[i], parent, name) {
            assert forall|k: int| 0 <= k < all.len() implies i <= (#[trigger] all[k]) < doc.len()
                && is_child(doc[all[k]], parent, name) by {
                if k > 0 {
                    assert(all[k] == rest[k - 1]);
                }
            }
            assert forall|j: int, k: int| 0 <= j < k < all.len() implies #[trigger] all[j]
                < #[trigger] all[k] by {
                assert(all[k] == rest[k - 1]);
                if j > 0 {
                    assert(all[j] == rest[j - 1]);
                }
            }
            assert forall|n: int|
                i <= n < doc.len() && is_child(#[trigger] doc[n], parent, name) implies all.contains(
                n,
            ) by {
                if n == i {
                    assert(all[0] == n);
                } else {
                    assert(rest.contains(n));
                    let k = choose|k: int| 0 <= k < rest.len() && rest[k] == n;
                    assert(all[k + 1] == n);
                }
            }
        }
    }
}

/// The elements that are found inside another are those of the name, all of them, in the order of the
/// document.
pub proof fn law_elements_are_found(doc: Seq<XmlNodeView>, parent: int, name: Seq<char>)
    ensures
        ({
            let all = children(doc, parent, name);
            &&& forall|k: int|
                0 <= k < all.len() ==> 0 <= (#[trigger] all[k]) < doc.len() && doc[all[k]].name
                    == name && doc[all[k]].parent == Some(parent as usize) && doc[all[k]].is_element
            &&& forall|j: int, k: int| 0 <= j < k < all.len() ==> #[trigger] all[j] < #[trigger] all[k]
            &&& forall|n: int|
                0 <= n < doc.len() && (#[trigger] doc[n]).is_element && doc[n].name == name
                    && doc[n].parent == Some(parent as usize) ==> all.contains(n)
        }),
{
    lemma_children(doc, parent, name, 0);
    let all = children(doc, parent, name);
    assert forall|n: int|
        0 <= n < doc.len() && (#[trigger] doc[n]).is_element && doc[n].name == name && doc[n].parent
            == Some(parent as usize) implies all.contains(n) by {
        assert(is_child(doc[n], parent, name));
    }
}

/// The value of an attribute is that of the first with the name.
pub proof fn law_attributes_are_found(
    attributes: Seq<(Seq<char>, Seq<char>)>,
    name: Seq<char>,
    i: int,
    k: int,
)
    requires
        0 <= i <= k < attributes.len(),
        attributes[k].0 == name,
        forall|j: int| i <= j < k ==> (#[trigger] attributes[j]).0 != name,
    ensures
        attr_from(attributes, name, i) == Some(attributes[k].1),
    decreases k - i,
{
    if i < k {
        assert(attributes[i].0 != name);
        law_attributes_are_found(attributes, name, i + 1, k);
    }
}

/// The base of an element is its own, joined to the one around it; without an own one that one.
pub proof fn law_bases_are_joined(doc: Seq<XmlNodeView>, node: int, base: Seq<char>, own: Seq<char>)
    ensures
        text_of_child(doc, node, "BaseURL"@) == Some(own) && !contains(own, "kkbox.com.tw/"@)
            ==> extended_base(doc, node, base) == combined_url(base, own),
        text_of_child(doc, node, "BaseURL"@) is None ==> extended_base(doc, node, base) == base,
{
}

/// Audio and text are told by the first part of their type, text also by its codecs; what is neither
/// has no kind.
pub proof fn law_kinds_are_told(rest: Seq<char>, codecs: Seq<char>)
    requires
        codecs != "stpp"@,
        codecs != "wvtt"@,
    ensures
        dash_media_type(Some("audio/"@ + rest), Some(codecs)) == Some(MediaType::Audio),
        dash_media_type(Some("text/"@ + rest), Some(codecs)) == Some(MediaType::Subtitles),
        dash_media_type(Some("video/"@ + rest), Some(codecs)) is None,
        dash_media_type(Some("application/"@ + rest), Some("stpp"@)) == Some(MediaType::Subtitles),
        dash_media_type(Some("application/"@ + rest), Some("wvtt"@)) == Some(MediaType::Subtitles),
{
    reveal_strlit("/");
    reveal_strlit("audio/");
    reveal_strlit("text/");
    reveal_strlit("video/");
    reveal_strlit("audio");
    reveal_strlit("text");
    reveal_strlit("video");
    assert("/"@ =~= seq!['/']);
    assert("audio/"@ + rest =~= "audio"@ + seq!['/'] + rest);
    assert("text/"@ + rest =~= "text"@ + seq!['/'] + rest);
    assert("video/"@ + rest =~= "video"@ + seq!['/'] + rest);
    law_split_at_a_character("audio"@, '/', rest);
    law_split_at_a_character("text"@, '/', rest);
    law_split_at_a_character("video"@, '/', rest);
    assert("text"@.len() == 4 && "audio"@.len() == 5 && "video"@.len() == 5);
    assert("video"@[0] == 'v' && "audio"@[0] == 'a');
}

/// The ending of a stream is the second part of its type.
pub proof fn law_endings_of_types(kind: Seq<char>, ending: Seq<char>)
    requires
        !kind.contains('/'),
        !ending.contains('/'),
    ensures
        mime_extension(Some(kind + "/"@ + ending), false) == Some(ending),
        mime_extension(Some(kind), false) is None,
        mime_extension(None, false) is None,
{
    reveal_strlit("/");
    assert("/"@ =~= seq!['/']);
    law_split_at_a_character(kind, '/', ending);
    law_split_without_the_character(ending, '/');
    law_split_without_the_character(kind, '/');
    assert(split(kind + "/"@ + ending, "/"@) =~= seq![kind, ending]);
}

proof fn lemma_hex(b: Seq<u8>)
    ensures
        hex_text(b, false).len() == 2 * b.len(),
        crate::cli_values::all_hex(hex_text(b, false)),
        forall|i: int|
            0 <= i < hex_text(b, false).len() ==> ('0' <= #[trigger] hex_text(b, false)[i] <= '9'
                || 'a' <= hex_text(b, false)[i] <= 'f'),
    decreases b.len(),
{
    if b.len() > 0 {
        lemma_hex(b.drop_last());
        let t = hex_text(b, false);
        let u = hex_text(b.drop_last(), false);
        assert forall|i: int| 0 <= i < t.len() implies ('0' <= #[trigger] t[i] <= '9' || 'a' <= t[i]
            <= 'f') by {
            if i < u.len() {
                assert(t[i] == u[i]);
            }
        }
        assert forall|i: int| 0 <= i < t.len() implies crate::codec::hex_digit(#[trigger] t[i]) is Some by {
            assert('0' <= t[i] <= '9' || 'a' <= t[i] <= 'f');
        }
    }
}

proof fn lemma_word_end(s: Seq<char>, i: int)
    requires
        0 <= i <= s.len(),
        forall|k: int| i <= k < s.len() ==> !is_space(#[trigger] s[k]),
    ensures
        word_end(s, i) == s.len(),
    decreases s.len() - i,
{
    if i < s.len() {
        lemma_word_end(s, i + 1);
    }
}

/// A text of digits, letters and hyphens is one word without braces.
proof fn lemma_bare_word(s: Seq<char>)
    requires
        s.len() > 0,
        forall|i: int|
            0 <= i < s.len() ==> ('0' <= #[trigger] s[i] <= '9' || 'a' <= s[i] <= 'f' || s[i]
                == '-'),
    ensures
        trim_char(trim_char(first_word(s), '{'), '}') == s,
{
    assert(s[0] == s[0] && s[s.len() - 1] == s.last());
    lemma_word_end(s, 0);
    assert(take(s, s.len() as int) =~= s);
}

/// The key identifier that is stated in hexadecimal, with hyphens or without, is that of its sixteen
/// bytes.
pub proof fn law_key_identifiers_are_read(a: Seq<u8>, b: Seq<u8>, c: Seq<u8>, d: Seq<u8>, e: Seq<u8>)
    requires
        a.len() == 4,
        b.len() == 2,
        c.len() == 2,
        d.len() == 2,
        e.len() == 6,
    ensures
        kid_bytes(hex_text(a + b + c + d + e, false)) == Some(a + b + c + d + e),
        kid_bytes(
            hex_text(a, false) + "-"@ + (hex_text(b, false) + "-"@ + (hex_text(c, false) + "-"@ + (
            hex_text(d, false) + "-"@ + hex_text(e, false)))),
        ) == Some(a + b + c + d + e),
{
    reveal_strlit("-");
    reveal_strlit("");
    let k = a + b + c + d + e;
    let t = hex_text(k, false);
    lemma_hex(k);
    lemma_hex(a);
    lemma_hex(b);
    lemma_hex(c);
    lemma_hex(d);
    lemma_hex(e);
    law_hex_round_trip(k, false);
    lemma_bare_word(t);
    lemma_no_hyphen(t);
    law_replace_without_occurrence(t, "-"@, ""@);
    let (ta, tb, tc, td, te) = (
        hex_text(a, false),
        hex_text(b, false),
        hex_text(c, false),
        hex_text(d, false),
        hex_text(e, false),
    );
    let s3 = td + "-"@ + te;
    let s2 = tc + "-"@ + s3;
    let s1 = tb + "-"@ + s2;
    let s0 = ta + "-"@ + s1;
    lemma_no_hyphen(te);
    law_replace_without_occurrence(te, "-"@, ""@);
    lemma_drop_hyphen(td, te);
    lemma_drop_hyphen(tc, s3);
    lemma_drop_hyphen(tb, s2);
    lemma_drop_hyphen(ta, s1);
    assert(replace(s0, "-"@, ""@) =~= ta + (tb + (tc + (td + te))));
    lemma_hex_joins(a, b);
    lemma_hex_joins(a + b, c);
    lemma_hex_joins(a + b + c, d);
    lemma_hex_joins(a + b + c + d, e);
    assert(ta + (tb + (tc + (td + te))) =~= t);
    assert forall|i: int| 0 <= i < s0.len() implies ('0' <= #[trigger] s0[i] <= '9' || 'a' <= s0[i]
        <= 'f' || s0[i] == '-') by {
        if i < 8 {
            assert(s0[i] == ta[i]);
        } else if 9 <= i < 13 {
            assert(s0[i] == tb[i - 9]);
        } else if 14 <= i < 18 {
            assert(s0[i] == tc[i - 14]);
        } else if 19 <= i < 23 {
            assert(s0[i] == td[i - 19]);
        } else if i >= 24 {
            assert(s0[i] == te[i - 24]);
        }
    }
    lemma_bare_word(s0);
}

proof fn lemma_hex_joins(a: Seq<u8>, b: Seq<u8>)
    ensures
        hex_text(a + b, false) == hex_text(a, false) + hex_text(b, false),
    decreases b.len(),
{
    if b.len() == 0 {
        assert(a + b =~= a);
        assert(hex_text(a, false) + hex_text(b, false) =~= hex_text(a, false));
    } else {
        lemma_hex_joins(a, b.drop_last());
        assert((a + b).drop_last() =~= a + b.drop_last());
        assert((a + b).last() == b.last());
        assert(hex_text(a + b, false) =~= hex_text(a, false) + hex_text(b, false));
    }
}

proof fn lemma_no_hyphen(s: Seq<char>)
    requires
        forall|i: int|
            0 <= i < s.len() ==> ('0' <= #[trigger] s[i] <= '9' || 'a' <= s[i] <= 'f'),
    ensures
        !s.contains('-'),
        !contains(s, "-"@),
{
    reveal_strlit("-");
    assert("-"@ =~= seq!['-']);
    if s.contains('-') {
        let i = choose|i: int| 0 <= i < s.len() && s[i] == '-';
        assert('0' <= s[i] <= '9' || 'a' <= s[i] <= 'f');
    }
    law_contains_char(s, '-');
}

/// A hyphen behind a text without one is taken out.
proof fn lemma_drop_hyphen(a: Seq<char>, b: Seq<char>)
    requires
        forall|i: int|
            0 <= i < a.len() ==> ('0' <= #[trigger] a[i] <= '9' || 'a' <= a[i] <= 'f'),
    ensures
        replace(a + "-"@ + b, "-"@, ""@) == a + replace(b, "-"@, ""@),
{
    reveal_strlit("-");
    reveal_strlit("");
    assert("-"@ =~= seq!['-']);
    let s = a + "-"@ + b;
    assert forall|i: int| 0 <= i < a.len() implies !crate::text::occurs_at(s, "-"@, i) by {
        crate::text_laws::lemma_char_occurs(s, '-', i);
        assert(s[i] == a[i]);
    }
    law_replace_first(a, "-"@, b, ""@);
    assert(a + ""@ + replace(b, "-"@, ""@) =~= a + replace(b, "-"@, ""@));
}

/// The first key identifier and the first scheme of protection elements count.
pub proof fn law_first_protection_counts(doc: Seq<XmlNodeView>, nodes: Seq<int>, n: int)
    requires
        0 <= n < nodes.len(),
    ensures
        protections(doc, nodes, n).kid is Some ==> protections(doc, nodes, n + 1).kid
            == protections(doc, nodes, n).kid,
        protections(doc, nodes, n).scheme is Some ==> protections(doc, nodes, n + 1).scheme
            == protections(doc, nodes, n).scheme,
        protections(doc, nodes, n).first is Some ==> protections(doc, nodes, n + 1).first
            == protections(doc, nodes, n).first,
{
}

/// What a set of representations says of its protection comes before what one of them says.
pub proof fn law_protection_of_the_set_counts(
    doc: Seq<XmlNodeView>,
    adaptation: int,
    representation: int,
)
    ensures
        ({
            let e = dash_encryption(doc, adaptation, representation);
            let a = protection_at(doc, adaptation);
            let b = protection_at(doc, representation);
            &&& e.method == EncryptionMethod::Cenc
            &&& a.kid is Some ==> e.kid == a.kid
            &&& a.kid is None ==> e.kid == b.kid
            &&& a.widevine is Some ==> e.protection_data == a.widevine
            &&& a.widevine is None && a.first is Some ==> e.protection_data == a.first
        }),
{
}

/// Every segment of a protected stream is under its encryption, the initialization segment too, and
/// keeps its URL and its number.
pub proof fn law_protected_segments(s: StreamView, e: EncryptionInfoView, k: int)
    requires
        s.playlist is Some,
        (s.playlist->0).media_parts.len() > 0,
        0 <= k < (s.playlist->0).media_parts[0].len(),
    ensures
        ({
            let before = (s.playlist->0).media_parts[0][k];
            let p = protected_stream(s, e).playlist->0;
            &&& p.media_parts[0][k].encryption == e
            &&& p.media_parts[0][k].url == before.url
            &&& p.media_parts[0][k].index == before.index
            &&& p.media_parts[0].len() == (s.playlist->0).media_parts[0].len()
            &&& (s.playlist->0).media_init is Some ==> p.media_init is Some && (
            p.media_init->0).encryption == e
        }),
{
}

/// A representation adds its stream, under its protection where it has one, with its URLs seen from
/// its own base.
pub proof fn law_representations_add_streams(
    c: DashContextView,
    streams: Seq<StreamView>,
    adaptation: int,
    representation: int,
    carried: Option<Seq<char>>,
    base: Seq<char>,
    period: PeriodView,
)
    requires
        after_representation(
            c,
            streams,
            adaptation,
            representation,
            carried,
            base,
            period,
        ) is Ok,
    ensures
        ({
            let made = representation_of(
                c,
                adaptation,
                representation,
                carried,
                extended_base(c.doc, representation, base),
                period.id,
                period.duration,
            );
            let all = after_representation(
                c,
                streams,
                adaptation,
                representation,
                carried,
                base,
                period,
            )->Ok_0;
            &&& made is Ok
            &&& !is_protected(c.doc, adaptation, representation) ==> all == with_stream(
                streams,
                made->Ok_0,
                c.is_dynamic,
            )
            &&& is_protected(c.doc, adaptation, representation) ==> all == with_stream(
                streams,
                protected_stream(
                    made->Ok_0,
                    dash_encryption(c.doc, adaptation, representation),
                ),
                c.is_dynamic,
            )
        }),
{
}

/// A stream that continues none is added behind the others, which stay.
pub proof fn law_new_streams_come_last(streams: Seq<StreamView>, s: StreamView, is_dynamic: bool)
    requires
        crate::dash::continued_from(streams, s, 0) is None,
    ensures
        with_stream(streams, s, is_dynamic).drop_last() == streams,
        with_stream(streams, s, is_dynamic).last() == s,
{
    assert(with_stream(streams, s, is_dynamic).drop_last() =~= streams);
}

/// A stream with a picture gets the sound and the subtitles of the widest where it names none.
pub proof fn law_default_tracks(s: StreamView, audio: Option<Seq<char>>, subtitle: Option<Seq<char>>)
    ensures
        ({
            let t = with_default_tracks(s, audio, subtitle);
            &&& s.resolution is None ==> t == s
            &&& s.resolution is Some && s.audio_id is None ==> t.audio_id == audio
            &&& s.resolution is Some && s.subtitle_id is None ==> t.subtitle_id == subtitle
            &&& s.audio_id is Some ==> t.audio_id == s.audio_id
            &&& t.url == s.url && t.playlist == s.playlist
        }),
{
}

/// A stream of several segments holds fragments; subtitles only where they are in MP4.
pub proof fn law_fragments_have_their_ending(s: StreamView)
    ensures
        s.media_type != Some(MediaType::Subtitles) && crate::manifest::stream_segments(s) > 1
            ==> with_fragment_extension(s).extension == Some("m4s"@),
        s.media_type == Some(MediaType::Subtitles) && s.extension == Some("mp4"@)
            ==> with_fragment_extension(s).extension == Some("m4s"@),
        s.media_type == Some(MediaType::Subtitles) && s.extension != Some("mp4"@)
            ==> with_fragment_extension(s) == s,
        with_fragment_extension(s).playlist == s.playlist,
{
}

/// A manifest is live where it says that it is dynamic.
pub proof fn law_dynamic_manifests(doc: Seq<XmlNodeView>, mpd: int)
    requires
        mpd_of(doc, mpd) is Ok,
    ensures
        mpd_of(doc, mpd)->Ok_0.is_dynamic <==> attr_of(doc, mpd, "type"@) == Some("dynamic"@),
        attr_of(doc, mpd, "mediaPresentationDuration"@) is None ==> mpd_of(
            doc,
            mpd,
        )->Ok_0.media_duration is None,
{
}

/// Width comes before height.
pub proof fn law_width_comes_first(doc: Seq<XmlNodeView>, node: int)
    ensures
        attr_of(doc, node, "width"@) is Some && attr_of(doc, node, "height"@) is Some
            ==> resolution_of(doc, node) == Some(
            attr_of(doc, node, "width"@)->0 + "x"@ + attr_of(doc, node, "height"@)->0,
        ),
        attr_of(doc, node, "width"@) is None ==> resolution_of(doc, node) is None,
{
}

/// A number that is written without commas is kept as it is written.
pub proof fn law_plain_numbers_are_kept(s: Seq<char>)
    requires
        manifest_number(s) is Some,
        s.len() > 0,
        !is_space(s[0]),
        !is_space(s.last()),
        !s.contains(','),
    ensures
        manifest_number(s) == Some(s),
{
    reveal_strlit(",");
    assert(","@ =~= seq![',']);
    law_contains_char(s, ',');
    law_trim_keeps(s);
}

/// The first element of a name is the first of them.
pub proof fn law_first_element(doc: Seq<XmlNodeView>, parent: int, name: Seq<char>)
    ensures
        children(doc, parent, name).len() > 0 ==> first_child(doc, parent, name) == Some(
            children(doc, parent, name)[0],
        ),
        children(doc, parent, name).len() == 0 ==> first_child(doc, parent, name) is None,
{
}

} // verus!
