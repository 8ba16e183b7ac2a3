//! What the attributes of playlist lines say.

use crate::attribute::{attribute_of, solid_attribute};
use crate::codec::{hex_text, law_hex_round_trip};
use crate::error::ErrorView;
use crate::hls::{
    first_encryption, hls_url, master_line, rendition_of, variant_bandwidth, variant_of,
    MasterState,
};
use crate::manifest::{
    is_token_separator, method_of_token, normal_token, token_char, EncryptionMethod, KeySource,
    MediaType, StreamView,
};
use crate::processor::{
    bare_hex, config_hex, key_info_of, key_line_of, KeyLineView, LoadedKeyView, ParserConfigView,
};
use crate::text::{dec, drop, find, is_space, lemma_find_from, occurs_at, starts_with, take};
use crate::text_laws::{
    law_cut_at_a_character, law_decimal_is_read_within, law_no_cut_without_the_character,
    law_prefix_comes_off, law_trim_keeps, lemma_decimal_is_trim, lemma_prefix_char,
};
use vstd::prelude::*;
use vstd::utf8::encode_utf8;

verus! {

/// A text that begins and ends with a character that is no white space.
pub open spec fn is_firm(s: Seq<char>) -> bool {
    s.len() > 0 && !is_space(s[0]) && !is_space(s.last())
}

/// The value of an attribute in quotes is what stands between them.
pub proof fn law_quoted_attribute_is_read(
    a: Seq<char>,
    key: Seq<char>,
    value: Seq<char>,
    b: Seq<char>,
)
    requires
        key.len() > 0,
        !value.contains('"'),
        is_firm(a + (key + "=\""@) + (value + "\""@ + b)),
        forall|i: int|
            0 <= i < a.len() ==> !occurs_at(
                a + (key + "=\""@) + (value + "\""@ + b),
                key + "=\""@,
                i,
            ),
    ensures
        attribute_of(a + (key + "=\""@) + (value + "\""@ + b), key) == Ok::<
            Option<Seq<char>>,
            ErrorView,
        >(Some(value)),
{
    reveal_strlit("=\"");
    reveal_strlit("\"");
    let name = key + "=\""@;
    let tail = value + "\""@ + b;
    let s = a + name + tail;
    law_trim_keeps(s);
    let n = a.len() as int;
    lemma_find_from(s, name, 0);
    assert(s.subrange(n, n + name.len()) =~= name);
    assert(occurs_at(s, name, n));
    assert(find(s, name) == Some(n));
    assert(drop(s, n + key.len() + 2) =~= tail);
    assert("\""@ =~= seq!['"']);
    law_cut_at_a_character(value, '"', b);
    assert(take(tail, value.len() as int) =~= value);
}

/// The value of an attribute without quotes runs to the next comma.
pub proof fn law_plain_attribute_is_read(
    a: Seq<char>,
    key: Seq<char>,
    value: Seq<char>,
    b: Seq<char>,
)
    requires
        key.len() > 0,
        !value.contains(','),
        is_firm(a + (key + "="@) + (value + ","@ + b)),
        forall|i: int| !occurs_at(a + (key + "="@) + (value + ","@ + b), key + "=\""@, i),
        forall|i: int|
            0 <= i < a.len() ==> !occurs_at(
                a + (key + "="@) + (value + ","@ + b),
                key + "="@,
                i,
            ),
    ensures
        attribute_of(a + (key + "="@) + (value + ","@ + b), key) == Ok::<
            Option<Seq<char>>,
            ErrorView,
        >(Some(value)),
{
    reveal_strlit("=");
    reveal_strlit(",");
    let name = key + "="@;
    let tail = value + ","@ + b;
    let s = a + name + tail;
    law_trim_keeps(s);
    let n = a.len() as int;
    lemma_find_from(s, key + "=\""@, 0);
    lemma_find_from(s, name, 0);
    assert(s.subrange(n, n + name.len()) =~= name);
    assert(occurs_at(s, name, n));
    assert(find(s, name) == Some(n));
    assert(drop(s, n + key.len() + 1) =~= tail);
    assert(","@ =~= seq![',']);
    law_cut_at_a_character(value, ',', b);
    assert(take(tail, value.len() as int) =~= value);
}

/// The value of the last attribute without quotes runs to the end.
pub proof fn law_last_attribute_is_read(a: Seq<char>, key: Seq<char>, value: Seq<char>)
    requires
        key.len() > 0,
        !value.contains(','),
        is_firm(a + (key + "="@) + value),
        forall|i: int| !occurs_at(a + (key + "="@) + value, key + "=\""@, i),
        forall|i: int| 0 <= i < a.len() ==> !occurs_at(a + (key + "="@) + value, key + "="@, i),
    ensures
        attribute_of(a + (key + "="@) + value, key) == Ok::<Option<Seq<char>>, ErrorView>(
            Some(value),
        ),
{
    reveal_strlit("=");
    reveal_strlit(",");
    let name = key + "="@;
    let s = a + name + value;
    law_trim_keeps(s);
    let n = a.len() as int;
    lemma_find_from(s, key + "=\""@, 0);
    lemma_find_from(s, name, 0);
    assert(s.subrange(n, n + name.len()) =~= name);
    assert(occurs_at(s, name, n));
    assert(find(s, name) == Some(n));
    assert(drop(s, n + key.len() + 1) =~= value);
    assert(","@ =~= seq![',']);
    law_no_cut_without_the_character(value, ',');
}

/// Where a key does not stand in a line, the line has no such attribute.
pub proof fn law_missing_attribute(s: Seq<char>, key: Seq<char>)
    requires
        key.len() > 0,
        is_firm(s),
        forall|i: int| !occurs_at(s, key + "=\""@, i),
        forall|i: int| !occurs_at(s, key + "="@, i),
    ensures
        attribute_of(s, key) == Ok::<Option<Seq<char>>, ErrorView>(None),
        solid_attribute(s, key) == Ok::<Option<Seq<char>>, ErrorView>(None),
{
    law_trim_keeps(s);
    lemma_find_from(s, key + "=\""@, 0);
    lemma_find_from(s, key + "="@, 0);
}

proof fn lemma_hex_is_ascii(b: Seq<u8>, upper: bool)
    ensures
        hex_text(b, upper).len() == 2 * b.len(),
        encode_utf8(hex_text(b, upper)).len() == 2 * b.len(),
        forall|i: int|
            0 <= i < hex_text(b, upper).len() ==> '0' <= #[trigger] hex_text(b, upper)[i] <= 'f'
                && hex_text(b, upper)[i] != 'x' && hex_text(b, upper)[i] != 'X',
{
    lemma_hex_chars(b, upper);
    vstd::utf8::is_ascii_chars_encode_utf8(hex_text(b, upper));
}

proof fn lemma_hex_chars(b: Seq<u8>, upper: bool)
    ensures
        hex_text(b, upper).len() == 2 * b.len(),
        forall|i: int|
            0 <= i < hex_text(b, upper).len() ==> '0' <= #[trigger] hex_text(b, upper)[i] <= 'f'
                && hex_text(b, upper)[i] != 'x' && hex_text(b, upper)[i] != 'X',
    decreases b.len(),
{
    if b.len() > 0 {
        lemma_hex_chars(b.drop_last(), upper);
    }
}

/// Bytes that are written in hexadecimal, with `0x` before them or without, are read back.
pub proof fn law_hexadecimal_is_read_back(b: Seq<u8>, upper: bool)
    requires
        b.len() > 0,
    ensures
        config_hex(bare_hex("0x"@ + hex_text(b, upper))) == Ok::<Seq<u8>, ErrorView>(b),
        config_hex(bare_hex("0X"@ + hex_text(b, upper))) == Ok::<Seq<u8>, ErrorView>(b),
        config_hex(bare_hex(hex_text(b, upper))) == Ok::<Seq<u8>, ErrorView>(b),
{
    let t = hex_text(b, upper);
    reveal_strlit("0x");
    reveal_strlit("0X");
    lemma_hex_is_ascii(b, upper);
    law_hex_round_trip(b, upper);
    law_trim_keeps("0x"@ + t);
    law_trim_keeps("0X"@ + t);
    law_trim_keeps(t);
    law_prefix_comes_off("0x"@, t);
    law_prefix_comes_off("0X"@, t);
    lemma_prefix_char("0X"@ + t, "0x"@, 1);
    lemma_prefix_char(t, "0x"@, 1);
    lemma_prefix_char(t, "0X"@, 1);
}

/// A key line says what its attributes say: its method, where its key is, and its vector. The key and
/// the vector of the user come before them.
pub proof fn law_key_line_says(
    line: Seq<char>,
    config: ParserConfigView,
    method: Seq<char>,
    uri: Seq<char>,
    iv: Seq<u8>,
    upper: bool,
)
    requires
        attribute_of(line, "METHOD"@) == Ok::<Option<Seq<char>>, ErrorView>(Some(method)),
        attribute_of(line, "URI"@) == Ok::<Option<Seq<char>>, ErrorView>(Some(uri)),
        attribute_of(line, "IV"@) == Ok::<Option<Seq<char>>, ErrorView>(
            Some("0x"@ + hex_text(iv, upper)),
        ),
        iv.len() > 0,
        config.custom_key is None,
    ensures
        ({
            let said = key_line_of(line, config)->Ok_0;
            &&& key_line_of(line, config) is Ok
            &&& said.uri == Some(uri)
            &&& said.info.method == method_of_token(Some(method))
            &&& config.custom_iv is None ==> said.info.iv == Some(iv)
            &&& config.custom_iv is Some && (config.custom_iv->0).len() > 0 ==> said.info.iv
                == config.custom_iv
            &&& said.info.key is None
        }),
{
    law_hexadecimal_is_read_back(iv, upper);
}

/// Without a vector in the line there is none, and with a key of the user nothing is loaded.
pub proof fn law_key_of_the_user_comes_first(
    line: Seq<char>,
    config: ParserConfigView,
    method: Seq<char>,
    uri: Option<Seq<char>>,
    key: Seq<u8>,
)
    requires
        attribute_of(line, "METHOD"@) == Ok::<Option<Seq<char>>, ErrorView>(Some(method)),
        attribute_of(line, "URI"@) == Ok::<Option<Seq<char>>, ErrorView>(uri),
        attribute_of(line, "IV"@) == Ok::<Option<Seq<char>>, ErrorView>(None),
        config.custom_key == Some(key),
        config.custom_iv is None,
        key.len() > 0,
    ensures
        ({
            let said = key_line_of(line, config)->Ok_0;
            &&& key_line_of(line, config) is Ok
            &&& said.uri is None
            &&& said.info.key == Some(key)
            &&& said.info.iv is None
            &&& said.info.method == method_of_token(Some(method))
            &&& said.info.source == KeySource::Custom
        }),
{
}

/// A key that was loaded is the key of its line; method and vector stay. One that could not be loaded
/// leaves the method unknown. A method of the user comes last.
pub proof fn law_loaded_key_is_the_key(
    line: KeyLineView,
    bytes: Seq<u8>,
    source: KeySource,
    message: Seq<char>,
    config: ParserConfigView,
)
    ensures
        ({
            let got = key_info_of(line, Some(LoadedKeyView::Key { bytes, source }), config);
            let lost = key_info_of(line, Some(LoadedKeyView::Failed { message }), config);
            &&& got.key == Some(bytes)
            &&& got.iv == line.info.iv
            &&& got.source == source
            &&& lost.iv == line.info.iv
            &&& config.custom_method is None ==> got.method == line.info.method && lost.method
                == EncryptionMethod::Unknown
            &&& config.custom_method is Some ==> got.method == config.custom_method->0
                && lost.method == config.custom_method->0
        }),
{
}

/// Before any key line, segments are under what the user gave.
pub proof fn law_first_encryption_is_the_users(
    config: ParserConfigView,
    method: EncryptionMethod,
    key: Seq<u8>,
    iv: Seq<u8>,
)
    requires
        config.custom_method == Some(method),
        config.custom_key == Some(key),
        config.custom_iv == Some(iv),
        key.len() > 0,
        iv.len() > 0,
    ensures
        first_encryption(config).method == method,
        first_encryption(config).key == Some(key),
        first_encryption(config).iv == Some(iv),
{
}

proof fn lemma_token_keeps(s: Seq<char>)
    requires
        forall|i: int| 0 <= i < s.len() ==> !is_token_separator(#[trigger] s[i]),
    ensures
        s.filter(|c: char| !is_token_separator(c)) == s,
    decreases s.len(),
{
    reveal(Seq::filter);
    if s.len() > 0 {
        lemma_token_keeps(s.drop_last());
        assert(s.drop_last().push(s.last()) =~= s);
    }
}

proof fn lemma_token_joins(a: Seq<char>, sep: char, b: Seq<char>)
    requires
        is_token_separator(sep),
    ensures
        (a + seq![sep] + b).filter(|c: char| !is_token_separator(c)) == a.filter(
            |c: char| !is_token_separator(c),
        ) + b.filter(|c: char| !is_token_separator(c)),
    decreases b.len(),
{
    let keep = |c: char| !is_token_separator(c);
    reveal(Seq::filter);
    if b.len() == 0 {
        assert((a + seq![sep] + b).drop_last() =~= a);
        assert(a.filter(keep) + b.filter(keep) =~= a.filter(keep));
    } else {
        lemma_token_joins(a, sep, b.drop_last());
        assert((a + seq![sep] + b).drop_last() =~= a + seq![sep] + b.drop_last());
        assert((a + seq![sep] + b).last() == b.last());
        assert((a + seq![sep] + b).filter(keep) =~= a.filter(keep) + b.filter(keep));
    }
}

/// Separators in a token do not count, nor does case.
pub proof fn law_token_without_separators(a: Seq<char>, sep: char, b: Seq<char>)
    requires
        is_token_separator(sep),
        forall|i: int| 0 <= i < a.len() ==> !is_token_separator(#[trigger] a[i]),
        forall|i: int| 0 <= i < b.len() ==> !is_token_separator(#[trigger] b[i]),
    ensures
        normal_token(a + seq![sep] + b) == normal_token(a + b),
        normal_token(a + b) == (a + b).map_values(|c: char| token_char(c)),
{
    lemma_token_joins(a, sep, b);
    lemma_token_keeps(a);
    lemma_token_keeps(b);
    assert forall|i: int| 0 <= i < (a + b).len() implies !is_token_separator(#[trigger] (a + b)[i]) by {
        if i < a.len() {
            assert((a + b)[i] == a[i]);
        } else {
            assert((a + b)[i] == b[i - a.len()]);
        }
    }
    lemma_token_keeps(a + b);
}

/// The methods that playlists name.
pub proof fn law_methods_are_known()
    ensures
        method_of_token(Some("NONE"@)) == EncryptionMethod::Unencrypted,
        method_of_token(Some("AES-128"@)) == EncryptionMethod::Aes128,
        method_of_token(Some("SAMPLE-AES"@)) == EncryptionMethod::SampleAes,
        method_of_token(None) == EncryptionMethod::Unknown,
{
    reveal_strlit("NONE");
    reveal_strlit("AES-128");
    reveal_strlit("SAMPLE-AES");
    reveal_strlit("AES");
    reveal_strlit("128");
    reveal_strlit("SAMPLE");
    reveal_strlit("none");
    reveal_strlit("aes128");
    reveal_strlit("aes128ecb");
    reveal_strlit("sampleaes");
    lemma_token_keeps("NONE"@);
    assert(normal_token("NONE"@) =~= "none"@);
    assert("AES-128"@ =~= "AES"@ + seq!['-'] + "128"@);
    law_token_without_separators("AES"@, '-', "128"@);
    assert(normal_token("AES-128"@) =~= "aes128"@);
    assert("aes128"@.len() == 6 && "none"@.len() == 4 && "sampleaes"@.len() == 9
        && "aes128ecb"@.len() == 9);
    assert("SAMPLE-AES"@ =~= "SAMPLE"@ + seq!['-'] + "AES"@);
    law_token_without_separators("SAMPLE"@, '-', "AES"@);
    assert(normal_token("SAMPLE-AES"@) =~= "sampleaes"@);
    assert("sampleaes"@[0] == 's' && "aes128ecb"@[0] == 'a');
}

/// The bandwidth of a variant is the average that it states, else the peak.
pub proof fn law_variant_bandwidth(value: Seq<char>, average: nat, peak: nat)
    requires
        average <= i32::MAX,
        peak <= i32::MAX,
    ensures
        attribute_of(value, "AVERAGE-BANDWIDTH"@) == Ok::<Option<Seq<char>>, ErrorView>(
            Some(dec(average)),
        ) ==> variant_bandwidth(value) == Ok::<i64, ErrorView>(average as i64),
        attribute_of(value, "AVERAGE-BANDWIDTH"@) == Ok::<Option<Seq<char>>, ErrorView>(None)
            && attribute_of(value, "BANDWIDTH"@) == Ok::<Option<Seq<char>>, ErrorView>(
            Some(dec(peak)),
        ) ==> variant_bandwidth(value) == Ok::<i64, ErrorView>(peak as i64),
{
    lemma_decimal_is_trim(average);
    lemma_decimal_is_trim(peak);
    law_decimal_is_read_within(average, i32::MIN as int, i32::MAX as int);
    law_decimal_is_read_within(peak, i32::MIN as int, i32::MAX as int);
    crate::text_laws::law_decimal_holds_digits(average);
}

/// A variant has the size, the frame rate and the groups that its line states.
pub proof fn law_variant_says(value: Seq<char>, config: ParserConfigView)
    requires
        variant_of(value, config) is Ok,
    ensures
        ({
            let s = variant_of(value, config)->Ok_0;
            &&& attribute_of(value, "RESOLUTION"@) == Ok::<Option<Seq<char>>, ErrorView>(
                s.resolution,
            )
            &&& solid_attribute(value, "AUDIO"@) == Ok::<Option<Seq<char>>, ErrorView>(s.audio_id)
            &&& solid_attribute(value, "VIDEO"@) == Ok::<Option<Seq<char>>, ErrorView>(s.video_id)
            &&& solid_attribute(value, "SUBTITLES"@) == Ok::<Option<Seq<char>>, ErrorView>(
                s.subtitle_id,
            )
            &&& solid_attribute(value, "VIDEO-RANGE"@) == Ok::<Option<Seq<char>>, ErrorView>(
                s.video_range,
            )
            &&& s.bandwidth is Some && variant_bandwidth(value) == Ok::<i64, ErrorView>(
                s.bandwidth->0,
            )
            &&& s.audio_id is None ==> attribute_of(value, "CODECS"@) == Ok::<
                Option<Seq<char>>,
                ErrorView,
            >(s.codecs)
            &&& s.original_url == config.original_url
        }),
{
}

proof fn lemma_master_tags(line: Seq<char>)
    ensures
        starts_with(line, "#EXT-X-STREAM-INF:"@) ==> line.len() > 7 && line[0] == '#' && line[7]
            == 'S',
        starts_with(line, "#EXT-X-MEDIA:"@) ==> line.len() > 7 && line[0] == '#' && line[7] == 'M',
        starts_with(line, "#"@) ==> line.len() > 0 && line[0] == '#',
{
    reveal_strlit("#EXT-X-STREAM-INF:");
    reveal_strlit("#EXT-X-MEDIA:");
    reveal_strlit("#");
    lemma_prefix_char(line, "#EXT-X-STREAM-INF:"@, 0);
    lemma_prefix_char(line, "#EXT-X-STREAM-INF:"@, 7);
    lemma_prefix_char(line, "#EXT-X-MEDIA:"@, 0);
    lemma_prefix_char(line, "#EXT-X-MEDIA:"@, 7);
    lemma_prefix_char(line, "#"@, 0);
}

/// A variant line and the URL behind it make one stream, which has that URL and what the line says.
pub proof fn law_variant_gets_the_url_behind_it(
    st: MasterState,
    value: Seq<char>,
    line: Seq<char>,
    url: Seq<char>,
    config: ParserConfigView,
)
    requires
        variant_of(value, config) is Ok,
        line.len() > 0,
        line[0] != '#',
    ensures
        ({
            let waiting = master_line(st, "#EXT-X-STREAM-INF:"@ + value, url, config);
            let done = master_line(waiting->Ok_0, line, url, config);
            let resolved = hls_url(line, url, config).0;
            let added = done->Ok_0.streams.last();
            &&& waiting is Ok
            &&& waiting->Ok_0.streams == st.streams
            &&& done is Ok
            &&& done->Ok_0.streams.len() == st.streams.len() + 1
            &&& done->Ok_0.streams.drop_last() == st.streams
            &&& added.url == resolved
            &&& added == (StreamView { url: resolved, id: resolved, ..variant_of(value, config)->Ok_0
            })
            &&& done->Ok_0.pending is None
        }),
{
    law_prefix_comes_off("#EXT-X-STREAM-INF:"@, value);
    lemma_master_tags("#EXT-X-STREAM-INF:"@ + value);
    lemma_master_tags(line);
    let waiting = master_line(st, "#EXT-X-STREAM-INF:"@ + value, url, config)->Ok_0;
    let done = master_line(waiting, line, url, config)->Ok_0;
    assert(done.streams.drop_last() =~= st.streams);
}

/// A rendition is a stream of its own, with the URL, the group, the language and the name that its
/// line states.
pub proof fn law_rendition_says(
    value: Seq<char>,
    url: Seq<char>,
    config: ParserConfigView,
    uri: Seq<char>,
)
    requires
        attribute_of(value, "TYPE"@) == Ok::<Option<Seq<char>>, ErrorView>(Some("AUDIO"@)),
        attribute_of(value, "URI"@) == Ok::<Option<Seq<char>>, ErrorView>(Some(uri)),
        uri.len() > 0,
        rendition_of(value, url, config) is Ok,
    ensures
        ({
            let s = rendition_of(value, url, config)->Ok_0;
            &&& s is Some
            &&& (s->0).media_type == Some(MediaType::Audio)
            &&& (s->0).url == hls_url(uri, url, config).0
            &&& attribute_of(value, "GROUP-ID"@) == Ok::<Option<Seq<char>>, ErrorView>(
                (s->0).group_id,
            )
            &&& solid_attribute(value, "LANGUAGE"@) == Ok::<Option<Seq<char>>, ErrorView>(
                (s->0).language,
            )
            &&& solid_attribute(value, "NAME"@) == Ok::<Option<Seq<char>>, ErrorView>((s->0).name)
            &&& solid_attribute(value, "CHANNELS"@) == Ok::<Option<Seq<char>>, ErrorView>(
                (s->0).channels,
            )
        }),
{
    reveal_strlit("AUDIO");
    reveal_strlit("-");
    crate::text_laws::lemma_lacks_first("AUDIO"@, "-"@);
}

} // verus!
