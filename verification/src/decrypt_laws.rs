//! What is decrypted with what, and which key is taken.

use crate::config::{CustomKeyView, DecryptionEngine};
use crate::decrypt::{
    chacha_plain, decrypt_plan, is_init_file, key_from, key_line_from, key_text,
    law_chacha_is_an_involution, name_or_empty, pair_key, redacted, segment_plain, select_key,
    zero_kid, ExternalDecryptRequest,
};
use crate::manifest::EncryptionMethod;
use crate::outside::{aes_cbc_plain, aes_ecb_plain};
use crate::path::path_parent;
use crate::text::{dec, ends_with, opt, split_once, starts_with, trim};
use crate::text_laws::{law_contains_char, law_cut_at_a_character, lemma_decimal_lacks};
use vstd::prelude::*;

verus! {

/// A segment is decrypted with its key and its vector, by its method; one in the clear, or whose
/// samples are encrypted, stays as it is.
pub proof fn law_segments_are_decrypted_by_their_method(
    encrypted: Seq<u8>,
    key: Seq<u8>,
    iv: Seq<u8>,
    method: EncryptionMethod,
)
    ensures
        key.len() == 16 && iv.len() == 16 && aes_cbc_plain(encrypted, key, iv) is Some
            ==> segment_plain(EncryptionMethod::Aes128, encrypted, Some(key), Some(iv)) == Ok::<
            Seq<u8>,
            crate::error::ErrorView,
        >(aes_cbc_plain(encrypted, key, iv)->0),
        key.len() == 16 && aes_ecb_plain(encrypted, key) is Some ==> segment_plain(
            EncryptionMethod::Aes128Ecb,
            encrypted,
            Some(key),
            Some(iv),
        ) == Ok::<Seq<u8>, crate::error::ErrorView>(aes_ecb_plain(encrypted, key)->0),
        method == EncryptionMethod::Unencrypted || method == EncryptionMethod::SampleAes || method
            == EncryptionMethod::SampleAesCtr || method == EncryptionMethod::Cenc || method
            == EncryptionMethod::Unknown ==> segment_plain(method, encrypted, Some(key), Some(iv))
            == Ok::<Seq<u8>, crate::error::ErrorView>(encrypted),
        key.len() != 16 ==> segment_plain(
            EncryptionMethod::Aes128,
            encrypted,
            Some(key),
            Some(iv),
        ) is Err,
        iv.len() != 16 ==> segment_plain(
            EncryptionMethod::Aes128,
            encrypted,
            Some(key),
            Some(iv),
        ) is Err,
        segment_plain(EncryptionMethod::Aes128, encrypted, None, Some(iv)) is Err,
        segment_plain(EncryptionMethod::Aes128, encrypted, Some(key), None) is Err,
{
}

/// What ChaCha20 encrypts it decrypts, for a key of 32 bytes and a nonce of 12 or 8.
pub proof fn law_chacha_segments_come_back(text: Seq<u8>, key: Seq<u8>, nonce: Seq<u8>)
    requires
        key.len() == 32,
        nonce.len() == 12 || nonce.len() == 8,
    ensures
        ({
            let once = segment_plain(EncryptionMethod::Chacha20, text, Some(key), Some(nonce));
            &&& once is Ok
            &&& once->Ok_0.len() == text.len()
            &&& segment_plain(EncryptionMethod::Chacha20, once->Ok_0, Some(key), Some(nonce))
                == Ok::<Seq<u8>, crate::error::ErrorView>(text)
        }),
{
    law_chacha_is_an_involution(text, key, nonce);
    assert(chacha_plain(text, key, nonce).len() == text.len());
}

/// A key of the user is written as its identifier, or its track, and the key itself.
pub proof fn law_user_keys_are_written(kid: Seq<char>, track: u32, key: Seq<char>)
    requires
        !kid.contains(':'),
    ensures
        pair_key(key_text(CustomKeyView::Kid { kid_hex: kid, key_hex: key })) == key,
        split_once(key_text(CustomKeyView::Kid { kid_hex: kid, key_hex: key }), ":"@) == Some(
            (kid, key),
        ),
        split_once(key_text(CustomKeyView::Track { track_id: track, key_hex: key }), ":"@) == Some(
            (dec(track as nat), key),
        ),
        key_text(CustomKeyView::Key { key_hex: key }) == key,
{
    reveal_strlit(":");
    assert(":"@ =~= seq![':']);
    law_cut_at_a_character(kid, ':', key);
    lemma_decimal_lacks(track as nat, ':');
    law_cut_at_a_character(dec(track as nat), ':', key);
}

proof fn lemma_found(keys: Seq<Seq<char>>, kid: Seq<char>, i: int, k: int)
    requires
        0 <= i <= k < keys.len(),
        kid.len() > 0,
        starts_with(keys[k], kid),
        forall|j: int| i <= j < k ==> !starts_with(#[trigger] keys[j], kid),
    ensures
        key_from(keys, kid, i) == Some(keys[k]),
    decreases k - i,
{
    if i < k {
        assert(!starts_with(keys[i], kid));
        lemma_found(keys, kid, i + 1, k);
    }
}

/// The key that is listed under an identifier is the one that is taken for it, and no track is named
/// unless several protections are at work.
pub proof fn law_listed_key_is_taken(
    keys: Seq<Seq<char>>,
    kid: Seq<char>,
    key: Seq<char>,
    k: int,
    is_multi_drm: bool,
)
    requires
        0 <= k < keys.len(),
        kid.len() > 0,
        !kid.contains(':'),
        kid != zero_kid(),
        keys[k] == kid + ":"@ + key,
        forall|j: int| 0 <= j < k ==> !starts_with(#[trigger] keys[j], kid),
    ensures
        ({
            let taken = select_key(keys, Some(kid), is_multi_drm);
            &&& taken is Some
            &&& (taken->0).key_pair == keys[k]
            &&& pair_key((taken->0).key_pair) == key
            &&& (taken->0).track_id is Some <==> is_multi_drm
        }),
{
    reveal_strlit(":");
    assert(":"@ =~= seq![':']);
    law_cut_at_a_character(kid, ':', key);
    assert(keys[k].subrange(0, kid.len() as int) =~= kid);
    lemma_found(keys, kid, 0, k);
    law_contains_char(keys[0], ':');
}

/// A lone key without an identifier is taken for any.
pub proof fn law_lone_key_is_taken(key: Seq<char>, kid: Seq<char>, is_multi_drm: bool)
    requires
        !key.contains(':'),
        !kid.contains(':'),
        kid != zero_kid(),
        !starts_with(key, kid),
    ensures
        ({
            let taken = select_key(seq![key], Some(kid), is_multi_drm);
            &&& taken is Some
            &&& pair_key((taken->0).key_pair) == key
            &&& (taken->0).key_pair == kid + ":"@ + key
        }),
{
    reveal_strlit(":");
    assert(":"@ =~= seq![':']);
    law_cut_at_a_character(kid, ':', key);
    law_contains_char(key, ':');
    let keys = seq![key];
    assert(key_from(keys, kid, 1) is None);
    assert(key_from(keys, kid, 0) is None);
}

/// For the zero identifier the first key is taken, for the first track.
pub proof fn law_first_key_is_taken_for_zeros(keys: Seq<Seq<char>>, is_multi_drm: bool)
    requires
        keys.len() > 0,
    ensures
        ({
            let taken = select_key(keys, Some(zero_kid()), is_multi_drm);
            &&& taken is Some
            &&& (taken->0).key_pair == keys[0]
            &&& (taken->0).track_id == Some("1"@)
        }),
{
}

/// The key line that is found in a text is one of its lines, begins with the identifier, and no
/// earlier one does.
pub proof fn law_first_key_line_is_found(all: Seq<Seq<char>>, kid: Seq<char>, i: int)
    requires
        0 <= i <= all.len(),
    ensures
        match key_line_from(all, kid, i) {
            Some(line) => starts_with(line, kid) && exists|k: int|
                i <= k < all.len() && line == trim(#[trigger] all[k]) && forall|j: int|
                    i <= j < k ==> !starts_with(trim(#[trigger] all[j]), kid),
            None => forall|j: int| i <= j < all.len() ==> !starts_with(trim(#[trigger] all[j]), kid),
        },
    decreases all.len() - i,
{
    if i < all.len() {
        law_first_key_line_is_found(all, kid, i + 1);
        if starts_with(trim(all[i]), kid) {
            assert(key_line_from(all, kid, i) == Some(trim(all[i])));
            assert(forall|j: int| i <= j < i ==> !starts_with(trim(#[trigger] all[j]), kid));
        } else {
            match key_line_from(all, kid, i + 1) {
                Some(line) => {
                    let k = choose|k: int|
                        i + 1 <= k < all.len() && line == trim(#[trigger] all[k]) && forall|j: int|
                            i + 1 <= j < k ==> !starts_with(trim(#[trigger] all[j]), kid);
                    assert(line == trim(all[k]));
                    assert(forall|j: int| i <= j < k ==> !starts_with(trim(#[trigger] all[j]), kid));
                },
                None => {},
            }
        }
    }
}

/// A hidden key shows its length in bytes and nothing else.
pub proof fn law_hidden_keys_show_their_length(a: Seq<char>, b: Seq<char>)
    requires
        a.len() > 0,
        b.len() > 0,
        vstd::utf8::encode_utf8(a).len() == vstd::utf8::encode_utf8(b).len(),
    ensures
        redacted(a) == redacted(b),
        redacted(a) == "<redacted:"@ + dec(vstd::utf8::encode_utf8(a).len()) + ">"@,
{
}

/// A plan runs the program of the request. The packager and ffmpeg read the source and write the
/// destination, under the identifier that the key is listed under, and its key is hidden; mp4decrypt
/// runs where the source is and gets the names of both.
pub proof fn law_plans_read_the_source(r: ExternalDecryptRequest, kid: Seq<char>, key: Seq<char>)
    requires
        opt(r.kid) == Some(kid),
        kid.len() > 0,
        !kid.contains(':'),
        kid != zero_kid(),
        !r.is_multi_drm,
        r.keys.deep_view() == seq![kid + ":"@ + key],
        !is_init_file(r.source@),
        r.engine != DecryptionEngine::Mp4forge,
    ensures
        ({
            let plan = decrypt_plan(r);
            &&& plan is Some
            &&& (plan->0).program == r.program@
            &&& (plan->0).engine == r.engine
            &&& r.engine == DecryptionEngine::ShakaPackager ==> (plan->0).redacted_arguments
                == "--quiet --enable_raw_key_decryption input=\""@ + r.source@
                + "\",stream=0,output=\""@ + r.dest@ + "\" --keys "@ + ""@ + "key_id="@ + kid
                + ":key="@ + redacted(key)
            &&& r.engine == DecryptionEngine::Ffmpeg ==> (plan->0).redacted_arguments
                == "-loglevel error -nostdin -decryption_key "@ + redacted(key) + " -i \""@
                + r.source@ + "\" -c copy \""@ + r.dest@ + "\""@
            &&& r.engine == DecryptionEngine::Mp4decrypt ==> (plan->0).work_dir == path_parent(
                r.source@,
            ) && ends_with(
                (plan->0).redacted_arguments,
                " \""@ + name_or_empty(r.source@) + "\" \""@ + name_or_empty(r.dest@) + "\""@,
            )
            &&& (plan->0).requires_init_concat == (r.init is Some && r.engine
                != DecryptionEngine::Mp4decrypt)
        }),
{
    reveal_strlit(":");
    assert(":"@ =~= seq![':']);
    law_cut_at_a_character(kid, ':', key);
    let keys = seq![kid + ":"@ + key];
    law_listed_key_is_taken(keys, kid, key, 0, false);
    let plan = decrypt_plan(r)->0;
    if r.engine == DecryptionEngine::Mp4decrypt {
        let end = " \""@ + name_or_empty(r.source@) + "\" \""@ + name_or_empty(r.dest@) + "\""@;
        let all = plan.redacted_arguments;
        let at = all.len() - end.len();
        assert(all.subrange(at, at + end.len()) =~= end);
    }
}

/// Without a key that fits there is no plan, nor for an initialization segment that needs none.
pub proof fn law_no_plan(r: ExternalDecryptRequest)
    ensures
        r.keys@.len() == 0 ==> decrypt_plan(r) is None,
        r.engine == DecryptionEngine::Mp4forge ==> decrypt_plan(r) is None,
        is_init_file(r.source@) && r.engine != DecryptionEngine::Mp4decrypt ==> decrypt_plan(r) is None,
{
    assert(r.keys.deep_view().len() == r.keys@.len());
}

} // verus!
