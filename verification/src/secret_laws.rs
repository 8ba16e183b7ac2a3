//! What does not show of keys, tokens and signatures.

use crate::decrypt::{
    ends_secret, hide_after, hide_secrets, law_secret_does_not_show,
};
use crate::event::ProgressEventView;
use crate::observability::redacted_event;
use crate::text::{contains, find, is_space, lemma_find_from, occurs_at};
use vstd::prelude::*;

verus! {

/// A secret: it holds nothing that ends one, and no equals sign.
pub open spec fn is_secret(a: Seq<char>) -> bool {
    forall|i: int|
        0 <= i < a.len() ==> !is_space(#[trigger] a[i]) && a[i] != '&' && a[i] != ',' && a[i] != '"'
            && a[i] != '='
}

/// A marker does not occur in another with a secret behind it, unless the other ends with it.
proof fn lemma_other_marker(other: Seq<char>, a: Seq<char>, marker: Seq<char>, j: int)
    requires
        marker.len() > 0,
        marker.last() == '=' || marker.last() == ' ',
        forall|i: int| 0 <= i < a.len() ==> #[trigger] a[i] != marker.last(),
        forall|i: int| 0 <= i < other.len() - 1 ==> #[trigger] other[i] != marker.last(),
        other.len() > 0,
        marker.len() > other.len() || other.last() != marker.last() || 0 <= j < marker.len()
            && other[other.len() - 1 - j] != marker[marker.len() - 1 - j],
    ensures
        !contains(other + a, marker),
{
    let s = other + a;
    lemma_find_from(s, marker, 0);
    if contains(s, marker) {
        let k = find(s, marker)->0;
        assert(occurs_at(s, marker, k));
        let n = marker.len() as int;
        let end = k + n - 1;
        assert(s.subrange(k, k + n)[n - 1] == s[end]);
        assert(s[end] == marker.last());
        if end < other.len() {
            assert(s[end] == other[end]);
            assert(end == other.len() - 1);
            if 0 <= j < n {
                assert(s.subrange(k, k + n)[n - 1 - j] == s[k + n - 1 - j]);
                assert(s[k + n - 1 - j] == other[k + n - 1 - j]);
            }
        } else {
            assert(s[end] == a[end - other.len()]);
        }
    }
}

/// What is shown in place of a secret holds no equals sign and no space.
proof fn lemma_shown()
    ensures
        forall|i: int|
            0 <= i < "<redacted>"@.len() ==> #[trigger] "<redacted>"@[i] != '=' && "<redacted>"@[i]
                != ' ',
{
    reveal_strlit("<redacted>");
}

proof fn lemma_key_hides(a: Seq<char>)
    requires
        is_secret(a),
    ensures
        hide_secrets("key="@ + a) == "key="@ + "<redacted>"@,
{
    reveal(hide_secrets);
    reveal_strlit("key=");
    reveal_strlit("decryption_key ");
    reveal_strlit("--key ");
    reveal_strlit("token=");
    reveal_strlit("signature=");
    reveal_strlit("sig=");
    reveal_strlit("Policy=");
    reveal_strlit("Key-Pair-Id=");
    let s = "key="@ + a;
    let t = "key="@ + "<redacted>"@;
    lemma_shown();
    assert forall|i: int| 0 <= i < a.len() implies #[trigger] a[i] != '=' && a[i] != ' ' by {
        assert(!is_space(a[i]));
    }
    assert forall|i: int| 0 <= i < a.len() implies !ends_secret(#[trigger] a[i], false) by {
        assert(!is_space(a[i]));
    }
    let none = Seq::<char>::empty();
    lemma_find_from(none + "key="@.drop_last(), "key="@, 0);
    law_secret_does_not_show(none, "key="@, a, a, false);
    assert(none + "key="@ + a =~= s);
    assert(none + "key="@ + "<redacted>"@ =~= t);
    lemma_other_marker("key="@, "<redacted>"@, "decryption_key "@, 0);
    lemma_other_marker("key="@, "<redacted>"@, "--key "@, 0);
    lemma_other_marker("key="@, "<redacted>"@, "token="@, 0);
    lemma_other_marker("key="@, "<redacted>"@, "signature="@, 0);
    assert("key="@[2] == 'y' && "sig="@[2] == 'g');
    lemma_other_marker("key="@, "<redacted>"@, "sig="@, 1);
    lemma_other_marker("key="@, "<redacted>"@, "Policy="@, 0);
    lemma_other_marker("key="@, "<redacted>"@, "Key-Pair-Id="@, 0);
}

proof fn lemma_decryption_key_hides(a: Seq<char>)
    requires
        is_secret(a),
    ensures
        hide_secrets("decryption_key "@ + a) == "decryption_key "@ + "<redacted>"@,
{
    reveal(hide_secrets);
    reveal_strlit("key=");
    reveal_strlit("decryption_key ");
    reveal_strlit("--key ");
    reveal_strlit("token=");
    reveal_strlit("signature=");
    reveal_strlit("sig=");
    reveal_strlit("Policy=");
    reveal_strlit("Key-Pair-Id=");
    let s = "decryption_key "@ + a;
    let t = "decryption_key "@ + "<redacted>"@;
    lemma_shown();
    assert forall|i: int| 0 <= i < a.len() implies #[trigger] a[i] != '=' && a[i] != ' ' by {
        assert(!is_space(a[i]));
    }
    lemma_other_marker("decryption_key "@, a, "key="@, 0);
    assert forall|i: int| 0 <= i < a.len() implies !ends_secret(#[trigger] a[i], false) by {
        assert(!is_space(a[i]));
    }
    let none = Seq::<char>::empty();
    lemma_find_from(none + "decryption_key "@.drop_last(), "decryption_key "@, 0);
    law_secret_does_not_show(none, "decryption_key "@, a, a, false);
    assert(none + "decryption_key "@ + a =~= s);
    assert(none + "decryption_key "@ + "<redacted>"@ =~= t);
    assert("decryption_key "@[10] == '_' && "--key "@[1] == '-');
    lemma_other_marker("decryption_key "@, "<redacted>"@, "--key "@, 4);
    lemma_other_marker("decryption_key "@, "<redacted>"@, "token="@, 0);
    lemma_other_marker("decryption_key "@, "<redacted>"@, "signature="@, 0);
    lemma_other_marker("decryption_key "@, "<redacted>"@, "sig="@, 0);
    lemma_other_marker("decryption_key "@, "<redacted>"@, "Policy="@, 0);
    lemma_other_marker("decryption_key "@, "<redacted>"@, "Key-Pair-Id="@, 0);
}

proof fn lemma_key_argument_hides(a: Seq<char>)
    requires
        is_secret(a),
    ensures
        hide_secrets("--key "@ + a) == "--key "@ + "<redacted>"@,
{
    reveal(hide_secrets);
    reveal_strlit("key=");
    reveal_strlit("decryption_key ");
    reveal_strlit("--key ");
    reveal_strlit("token=");
    reveal_strlit("signature=");
    reveal_strlit("sig=");
    reveal_strlit("Policy=");
    reveal_strlit("Key-Pair-Id=");
    let s = "--key "@ + a;
    let t = "--key "@ + "<redacted>"@;
    lemma_shown();
    assert forall|i: int| 0 <= i < a.len() implies #[trigger] a[i] != '=' && a[i] != ' ' by {
        assert(!is_space(a[i]));
    }
    lemma_other_marker("--key "@, a, "key="@, 0);
    lemma_other_marker("--key "@, a, "decryption_key "@, 0);
    assert forall|i: int| 0 <= i < a.len() implies !ends_secret(#[trigger] a[i], false) by {
        assert(!is_space(a[i]));
    }
    let none = Seq::<char>::empty();
    lemma_find_from(none + "--key "@.drop_last(), "--key "@, 0);
    law_secret_does_not_show(none, "--key "@, a, a, false);
    assert(none + "--key "@ + a =~= s);
    assert(none + "--key "@ + "<redacted>"@ =~= t);
    lemma_other_marker("--key "@, "<redacted>"@, "token="@, 0);
    lemma_other_marker("--key "@, "<redacted>"@, "signature="@, 0);
    lemma_other_marker("--key "@, "<redacted>"@, "sig="@, 0);
    lemma_other_marker("--key "@, "<redacted>"@, "Policy="@, 0);
    lemma_other_marker("--key "@, "<redacted>"@, "Key-Pair-Id="@, 0);
}

proof fn lemma_token_hides(a: Seq<char>)
    requires
        is_secret(a),
    ensures
        hide_secrets("token="@ + a) == "token="@ + "<redacted>"@,
{
    reveal(hide_secrets);
    reveal_strlit("key=");
    reveal_strlit("decryption_key ");
    reveal_strlit("--key ");
    reveal_strlit("token=");
    reveal_strlit("signature=");
    reveal_strlit("sig=");
    reveal_strlit("Policy=");
    reveal_strlit("Key-Pair-Id=");
    let s = "token="@ + a;
    let t = "token="@ + "<redacted>"@;
    lemma_shown();
    assert forall|i: int| 0 <= i < a.len() implies #[trigger] a[i] != '=' && a[i] != ' ' by {
        assert(!is_space(a[i]));
    }
    assert("token="@[4] == 'n' && "key="@[2] == 'y');
    lemma_other_marker("token="@, a, "key="@, 1);
    lemma_other_marker("token="@, a, "decryption_key "@, 0);
    lemma_other_marker("token="@, a, "--key "@, 0);
    assert forall|i: int| 0 <= i < a.len() implies !ends_secret(#[trigger] a[i], true) by {
        assert(!is_space(a[i]));
    }
    let none = Seq::<char>::empty();
    lemma_find_from(none + "token="@.drop_last(), "token="@, 0);
    law_secret_does_not_show(none, "token="@, a, a, true);
    assert(none + "token="@ + a =~= s);
    assert(none + "token="@ + "<redacted>"@ =~= t);
    lemma_other_marker("token="@, "<redacted>"@, "signature="@, 0);
    assert("token="@[4] == 'n' && "sig="@[2] == 'g');
    lemma_other_marker("token="@, "<redacted>"@, "sig="@, 1);
    lemma_other_marker("token="@, "<redacted>"@, "Policy="@, 0);
    lemma_other_marker("token="@, "<redacted>"@, "Key-Pair-Id="@, 0);
}

proof fn lemma_signature_hides(a: Seq<char>)
    requires
        is_secret(a),
    ensures
        hide_secrets("signature="@ + a) == "signature="@ + "<redacted>"@,
{
    reveal(hide_secrets);
    reveal_strlit("key=");
    reveal_strlit("decryption_key ");
    reveal_strlit("--key ");
    reveal_strlit("token=");
    reveal_strlit("signature=");
    reveal_strlit("sig=");
    reveal_strlit("Policy=");
    reveal_strlit("Key-Pair-Id=");
    let s = "signature="@ + a;
    let t = "signature="@ + "<redacted>"@;
    lemma_shown();
    assert forall|i: int| 0 <= i < a.len() implies #[trigger] a[i] != '=' && a[i] != ' ' by {
        assert(!is_space(a[i]));
    }
    assert("signature="@[8] == 'e' && "key="@[2] == 'y');
    lemma_other_marker("signature="@, a, "key="@, 1);
    lemma_other_marker("signature="@, a, "decryption_key "@, 0);
    lemma_other_marker("signature="@, a, "--key "@, 0);
    assert("signature="@[8] == 'e' && "token="@[4] == 'n');
    lemma_other_marker("signature="@, a, "token="@, 1);
    assert forall|i: int| 0 <= i < a.len() implies !ends_secret(#[trigger] a[i], true) by {
        assert(!is_space(a[i]));
    }
    let none = Seq::<char>::empty();
    lemma_find_from(none + "signature="@.drop_last(), "signature="@, 0);
    law_secret_does_not_show(none, "signature="@, a, a, true);
    assert(none + "signature="@ + a =~= s);
    assert(none + "signature="@ + "<redacted>"@ =~= t);
    assert("signature="@[8] == 'e' && "sig="@[2] == 'g');
    lemma_other_marker("signature="@, "<redacted>"@, "sig="@, 1);
    assert("signature="@[8] == 'e' && "Policy="@[5] == 'y');
    lemma_other_marker("signature="@, "<redacted>"@, "Policy="@, 1);
    lemma_other_marker("signature="@, "<redacted>"@, "Key-Pair-Id="@, 0);
}

proof fn lemma_sig_hides(a: Seq<char>)
    requires
        is_secret(a),
    ensures
        hide_secrets("sig="@ + a) == "sig="@ + "<redacted>"@,
{
    reveal(hide_secrets);
    reveal_strlit("key=");
    reveal_strlit("decryption_key ");
    reveal_strlit("--key ");
    reveal_strlit("token=");
    reveal_strlit("signature=");
    reveal_strlit("sig=");
    reveal_strlit("Policy=");
    reveal_strlit("Key-Pair-Id=");
    let s = "sig="@ + a;
    let t = "sig="@ + "<redacted>"@;
    lemma_shown();
    assert forall|i: int| 0 <= i < a.len() implies #[trigger] a[i] != '=' && a[i] != ' ' by {
        assert(!is_space(a[i]));
    }
    assert("sig="@[2] == 'g' && "key="@[2] == 'y');
    lemma_other_marker("sig="@, a, "key="@, 1);
    lemma_other_marker("sig="@, a, "decryption_key "@, 0);
    lemma_other_marker("sig="@, a, "--key "@, 0);
    lemma_other_marker("sig="@, a, "token="@, 0);
    lemma_other_marker("sig="@, a, "signature="@, 0);
    assert forall|i: int| 0 <= i < a.len() implies !ends_secret(#[trigger] a[i], true) by {
        assert(!is_space(a[i]));
    }
    let none = Seq::<char>::empty();
    lemma_find_from(none + "sig="@.drop_last(), "sig="@, 0);
    law_secret_does_not_show(none, "sig="@, a, a, true);
    assert(none + "sig="@ + a =~= s);
    assert(none + "sig="@ + "<redacted>"@ =~= t);
    lemma_other_marker("sig="@, "<redacted>"@, "Policy="@, 0);
    lemma_other_marker("sig="@, "<redacted>"@, "Key-Pair-Id="@, 0);
}

proof fn lemma_policy_hides(a: Seq<char>)
    requires
        is_secret(a),
    ensures
        hide_secrets("Policy="@ + a) == "Policy="@ + "<redacted>"@,
{
    reveal(hide_secrets);
    reveal_strlit("key=");
    reveal_strlit("decryption_key ");
    reveal_strlit("--key ");
    reveal_strlit("token=");
    reveal_strlit("signature=");
    reveal_strlit("sig=");
    reveal_strlit("Policy=");
    reveal_strlit("Key-Pair-Id=");
    let s = "Policy="@ + a;
    let t = "Policy="@ + "<redacted>"@;
    lemma_shown();
    assert forall|i: int| 0 <= i < a.len() implies #[trigger] a[i] != '=' && a[i] != ' ' by {
        assert(!is_space(a[i]));
    }
    assert("Policy="@[4] == 'c' && "key="@[1] == 'e');
    lemma_other_marker("Policy="@, a, "key="@, 2);
    lemma_other_marker("Policy="@, a, "decryption_key "@, 0);
    lemma_other_marker("Policy="@, a, "--key "@, 0);
    assert("Policy="@[5] == 'y' && "token="@[4] == 'n');
    lemma_other_marker("Policy="@, a, "token="@, 1);
    lemma_other_marker("Policy="@, a, "signature="@, 0);
    assert("Policy="@[5] == 'y' && "sig="@[2] == 'g');
    lemma_other_marker("Policy="@, a, "sig="@, 1);
    assert forall|i: int| 0 <= i < a.len() implies !ends_secret(#[trigger] a[i], true) by {
        assert(!is_space(a[i]));
    }
    let none = Seq::<char>::empty();
    lemma_find_from(none + "Policy="@.drop_last(), "Policy="@, 0);
    law_secret_does_not_show(none, "Policy="@, a, a, true);
    assert(none + "Policy="@ + a =~= s);
    assert(none + "Policy="@ + "<redacted>"@ =~= t);
    lemma_other_marker("Policy="@, "<redacted>"@, "Key-Pair-Id="@, 0);
}

proof fn lemma_key_pair_id_hides(a: Seq<char>)
    requires
        is_secret(a),
    ensures
        hide_secrets("Key-Pair-Id="@ + a) == "Key-Pair-Id="@ + "<redacted>"@,
{
    reveal(hide_secrets);
    reveal_strlit("key=");
    reveal_strlit("decryption_key ");
    reveal_strlit("--key ");
    reveal_strlit("token=");
    reveal_strlit("signature=");
    reveal_strlit("sig=");
    reveal_strlit("Policy=");
    reveal_strlit("Key-Pair-Id=");
    let s = "Key-Pair-Id="@ + a;
    let t = "Key-Pair-Id="@ + "<redacted>"@;
    lemma_shown();
    assert forall|i: int| 0 <= i < a.len() implies #[trigger] a[i] != '=' && a[i] != ' ' by {
        assert(!is_space(a[i]));
    }
    assert("Key-Pair-Id="@[10] == 'd' && "key="@[2] == 'y');
    lemma_other_marker("Key-Pair-Id="@, a, "key="@, 1);
    lemma_other_marker("Key-Pair-Id="@, a, "decryption_key "@, 0);
    lemma_other_marker("Key-Pair-Id="@, a, "--key "@, 0);
    assert("Key-Pair-Id="@[10] == 'd' && "token="@[4] == 'n');
    lemma_other_marker("Key-Pair-Id="@, a, "token="@, 1);
    assert("Key-Pair-Id="@[10] == 'd' && "signature="@[8] == 'e');
    lemma_other_marker("Key-Pair-Id="@, a, "signature="@, 1);
    assert("Key-Pair-Id="@[10] == 'd' && "sig="@[2] == 'g');
    lemma_other_marker("Key-Pair-Id="@, a, "sig="@, 1);
    assert("Key-Pair-Id="@[10] == 'd' && "Policy="@[5] == 'y');
    lemma_other_marker("Key-Pair-Id="@, a, "Policy="@, 1);
    assert forall|i: int| 0 <= i < a.len() implies !ends_secret(#[trigger] a[i], true) by {
        assert(!is_space(a[i]));
    }
    let none = Seq::<char>::empty();
    lemma_find_from(none + "Key-Pair-Id="@.drop_last(), "Key-Pair-Id="@, 0);
    law_secret_does_not_show(none, "Key-Pair-Id="@, a, a, true);
    assert(none + "Key-Pair-Id="@ + a =~= s);
    assert(none + "Key-Pair-Id="@ + "<redacted>"@ =~= t);
}

/// A key, a token or a signature does not show, whatever it is: what stands behind its marker is
/// replaced.
pub proof fn law_secrets_do_not_show(a: Seq<char>)
    requires
        is_secret(a),
    ensures
        hide_secrets("key="@ + a) == "key="@ + "<redacted>"@,
        hide_secrets("decryption_key "@ + a) == "decryption_key "@ + "<redacted>"@,
        hide_secrets("--key "@ + a) == "--key "@ + "<redacted>"@,
        hide_secrets("token="@ + a) == "token="@ + "<redacted>"@,
        hide_secrets("signature="@ + a) == "signature="@ + "<redacted>"@,
        hide_secrets("sig="@ + a) == "sig="@ + "<redacted>"@,
        hide_secrets("Policy="@ + a) == "Policy="@ + "<redacted>"@,
        hide_secrets("Key-Pair-Id="@ + a) == "Key-Pair-Id="@ + "<redacted>"@,
{
    lemma_key_hides(a);
    lemma_decryption_key_hides(a);
    lemma_key_argument_hides(a);
    lemma_token_hides(a);
    lemma_signature_hides(a);
    lemma_sig_hides(a);
    lemma_policy_hides(a);
    lemma_key_pair_id_hides(a);
}

/// The messages of events are redacted, and nothing else of them changes.
pub proof fn law_messages_of_events_are_redacted(
    message: Seq<char>,
    level: crate::config::LogLevel,
    id: Option<Seq<char>>,
)
    ensures
        redacted_event(ProgressEventView::Log { level, message }) == (ProgressEventView::Log {
            level,
            message: hide_secrets(message),
        }),
        redacted_event(ProgressEventView::Warning { message }) == (ProgressEventView::Warning {
            message: hide_secrets(message),
        }),
        redacted_event(ProgressEventView::ExtraLog { message }) == (ProgressEventView::ExtraLog {
            message: hide_secrets(message),
        }),
        redacted_event(ProgressEventView::MuxProgress { message }) == (
        ProgressEventView::MuxProgress { message: hide_secrets(message) }),
        redacted_event(ProgressEventView::ExternalToolOutput { message }) == (
        ProgressEventView::ExternalToolOutput { message: hide_secrets(message) }),
        redacted_event(ProgressEventView::ConsoleLine { message }) == (
        ProgressEventView::ConsoleLine { message: hide_secrets(message) }),
        redacted_event(ProgressEventView::DecryptProgress { stream_id: id, message }) == (
        ProgressEventView::DecryptProgress { stream_id: id, message: hide_secrets(message) }),
        redacted_event(ProgressEventView::MergeProgress { stream_id: id, message }) == (
        ProgressEventView::MergeProgress { stream_id: id, message: hide_secrets(message) }),
{
}

} // verus!
