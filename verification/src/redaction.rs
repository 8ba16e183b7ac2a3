//! Hiding secrets twice gives what hiding them once gives.

use crate::decrypt::{ends_secret, hide_after, hide_secrets, lemma_secret_end, secret_end};
use crate::event::ProgressEventView;
use crate::observability::redacted_event;
use crate::text::{drop, find, lemma_find_from, occurs_at, take};
use vstd::prelude::*;

verus! {

/// What stands for a secret.
pub open spec fn mask() -> Seq<char> {
    "<redacted>"@
}

/// A character inside a marker: none that ends a marker, stands at an end of the mask, or ends a
/// secret.
pub open spec fn is_inner(c: char) -> bool {
    c != '=' && c != '<' && c != '>' && !ends_secret(c, false)
}

/// A marker ends with an equals sign or a space, which it holds nowhere else.
pub open spec fn is_marker(m: Seq<char>) -> bool {
    &&& m.len() >= 2
    &&& m.last() == '=' || m.last() == ' '
    &&& forall|k: int| 0 <= k < m.len() - 1 ==> is_inner(#[trigger] m[k])
}

/// Two markers cannot end at the same place.
pub open spec fn end_apart(a: Seq<char>, b: Seq<char>) -> bool {
    exists|d: int|
        1 <= d <= a.len() && d <= b.len() && #[trigger] a[a.len() - d] != b[b.len() - d]
}

/// Every marker is followed by the mask alone.
pub open spec fn is_clean(t: Seq<char>, m: Seq<char>, query: bool) -> bool {
    forall|i: int| #[trigger]
        occurs_at(t, m, i) ==> occurs_at(t, mask(), i + m.len()) && (i + m.len() + 10 == t.len()
            || ends_secret(t[i + m.len() + 10], query))
}

proof fn lemma_mask()
    ensures
        mask().len() == 10,
        mask()[0] == '<',
        mask()[9] == '>',
        forall|k: int| 0 <= k < 10 ==> #[trigger] mask()[k] != '=' && mask()[k] != ' ',
        forall|k: int| 0 <= k < 10 ==> !ends_secret(#[trigger] mask()[k], false),
        forall|k: int| 0 <= k < 10 ==> !ends_secret(#[trigger] mask()[k], true),
{
    reveal_strlit("<redacted>");
    assert forall|k: int| 0 <= k < 10 implies #[trigger] mask()[k] != '=' && mask()[k] != ' '
        && !ends_secret(mask()[k], false) && !ends_secret(mask()[k], true) by {
        assert(k == 0 || k == 1 || k == 2 || k == 3 || k == 4 || k == 5 || k == 6 || k == 7 || k == 8
            || k == 9);
    }
}

proof fn lemma_char_of(t: Seq<char>, p: Seq<char>, i: int, k: int)
    requires
        occurs_at(t, p, i),
        0 <= k < p.len(),
    ensures
        0 <= i + k < t.len(),
        t[i + k] == p[k],
{
    assert(t.subrange(i, i + p.len())[k] == p[k]);
}

proof fn lemma_secret_ends(s: Seq<char>, query: bool, i: int)
    requires
        0 <= i <= s.len(),
    ensures
        secret_end(s, query, i) < s.len() ==> ends_secret(s[secret_end(s, query, i)], query),
    decreases s.len() - i,
{
    if i < s.len() && !ends_secret(s[i], query) {
        lemma_secret_ends(s, query, i + 1);
    }
}

proof fn lemma_mask_is_secret(t: Seq<char>, query: bool, i: int, k: int)
    requires
        occurs_at(t, mask(), i),
        0 <= k <= 10,
        i + 10 == t.len() || ends_secret(t[i + 10], query),
    ensures
        secret_end(t, query, i + k) == i + 10,
    decreases 10 - k,
{
    lemma_mask();
    if k < 10 {
        lemma_char_of(t, mask(), i, k);
        assert(!ends_secret(mask()[k], query));
        lemma_mask_is_secret(t, query, i, k + 1);
    }
}

proof fn lemma_clean_rest(t: Seq<char>, m: Seq<char>, query: bool, n: int)
    requires
        is_clean(t, m, query),
        0 <= n <= t.len(),
        m.len() > 0,
    ensures
        is_clean(drop(t, n), m, query),
{
    lemma_mask();
    let r = drop(t, n);
    assert forall|i: int| #[trigger] occurs_at(r, m, i) implies occurs_at(r, mask(), i + m.len()) && (
    i + m.len() + 10 == r.len() || ends_secret(r[i + m.len() + 10], query)) by {
        assert(t.subrange(n + i, n + i + m.len()) =~= r.subrange(i, i + m.len()));
        assert(occurs_at(t, m, n + i));
        let e = n + i + m.len();
        assert(t.subrange(e, e + 10) =~= r.subrange(i + m.len(), i + m.len() + 10));
    }
}

proof fn lemma_clean_is_kept(t: Seq<char>, m: Seq<char>, query: bool)
    requires
        is_clean(t, m, query),
        is_marker(m),
    ensures
        hide_after(t, m, query) == t,
    decreases t.len(),
{
    lemma_mask();
    lemma_find_from(t, m, 0);
    if let Some(i) = find(t, m) {
        assert(occurs_at(t, m, i));
        let e = i + m.len();
        lemma_mask_is_secret(t, query, e, 0);
        let end = secret_end(t, query, e);
        assert(end == e + 10);
        lemma_clean_rest(t, m, query, end);
        lemma_clean_is_kept(drop(t, end), m, query);
        assert(t.subrange(i, e) =~= m);
        assert(t.subrange(e, e + 10) =~= mask());
        assert(take(t, i) + m + mask() + drop(t, end) =~= t);
    }
}

proof fn lemma_head_is_kept(s: Seq<char>, m: Seq<char>, query: bool)
    requires
        is_marker(m),
        s.len() > 0,
        ends_secret(s[0], query),
    ensures
        hide_after(s, m, query).len() > 0,
        hide_after(s, m, query)[0] == s[0],
{
    lemma_find_from(s, m, 0);
    if let Some(i) = find(s, m) {
        assert(occurs_at(s, m, i));
        if i == 0 {
            lemma_char_of(s, m, 0, 0);
            assert(is_inner(m[0]));
        }
        assert(take(s, i)[0] == s[0]);
    }
}

/// Where a marker stands in a text whose secrets behind another marker are hidden, it is not cut by
/// the mask.
proof fn lemma_not_cut(r: Seq<char>, a: Seq<char>, i: int, n: int)
    requires
        is_marker(a),
        occurs_at(r, a, i),
        occurs_at(r, mask(), n),
    ensures
        i + a.len() <= n || i >= n + 10,
{
    lemma_mask();
    lemma_char_of(r, mask(), n, 0);
    lemma_char_of(r, mask(), n, 9);
    if i <= n && n < i + a.len() {
        lemma_char_of(r, a, i, n - i);
        if n - i < a.len() - 1 {
            assert(is_inner(a[n - i]));
        }
    }
    if i <= n + 9 && n + 9 < i + a.len() {
        lemma_char_of(r, a, i, n + 9 - i);
        if n + 9 - i < a.len() - 1 {
            assert(is_inner(a[n + 9 - i]));
        }
    }
    if n < i && i + a.len() <= n + 9 {
        let k = i + a.len() - 1 - n;
        lemma_char_of(r, a, i, a.len() - 1);
        lemma_char_of(r, mask(), n, k);
        assert(mask()[k] != '=' && mask()[k] != ' ');
    }
}

/// A marker whose secrets are hidden in a text stands in front of where another marker's secrets begin,
/// with its mask.
proof fn lemma_mask_in_front(
    s: Seq<char>,
    a: Seq<char>,
    qa: bool,
    i: int,
    b: Seq<char>,
    k: int,
)
    requires
        is_marker(a),
        is_marker(b),
        end_apart(a, b),
        is_clean(s, a, qa),
        occurs_at(s, a, i),
        occurs_at(s, b, k),
        i + a.len() <= k + b.len(),
    ensures
        occurs_at(s, mask(), i + a.len()),
        i + a.len() + 10 < k,
        ends_secret(s[i + a.len() + 10], qa),
{
    lemma_mask();
    let e = i + a.len();
    let n = k + b.len();
    assert(occurs_at(s, mask(), e));
    lemma_not_cut(s, b, k, e);
    if e == n {
        let d = choose|d: int|
            1 <= d <= a.len() && d <= b.len() && #[trigger] a[a.len() - d] != b[b.len() - d];
        lemma_char_of(s, a, i, a.len() - d);
        lemma_char_of(s, b, k, b.len() - d);
    }
    if k + b.len() <= e {
        assert(e == n);
        assert(false);
    }
    assert(k >= e + 10);
    lemma_char_of(s, b, k, 0);
    assert(e + 10 < s.len());
    assert(ends_secret(s[e + 10], qa));
    if k == e + 10 {
        assert(is_inner(b[0]));
    }
}

/// Hiding the secrets behind one marker keeps those behind another hidden, and hides its own.
proof fn lemma_hidden_is_clean(s: Seq<char>, b: Seq<char>, qb: bool, a: Seq<char>, qa: bool)
    requires
        is_marker(a),
        is_marker(b),
        (a == b && qa == qb) || (end_apart(a, b) && is_clean(s, a, qa)),
    ensures
        is_clean(hide_after(s, b, qb), a, qa),
    decreases s.len(),
{
    lemma_mask();
    lemma_find_from(s, b, 0);
    let r = hide_after(s, b, qb);
    match find(s, b) {
        None => {
            if a == b {
                assert forall|i: int| #[trigger] occurs_at(r, a, i) implies false by {
                    assert(i >= 0);
                }
            }
        },
        Some(k) => {
            assert(occurs_at(s, b, k));
            let n = k + b.len();
            let end = secret_end(s, qb, n);
            lemma_secret_end(s, qb, n);
            lemma_secret_ends(s, qb, n);
            let d = drop(s, end);
            let rest = hide_after(d, b, qb);
            if !(a == b && qa == qb) {
                lemma_clean_rest(s, a, qa, end);
            }
            lemma_hidden_is_clean(d, b, qb, a, qa);
            assert(s.subrange(k, n) =~= b);
            let front = take(s, k) + b;
            assert(front =~= take(s, n));
            assert(r == front + mask() + rest);
            assert(r.subrange(n, n + 10) =~= mask());
            assert(occurs_at(r, mask(), n));
            assert forall|i: int| #[trigger] occurs_at(r, a, i) implies occurs_at(
                r,
                mask(),
                i + a.len(),
            ) && (i + a.len() + 10 == r.len() || ends_secret(r[i + a.len() + 10], qa)) by {
                lemma_not_cut(r, a, i, n);
                if i + a.len() <= n {
                    assert(s.subrange(i, i + a.len()) =~= r.subrange(i, i + a.len()));
                    assert(occurs_at(s, a, i));
                    if a == b && qa == qb {
                        assert(i == k);
                        if rest.len() > 0 {
                            if d.len() == 0 {
                                lemma_find_from(d, b, 0);
                                assert(find(d, b) is None);
                                assert(rest == d);
                            }
                            assert(d[0] == s[end]);
                            lemma_head_is_kept(d, b, qb);
                            assert(r[n + 10] == rest[0]);
                        }
                    } else {
                        lemma_mask_in_front(s, a, qa, i, b, k);
                        let e = i + a.len();
                        assert(r.subrange(e, e + 10) =~= s.subrange(e, e + 10));
                        assert(r[e + 10] == s[e + 10]);
                    }
                } else {
                    let j = i - n - 10;
                    assert(rest.subrange(j, j + a.len()) =~= r.subrange(i, i + a.len()));
                    assert(occurs_at(rest, a, j));
                    let e = j + a.len();
                    assert(r.subrange(i + a.len(), i + a.len() + 10) =~= rest.subrange(e, e + 10));
                    if e + 10 < rest.len() {
                        assert(r[i + a.len() + 10] == rest[e + 10]);
                    }
                }
            }
        },
    }
}

/// The markers of secrets, each with whether only an ampersand ends the secret.
pub open spec fn markers() -> Seq<(Seq<char>, bool)> {
    seq![
        ("key="@, false),
        ("decryption_key "@, false),
        ("--key "@, false),
        ("token="@, true),
        ("signature="@, true),
        ("sig="@, true),
        ("Policy="@, true),
        ("Key-Pair-Id="@, true),
    ]
}

/// A text with the secrets behind the first `n` markers hidden.
pub open spec fn hidden_behind(s: Seq<char>, n: int) -> Seq<char>
    decreases n,
{
    if n <= 0 {
        s
    } else {
        hide_after(hidden_behind(s, n - 1), markers()[n - 1].0, markers()[n - 1].1)
    }
}

proof fn lemma_markers()
    ensures
        markers().len() == 8,
        forall|i: int| 0 <= i < 8 ==> is_marker(#[trigger] markers()[i].0),
{
    reveal_strlit("key=");
    reveal_strlit("decryption_key ");
    reveal_strlit("--key ");
    reveal_strlit("token=");
    reveal_strlit("signature=");
    reveal_strlit("sig=");
    reveal_strlit("Policy=");
    reveal_strlit("Key-Pair-Id=");
    assert(is_marker("key="@));
    assert(is_marker("decryption_key "@));
    assert(is_marker("--key "@));
    assert(is_marker("token="@));
    assert(is_marker("signature="@));
    assert(is_marker("sig="@));
    assert(is_marker("Policy="@));
    assert(is_marker("Key-Pair-Id="@));
}

proof fn lemma_ends(a: Seq<char>, b: Seq<char>, d: int)
    requires
        1 <= d <= a.len(),
        d <= b.len(),
        a[a.len() - d] != b[b.len() - d],
    ensures
        end_apart(a, b),
{
}

/// How far from the end two markers first differ.
pub open spec fn apart_at(i: int, j: int) -> int {
    if (i == 1 || i == 2) != (j == 1 || j == 2) {
        1
    } else if i == 1 || i == 2 {
        5
    } else if (i == 0 && j == 6) || (i == 6 && j == 0) {
        3
    } else {
        2
    }
}

proof fn lemma_markers_end_apart(i: int, j: int)
    requires
        0 <= i < 8,
        0 <= j < 8,
        i != j,
    ensures
        end_apart(markers()[i].0, markers()[j].0),
{
    lemma_markers();
    reveal_strlit("key=");
    reveal_strlit("decryption_key ");
    reveal_strlit("--key ");
    reveal_strlit("token=");
    reveal_strlit("signature=");
    reveal_strlit("sig=");
    reveal_strlit("Policy=");
    reveal_strlit("Key-Pair-Id=");
    lemma_ends(markers()[i].0, markers()[j].0, apart_at(i, j));
}

proof fn lemma_all_clean(s: Seq<char>, n: int)
    requires
        0 <= n <= 8,
    ensures
        forall|i: int|
            0 <= i < n ==> is_clean(hidden_behind(s, n), #[trigger] markers()[i].0, markers()[i].1),
    decreases n,
{
    lemma_markers();
    if n > 0 {
        lemma_all_clean(s, n - 1);
        let t = hidden_behind(s, n - 1);
        let (b, qb) = markers()[n - 1];
        assert forall|i: int| 0 <= i < n implies is_clean(
            hidden_behind(s, n),
            #[trigger] markers()[i].0,
            markers()[i].1,
        ) by {
            let (a, qa) = markers()[i];
            if i < n - 1 {
                lemma_markers_end_apart(i, n - 1);
            }
            lemma_hidden_is_clean(t, b, qb, a, qa);
        }
    }
}

proof fn lemma_clean_stays(t: Seq<char>, n: int)
    requires
        0 <= n <= 8,
        forall|i: int| 0 <= i < 8 ==> is_clean(t, #[trigger] markers()[i].0, markers()[i].1),
    ensures
        hidden_behind(t, n) == t,
    decreases n,
{
    lemma_markers();
    if n > 0 {
        lemma_clean_stays(t, n - 1);
        let (m, q) = markers()[n - 1];
        assert(is_clean(t, markers()[n - 1].0, markers()[n - 1].1));
        lemma_clean_is_kept(t, m, q);
    }
}

proof fn lemma_hidden_behind_all(s: Seq<char>)
    ensures
        hide_secrets(s) == hidden_behind(s, 8),
{
    reveal(hide_secrets);
    reveal_with_fuel(hidden_behind, 9);
}

/// Hiding the secrets of a text a second time changes nothing.
pub proof fn law_hiding_twice_changes_nothing(s: Seq<char>)
    ensures
        hide_secrets(hide_secrets(s)) == hide_secrets(s),
{
    lemma_hidden_behind_all(s);
    lemma_hidden_behind_all(hide_secrets(s));
    lemma_all_clean(s, 8);
    lemma_clean_stays(hide_secrets(s), 8);
}

/// Hiding the secrets of an event a second time changes nothing.
pub proof fn law_redacting_an_event_twice_changes_nothing(e: ProgressEventView)
    ensures
        redacted_event(redacted_event(e)) == redacted_event(e),
{
    match e {
        ProgressEventView::Log { message, .. } => {
            law_hiding_twice_changes_nothing(message);
        },
        ProgressEventView::MediaInfo { lines, .. } => {
            let once = lines.map_values(|l: Seq<char>| hide_secrets(l));
            assert forall|i: int| 0 <= i < lines.len() implies hide_secrets(once[i])
                == #[trigger] once[i] by {
                law_hiding_twice_changes_nothing(lines[i]);
            }
            assert(once.map_values(|l: Seq<char>| hide_secrets(l)) =~= once);
        },
        ProgressEventView::DecryptProgress { message, .. } => {
            law_hiding_twice_changes_nothing(message);
        },
        ProgressEventView::MergeProgress { message, .. } => {
            law_hiding_twice_changes_nothing(message);
        },
        ProgressEventView::SubtitleProgress { message, .. } => {
            law_hiding_twice_changes_nothing(message);
        },
        ProgressEventView::MuxProgress { message } => {
            law_hiding_twice_changes_nothing(message);
        },
        ProgressEventView::ExternalToolOutput { message } => {
            law_hiding_twice_changes_nothing(message);
        },
        ProgressEventView::ConsoleLine { message } => {
            law_hiding_twice_changes_nothing(message);
        },
        ProgressEventView::Warning { message } => {
            law_hiding_twice_changes_nothing(message);
        },
        ProgressEventView::ExtraLog { message } => {
            law_hiding_twice_changes_nothing(message);
        },
        _ => {},
    }
}

} // verus!
