//! What a DASH manifest says of its segments.

use crate::dash::{
    after_entry, after_template, attr_or_empty, count_for, formatted_numbers, joined_playlist,
    last_segment, law_timeline_goes_on, listed_segments, numbered_segments, repeated,
    representation_of, template_attr, template_url, with_range, DashContextView, DashFactsView,
    Filled, TemplateView, TimelineState,
};
use crate::manifest::{MediaDurationView, MediaSegmentView, PlaylistView};
use crate::text::{contains, dec, drop, find, lemma_find_from, occurs_at, replace};
use crate::text_laws::{
    law_cut_at_a_character, law_decimal_is_read_within, law_replace_first,
    law_replace_without_occurrence, lemma_decimal_lacks, lemma_lacks_first,
};
use crate::url::combined_url;
use crate::xml::{attr_of, first_child, XmlNodeView};
use vstd::prelude::*;

verus! {

/// A text with one variable between its dollar signs.
spec fn has_variable(a: Seq<char>, name: Seq<char>, b: Seq<char>) -> bool {
    &&& !a.contains('$')
    &&& !b.contains('$')
    &&& name.len() >= 2
    &&& name[0] == '$'
    &&& name.last() == '$'
    &&& forall|i: int| 0 < i < name.len() - 1 ==> #[trigger] name[i] != '$'
}

/// Where the dollar signs of such a text are.
proof fn lemma_dollars(a: Seq<char>, name: Seq<char>, b: Seq<char>, i: int)
    requires
        has_variable(a, name, b),
        0 <= i < (a + name + b).len(),
        (a + name + b)[i] == '$',
    ensures
        i == a.len() || i == a.len() + name.len() - 1,
{
    let s = a + name + b;
    if i < a.len() {
        assert(s[i] == a[i]);
    } else if i < a.len() + name.len() {
        assert(s[i] == name[i - a.len()]);
    } else {
        assert(s[i] == b[i - a.len() - name.len()]);
    }
}

/// Another variable does not occur in it.
proof fn lemma_other_variable(a: Seq<char>, name: Seq<char>, b: Seq<char>, other: Seq<char>)
    requires
        has_variable(a, name, b),
        other.len() >= 2,
        other[0] == '$',
        other.last() == '$',
        other.len() != name.len(),
    ensures
        !contains(a + name + b, other),
{
    let s = a + name + b;
    lemma_find_from(s, other, 0);
    if contains(s, other) {
        let k = find(s, other)->0;
        assert(s.subrange(k, k + other.len())[0] == s[k]);
        assert(s.subrange(k, k + other.len())[other.len() - 1] == s[k + other.len() - 1]);
        lemma_dollars(a, name, b, k);
        lemma_dollars(a, name, b, k + other.len() - 1);
    }
}

/// The variable is replaced where it stands.
proof fn lemma_variable_is_replaced(a: Seq<char>, name: Seq<char>, b: Seq<char>, w: Seq<char>)
    requires
        has_variable(a, name, b),
    ensures
        replace(a + name + b, name, w) == a + w + b,
{
    let s = a + name + b;
    assert forall|i: int| 0 <= i < a.len() implies !occurs_at(s, name, i) by {
        if occurs_at(s, name, i) {
            assert(s.subrange(i, i + name.len())[0] == s[i]);
            assert(s[i] == a[i]);
        }
    }
    law_replace_first(a, name, b, w);
    lemma_lacks_first(b, name);
    law_replace_without_occurrence(b, name, w);
}

/// A text without dollar signs holds no variable.
proof fn lemma_no_variable(s: Seq<char>, name: Seq<char>, w: Seq<char>)
    requires
        !s.contains('$'),
        name.len() > 0,
        name[0] == '$',
    ensures
        replace(s, name, w) == s,
{
    lemma_lacks_first(s, name);
}

proof fn lemma_no_formatted_number(s: Seq<char>, n: int)
    requires
        !s.contains('$'),
    ensures
        formatted_numbers(s, n) == s,
{
    reveal_strlit("$Number%");
    lemma_lacks_first(s, "$Number%"@);
}

/// Text, number and text again hold no dollar sign where the texts do not.
proof fn lemma_no_dollar(a: Seq<char>, w: Seq<char>, b: Seq<char>)
    requires
        !a.contains('$'),
        !w.contains('$'),
        !b.contains('$'),
    ensures
        !(a + w + b).contains('$'),
{
    let s = a + w + b;
    if s.contains('$') {
        let i = choose|i: int| 0 <= i < s.len() && s[i] == '$';
        if i < a.len() {
            assert(a[i] == '$');
        } else if i < a.len() + w.len() {
            assert(w[i - a.len()] == '$');
        } else {
            assert(b[i - a.len() - w.len()] == '$');
        }
    }
}

proof fn lemma_variables()
    ensures
        "$Time$"@.len() == 6,
        "$Number$"@.len() == 8,
        "$Bandwidth$"@.len() == 11,
        "$RepresentationID$"@.len() == 18,
        has_variable(Seq::empty(), "$Time$"@, Seq::empty()),
        has_variable(Seq::empty(), "$Number$"@, Seq::empty()),
        has_variable(Seq::empty(), "$Bandwidth$"@, Seq::empty()),
        has_variable(Seq::empty(), "$RepresentationID$"@, Seq::empty()),
        "$Time$"@[1] == 'T',
{
    reveal_strlit("$Time$");
    reveal_strlit("$Number$");
    reveal_strlit("$Bandwidth$");
    reveal_strlit("$RepresentationID$");
    let none = Seq::<char>::empty();
    assert forall|i: int| 0 < i < 5 implies #[trigger] "$Time$"@[i] != '$' by {}
    assert forall|i: int| 0 < i < 7 implies #[trigger] "$Number$"@[i] != '$' by {}
    assert forall|i: int| 0 < i < 10 implies #[trigger] "$Bandwidth$"@[i] != '$' by {}
    assert forall|i: int| 0 < i < 17 implies #[trigger] "$RepresentationID$"@[i] != '$' by {}
}

/// The time of a segment stands in its URL in place of the variable; all else stays.
pub proof fn law_template_names_the_time(
    a: Seq<char>,
    b: Seq<char>,
    id: Seq<char>,
    bandwidth: Seq<char>,
    number: Option<int>,
    time: nat,
)
    requires
        !a.contains('$'),
        !b.contains('$'),
    ensures
        template_url(a + "$Time$"@ + b, id, bandwidth, number, Some(time as int)) == a + dec(time)
            + b,
{
    let name = "$Time$"@;
    let s = a + name + b;
    lemma_variables();
    assert(has_variable(a, name, b));
    lemma_other_variable(a, name, b, "$RepresentationID$"@);
    law_replace_without_occurrence(s, "$RepresentationID$"@, id);
    lemma_other_variable(a, name, b, "$Bandwidth$"@);
    law_replace_without_occurrence(s, "$Bandwidth$"@, bandwidth);
    match number {
        Some(n) => {
            lemma_other_variable(a, name, b, "$Number$"@);
            law_replace_without_occurrence(s, "$Number$"@, crate::text::dec_int(n));
            lemma_time_is_no_formatted_number(a, b, n);
        },
        None => {},
    }
    lemma_variable_is_replaced(a, name, b, dec(time));
}

proof fn lemma_time_is_no_formatted_number(a: Seq<char>, b: Seq<char>, n: int)
    requires
        !a.contains('$'),
        !b.contains('$'),
    ensures
        formatted_numbers(a + "$Time$"@ + b, n) == a + "$Time$"@ + b,
{
    let s = a + "$Time$"@ + b;
    lemma_variables();
    reveal_strlit("$Number%");
    reveal_strlit("d$");
    lemma_find_from(s, "$Number%"@, 0);
    if find(s, "$Number%"@) is Some {
        let k = find(s, "$Number%"@)->0;
        assert(s.subrange(k, k + 8)[0] == s[k]);
        assert(s.subrange(k, k + 8)[1] == s[k + 1]);
        lemma_dollars(a, "$Time$"@, b, k);
        assert(s[a.len() as int + 1] == "$Time$"@[1]);
        assert(k == a.len() + 5);
        let rest = drop(s, k + 8);
        lemma_find_from(rest, "d$"@, 0);
        if find(rest, "d$"@) is Some {
            let j = find(rest, "d$"@)->0;
            assert(rest.subrange(j, j + 2)[1] == rest[j + 1]);
            assert(rest[j + 1] == s[k + 8 + j + 1]);
            lemma_dollars(a, "$Time$"@, b, k + 8 + j + 1);
        }
    }
}

/// The number of a segment stands in its URL in place of the variable; all else stays.
pub proof fn law_template_names_the_number(
    a: Seq<char>,
    b: Seq<char>,
    id: Seq<char>,
    bandwidth: Seq<char>,
    number: nat,
    time: Option<int>,
)
    requires
        !a.contains('$'),
        !b.contains('$'),
    ensures
        template_url(a + "$Number$"@ + b, id, bandwidth, Some(number as int), time) == a + dec(
            number,
        ) + b,
{
    let name = "$Number$"@;
    let s = a + name + b;
    lemma_variables();
    assert(has_variable(a, name, b));
    lemma_other_variable(a, name, b, "$RepresentationID$"@);
    law_replace_without_occurrence(s, "$RepresentationID$"@, id);
    lemma_other_variable(a, name, b, "$Bandwidth$"@);
    law_replace_without_occurrence(s, "$Bandwidth$"@, bandwidth);
    lemma_variable_is_replaced(a, name, b, dec(number));
    lemma_decimal_lacks(number, '$');
    lemma_no_dollar(a, dec(number), b);
    lemma_no_formatted_number(a + dec(number) + b, number as int);
    match time {
        Some(t) => {
            lemma_no_variable(a + dec(number) + b, "$Time$"@, crate::text::dec_int(t));
        },
        None => {},
    }
}

/// The identifier of the representation stands in the URL in place of its variable.
pub proof fn law_template_names_the_representation(
    a: Seq<char>,
    b: Seq<char>,
    id: Seq<char>,
    bandwidth: Seq<char>,
    number: Option<int>,
    time: Option<int>,
)
    requires
        !a.contains('$'),
        !b.contains('$'),
        !id.contains('$'),
    ensures
        template_url(a + "$RepresentationID$"@ + b, id, bandwidth, number, time) == a + id + b,
{
    let name = "$RepresentationID$"@;
    lemma_variables();
    assert(has_variable(a, name, b));
    lemma_variable_is_replaced(a, name, b, id);
    lemma_no_dollar(a, id, b);
    lemma_no_variables_left(a + id + b, bandwidth, number, time);
}

/// The bandwidth stands in the URL in place of its variable.
pub proof fn law_template_names_the_bandwidth(
    a: Seq<char>,
    b: Seq<char>,
    id: Seq<char>,
    bandwidth: Seq<char>,
    number: Option<int>,
    time: Option<int>,
)
    requires
        !a.contains('$'),
        !b.contains('$'),
        !bandwidth.contains('$'),
    ensures
        template_url(a + "$Bandwidth$"@ + b, id, bandwidth, number, time) == a + bandwidth + b,
{
    let name = "$Bandwidth$"@;
    let s = a + name + b;
    lemma_variables();
    assert(has_variable(a, name, b));
    lemma_other_variable(a, name, b, "$RepresentationID$"@);
    law_replace_without_occurrence(s, "$RepresentationID$"@, id);
    lemma_variable_is_replaced(a, name, b, bandwidth);
    lemma_no_dollar(a, bandwidth, b);
    let t = a + bandwidth + b;
    match number {
        Some(n) => {
            lemma_no_variable(t, "$Number$"@, crate::text::dec_int(n));
            lemma_no_formatted_number(t, n);
        },
        None => {},
    }
    match time {
        Some(n) => {
            lemma_no_variable(t, "$Time$"@, crate::text::dec_int(n));
        },
        None => {},
    }
}

proof fn lemma_no_variables_left(
    s: Seq<char>,
    bandwidth: Seq<char>,
    number: Option<int>,
    time: Option<int>,
)
    requires
        !s.contains('$'),
    ensures
        replace(s, "$Bandwidth$"@, bandwidth) == s,
        number is Some ==> replace(s, "$Number$"@, crate::text::dec_int(number->0)) == s,
        number is Some ==> formatted_numbers(s, number->0) == s,
        time is Some ==> replace(s, "$Time$"@, crate::text::dec_int(time->0)) == s,
{
    lemma_variables();
    lemma_no_variable(s, "$Bandwidth$"@, bandwidth);
    if number is Some {
        lemma_no_variable(s, "$Number$"@, crate::text::dec_int(number->0));
        lemma_no_formatted_number(s, number->0);
    }
    if time is Some {
        lemma_no_variable(s, "$Time$"@, crate::text::dec_int(time->0));
    }
}

/// A text without variables is its own URL.
pub proof fn law_template_without_variables(
    s: Seq<char>,
    id: Seq<char>,
    bandwidth: Seq<char>,
    number: Option<int>,
    time: Option<int>,
)
    requires
        !s.contains('$'),
    ensures
        template_url(s, id, bandwidth, number, time) == s,
{
    lemma_variables();
    lemma_no_variable(s, "$RepresentationID$"@, id);
    lemma_no_variables_left(s, bandwidth, number, time);
}

/// An entry of a timeline.
pub open spec fn is_entry(
    doc: Seq<XmlNodeView>,
    node: int,
    start: Option<nat>,
    units: nat,
    repeats: nat,
) -> bool {
    &&& attr_of(doc, node, "t"@) == match start {
        Some(t) => Some(dec(t)),
        None => None,
    }
    &&& attr_of(doc, node, "d"@) == Some(dec(units))
    &&& attr_of(doc, node, "r"@) == Some(dec(repeats))
}

/// Where the segments of an entry begin: where it states, else where the one before ended.
pub open spec fn entry_start(st: TimelineState, start: Option<nat>) -> int {
    match start {
        Some(t) => t as int,
        None => st.time as int,
    }
}

proof fn lemma_entry_is_read(
    t: TemplateView,
    st: TimelineState,
    doc: Seq<XmlNodeView>,
    node: int,
    period: Option<Seq<char>>,
    facts: DashFactsView,
    start: Option<nat>,
    units: nat,
    repeats: nat,
)
    requires
        is_entry(doc, node, start, units, repeats),
        start is Some ==> start->0 <= i64::MAX,
        units <= i64::MAX,
        repeats <= i64::MAX,
    ensures
        after_entry(t, st, doc, node, period, facts) is Ok,
        after_entry(t, st, doc, node, period, facts)->Ok_0 == repeated(
            t,
            TimelineState { time: entry_start(st, start) as i64, ..st },
            units as i64,
            repeats as int + 1,
        ),
{
    law_decimal_is_read_within(units, i64::MIN as int, i64::MAX as int);
    law_decimal_is_read_within(repeats, i64::MIN as int, i64::MAX as int);
    if start is Some {
        law_decimal_is_read_within(start->0, i64::MIN as int, i64::MAX as int);
    }
}

/// An entry of a timeline adds one segment and its repetitions. The first begins where the entry
/// states, or without that where the timeline stands; each other begins where the one before ends. A
/// template with the time in its name names that time, one with the number names the number that
/// follows. The timeline then stands behind the last.
pub proof fn law_entry_begins_where_it_states(
    t: TemplateView,
    st: TimelineState,
    doc: Seq<XmlNodeView>,
    node: int,
    period: Option<Seq<char>>,
    facts: DashFactsView,
    start: Option<nat>,
    units: nat,
    repeats: nat,
    k: int,
    a: Seq<char>,
    b: Seq<char>,
)
    requires
        is_entry(doc, node, start, units, repeats),
        0 <= k <= repeats,
        0 <= st.time,
        0 <= st.number,
        0 <= st.index,
        start is Some ==> start->0 <= i64::MAX,
        units <= i64::MAX,
        repeats <= i64::MAX,
        entry_start(st, start) + (repeats + 1) * units <= i64::MAX,
        st.number + repeats + 1 <= i64::MAX,
        st.index + repeats + 1 <= i64::MAX,
        !a.contains('$'),
        !b.contains('$'),
    ensures
        after_entry(t, st, doc, node, period, facts) is Ok,
        ({
            let next = after_entry(t, st, doc, node, period, facts)->Ok_0;
            let begin = (entry_start(st, start) + k * units) as nat;
            let added = next.segments[st.segments.len() + k];
            &&& next.segments.len() == st.segments.len() + repeats + 1
            &&& next.segments.take(st.segments.len() as int) == st.segments
            &&& next.time == entry_start(st, start) + (repeats + 1) * units
            &&& next.number == st.number + repeats + 1
            &&& added.index == st.index + k
            &&& added.duration == (MediaDurationView::Ticks {
                units: units as int,
                timescale: t.timescale as int,
            })
            &&& t.media == a + "$Time$"@ + b ==> added.url == combined_url(
                t.base,
                a + dec(begin) + b,
            ) && added.name_from_var == Some(dec(begin))
            &&& t.media == a + "$Number$"@ + b ==> added.url == combined_url(
                t.base,
                a + dec((st.number + k) as nat) + b,
            )
        }),
{
    lemma_entry_is_read(t, st, doc, node, period, facts, start, units, repeats);
    let from = TimelineState { time: entry_start(st, start) as i64, ..st };
    let n = repeats + 1;
    assert(n * units >= 0 && 0 <= k * units <= n * units) by (nonlinear_arith)
        requires
            n == repeats + 1,
            0 <= k <= repeats,
            units >= 0,
            repeats >= 0,
    ;
    assert(n * (units as i64) == n * units);
    law_timeline_goes_on(t, from, units as i64, n as int, k);
    let begin = (entry_start(st, start) + k * units) as nat;
    if t.media == a + "$Time$"@ + b {
        law_template_names_the_time(
            a,
            b,
            t.id,
            t.bandwidth,
            Some((st.number + k) as i64 as int),
            begin,
        );
        lemma_holds_time(a, b);
    }
    if t.media == a + "$Number$"@ + b {
        law_template_names_the_number(
            a,
            b,
            t.id,
            t.bandwidth,
            (st.number + k) as nat,
            Some(begin as int),
        );
    }
}

proof fn lemma_holds_time(a: Seq<char>, b: Seq<char>)
    ensures
        contains(a + "$Time$"@ + b, "$Time"@),
{
    reveal_strlit("$Time$");
    reveal_strlit("$Time");
    let s = a + "$Time$"@ + b;
    let n = a.len() as int;
    lemma_find_from(s, "$Time"@, 0);
    assert(s.subrange(n, n + 5) =~= "$Time"@);
    assert(occurs_at(s, "$Time"@, n));
}

/// Segments of equal duration are numbered on from the first, one for each of their count, and a
/// template with the number in its name names it.
pub proof fn law_numbered_segments_count_on(
    t: TemplateView,
    units: i64,
    first: i64,
    count: i64,
    is_dynamic: bool,
    k: int,
    a: Seq<char>,
    b: Seq<char>,
)
    requires
        0 <= k < count,
        0 <= first,
        first + count <= i64::MAX,
        t.media == a + "$Number$"@ + b,
        !a.contains('$'),
        !b.contains('$'),
    ensures
        numbered_segments(t, units, first, count, is_dynamic).len() == count,
        ({
            let s = numbered_segments(t, units, first, count, is_dynamic)[k];
            &&& s.url == combined_url(t.base, a + dec((first + k) as nat) + b)
            &&& s.duration == (MediaDurationView::Ticks {
                units: units as int,
                timescale: t.timescale as int,
            })
            &&& s.index == if is_dynamic {
                first + k
            } else {
                k
            }
        }),
{
    law_template_names_the_number(a, b, t.id, t.bandwidth, (first + k) as nat, None);
}

/// A template of a fixed duration gives a static presentation the segments that fill its period: the
/// first has the stated number, each the stated duration. The inner template counts before the outer
/// one.
pub proof fn law_template_states_its_segments(
    c: DashContextView,
    f: Filled,
    inner: int,
    outer: int,
    representation: int,
    base: Seq<char>,
    period: Option<Seq<char>>,
    timescale: nat,
    first: nat,
    units: nat,
    count: i64,
    k: int,
    a: Seq<char>,
    b: Seq<char>,
    init: Seq<char>,
)
    requires
        !c.is_dynamic,
        template_attr(c.doc, inner, outer, "timescale"@) == Some(dec(timescale)),
        template_attr(c.doc, inner, outer, "startNumber"@) == Some(dec(first)),
        template_attr(c.doc, inner, outer, "presentationTimeOffset"@) is None,
        template_attr(c.doc, inner, outer, "duration"@) == Some(dec(units)),
        template_attr(c.doc, inner, outer, "media"@) == Some(a + "$Number$"@ + b),
        template_attr(c.doc, inner, outer, "initialization"@) == Some(init),
        first_child(c.doc, inner, "SegmentTimeline"@) is None,
        timescale <= i32::MAX,
        0 < units <= i64::MAX,
        count_for(period, timescale as i32, units as i64, c.facts) == Ok::<
            i64,
            crate::dash::DashStopView,
        >(count),
        0 <= k < count,
        first + count <= i64::MAX,
        !a.contains('$'),
        !b.contains('$'),
        !init.contains('$'),
    ensures
        after_template(c, f, inner, outer, representation, base, period) is Ok,
        ({
            let r = after_template(c, f, inner, outer, representation, base, period)->Ok_0;
            let s = r.segments[f.segments.len() + k];
            &&& r.segments.len() == f.segments.len() + count
            &&& s.url == combined_url(base, a + dec((first + k) as nat) + b)
            &&& s.index == k
            &&& s.duration == (MediaDurationView::Ticks {
                units: units as int,
                timescale: timescale as int,
            })
            &&& r.init is Some && (r.init->0).url == combined_url(base, init)
        }),
{
    law_decimal_is_read_within(timescale, i32::MIN as int, i32::MAX as int);
    law_decimal_is_read_within(first, i64::MIN as int, i64::MAX as int);
    law_decimal_is_read_within(units, i64::MIN as int, i64::MAX as int);
    let t = TemplateView {
        media: a + "$Number$"@ + b,
        id: attr_or_empty(c.doc, representation, "id"@),
        bandwidth: attr_or_empty(c.doc, representation, "bandwidth"@),
        base,
        timescale: timescale as i32,
    };
    law_template_without_variables(init, t.id, t.bandwidth, None, None);
    law_numbered_segments_count_on(t, units as i64, first as i64, count, false, k, a, b);
}

/// Where the outer template states an attribute and the inner one states it too, the inner one
/// counts.
pub proof fn law_inner_template_counts(doc: Seq<XmlNodeView>, inner: int, outer: int, name: Seq<char>)
    ensures
        attr_of(doc, inner, name) is Some ==> template_attr(doc, inner, outer, name) == attr_of(
            doc,
            inner,
            name,
        ),
        attr_of(doc, inner, name) is None ==> template_attr(doc, inner, outer, name) == attr_of(
            doc,
            outer,
            name,
        ),
{
}

/// The segments of a list are those that it names, in its order.
pub proof fn law_listed_segments_keep_the_order(
    doc: Seq<XmlNodeView>,
    nodes: Seq<int>,
    n: int,
    base: Seq<char>,
    units: int,
    timescale: int,
    k: int,
)
    requires
        0 <= k < n <= nodes.len(),
        n <= i64::MAX,
        listed_segments(doc, nodes, n, base, units, timescale) is Ok,
    ensures
        ({
            let all = listed_segments(doc, nodes, n, base, units, timescale)->Ok_0;
            &&& all.len() == n
            &&& all[k].index == k
            &&& all[k].duration == (MediaDurationView::Ticks { units, timescale })
            &&& attr_of(doc, nodes[k], "media"@) is Some ==> all[k].url == combined_url(
                base,
                attr_of(doc, nodes[k], "media"@)->0,
            )
            &&& attr_of(doc, nodes[k], "media"@) is None ==> all[k].url == base
        }),
    decreases n,
{
    lemma_listed_len(doc, nodes, n, base, units, timescale);
    if k < n - 1 {
        law_listed_segments_keep_the_order(doc, nodes, n - 1, base, units, timescale, k);
    } else {
        lemma_listed_len(doc, nodes, n - 1, base, units, timescale);
    }
}

proof fn lemma_listed_len(
    doc: Seq<XmlNodeView>,
    nodes: Seq<int>,
    n: int,
    base: Seq<char>,
    units: int,
    timescale: int,
)
    requires
        0 <= n <= nodes.len(),
        listed_segments(doc, nodes, n, base, units, timescale) is Ok,
    ensures
        listed_segments(doc, nodes, n, base, units, timescale)->Ok_0.len() == n,
    decreases n,
{
    if n > 0 {
        lemma_listed_len(doc, nodes, n - 1, base, units, timescale);
    }
}

/// A byte range runs from its first byte to its last, both included.
pub proof fn law_range_counts_both_ends(segment: MediaSegmentView, start: nat, stop: nat)
    requires
        start <= stop <= i64::MAX,
        stop - start + 1 <= i64::MAX,
    ensures
        with_range(segment, dec(start) + "-"@ + dec(stop)) is Ok,
        ({
            let r = with_range(segment, dec(start) + "-"@ + dec(stop))->Ok_0;
            &&& r.start_range is Some && r.start_range->0 == start
            &&& r.expected_length is Some && r.expected_length->0 == stop - start + 1
            &&& r.url == segment.url && r.index == segment.index && r.duration == segment.duration
        }),
{
    reveal_strlit("-");
    assert("-"@ =~= seq!['-']);
    lemma_decimal_lacks(start, '-');
    law_cut_at_a_character(dec(start), '-', dec(stop));
    law_decimal_is_read_within(start, i64::MIN as int, i64::MAX as int);
    law_decimal_is_read_within(stop, i64::MIN as int, i64::MAX as int);
}

/// A stream has the size, the bandwidth and the codecs that its representation states.
pub proof fn law_representation_is_what_it_states(
    c: DashContextView,
    adaptation: int,
    representation: int,
    carried: Option<Seq<char>>,
    base: Seq<char>,
    period_id: Option<Seq<char>>,
    period: Option<Seq<char>>,
    width: Seq<char>,
    height: Seq<char>,
    bandwidth: nat,
)
    requires
        attr_of(c.doc, representation, "width"@) == Some(width),
        attr_of(c.doc, representation, "height"@) == Some(height),
        attr_of(c.doc, representation, "bandwidth"@) == Some(dec(bandwidth)),
        bandwidth <= i32::MAX,
        representation_of(
            c,
            adaptation,
            representation,
            carried,
            base,
            period_id,
            period,
        ) is Ok,
    ensures
        ({
            let s = representation_of(
                c,
                adaptation,
                representation,
                carried,
                base,
                period_id,
                period,
            )->Ok_0;
            let codecs = attr_of(c.doc, representation, "codecs"@);
            &&& s.resolution == Some(width + "x"@ + height)
            &&& s.bandwidth is Some && s.bandwidth->0 == bandwidth
            &&& codecs is Some ==> s.codecs == codecs
            &&& codecs is None ==> s.codecs == attr_of(c.doc, adaptation, "codecs"@)
            &&& s.period_id == period_id
            &&& s.url == c.url
            &&& s.playlist is Some && (s.playlist->0).is_live == c.is_dynamic
            &&& (s.playlist->0).media_parts.len() == 1
        }),
{
    law_decimal_is_read_within(bandwidth, i32::MIN as int, i32::MAX as int);
}

/// A stream that goes on in a second period keeps its own segments and gets those of the second
/// behind them, with their URLs and durations, numbered on from its last.
pub proof fn law_second_period_goes_on(a: PlaylistView, b: PlaylistView, i: int, k: int)
    requires
        last_segment(a.media_parts) is Some,
        b.media_parts.len() > 0 && b.media_parts[0].len() > 0,
        (last_segment(a.media_parts)->0).url != b.media_parts[0].last().url,
        0 <= i < b.media_parts.len(),
        0 <= k < b.media_parts[i].len(),
        0 <= (last_segment(a.media_parts)->0).index,
        0 <= b.media_parts[i][k].index,
        (last_segment(a.media_parts)->0).index + 1 + b.media_parts[i][k].index <= i64::MAX,
    ensures
        ({
            let j = joined_playlist(a, b);
            let s = j.media_parts[a.media_parts.len() + i][k];
            &&& j.media_parts.len() == a.media_parts.len() + b.media_parts.len()
            &&& j.media_parts.take(a.media_parts.len() as int) == a.media_parts
            &&& s.url == b.media_parts[i][k].url
            &&& s.duration == b.media_parts[i][k].duration
            &&& s.encryption == b.media_parts[i][k].encryption
            &&& s.index == (last_segment(a.media_parts)->0).index + 1 + b.media_parts[i][k].index
            &&& j.media_init == a.media_init
        }),
{
    let j = joined_playlist(a, b);
    assert(j.media_parts.take(a.media_parts.len() as int) =~= a.media_parts);
}

} // verus!
