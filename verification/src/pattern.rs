//! Regular expressions: the matches of a pattern and the texts around them.

use crate::outside::{regex_captures, regex_error_of, regex_gaps, regex_groups, regex_split};
use vstd::prelude::*;

verus! {

/// The texts of groups; a group that did not take part is an empty text.
pub open spec fn group_texts(groups: Seq<Option<Seq<char>>>) -> Seq<Seq<char>> {
    groups.map_values(
        |g: Option<Seq<char>>|
            match g {
                Some(t) => t,
                None => Seq::empty(),
            },
    )
}

/// The matches of a regular expression in a text, left to right: for each the text between it and
/// the match before, the match, and its groups, a group that did not take part as an empty text; at
/// the end the text after the last match alone. None where the pattern is no regular expression.
#[verifier::opaque]
pub open spec fn regex_rows(pattern: Seq<char>, text: Seq<char>) -> Option<Seq<Seq<Seq<char>>>> {
    match (regex_groups(pattern, text), regex_gaps(pattern, text)) {
        (Some(groups), Some(gaps)) => Some(
            Seq::new(
                groups.len() + 1,
                |i: int|
                    if i < groups.len() {
                        seq![gaps[i]] + group_texts(groups[i])
                    } else {
                        seq![gaps[i]]
                    },
            ),
        ),
        _ => None,
    }
}

/// Model of rows of texts.
pub open spec fn view_rows(rows: Vec<Vec<String>>) -> Seq<Seq<Seq<char>>> {
    rows.deep_view()
}

fn append_groups(row: &mut Vec<String>, groups: &Vec<Option<String>>)
    ensures
        final(row).deep_view() == old(row).deep_view() + group_texts(groups.deep_view()),
{
    let ghost start = row.deep_view();
    let ghost all = group_texts(groups.deep_view());
    let mut i: usize = 0;
    assert(start + all.take(0) =~= start);
    while i < groups.len()
        invariant
            i <= groups@.len(),
            all == group_texts(groups.deep_view()),
            row.deep_view() == start + all.take(i as int),
        decreases groups@.len() - i,
    {
        assert(groups.deep_view()[i as int] == groups@[i as int].deep_view());
        let text: String = match &groups[i] {
            Some(t) => t.clone(),
            None => String::new(),
        };
        let ghost before = row.deep_view();
        assert(text@ =~= all[i as int]);
        row.push(text);
        assert(row.deep_view() =~= before.push(all[i as int]));
        assert(row.deep_view() =~= start + all.take(i + 1));
        i = i + 1;
    }
    assert(all.take(i as int) =~= all);
}

/// The matches of a regular expression in a text. The rows end with one that holds a single text,
/// and each row before it holds a text, a match and the groups of the pattern.
pub fn regex_scan(pattern: &str, text: &str) -> (r: Option<Vec<Vec<String>>>)
    ensures
        match r {
            Some(rows) => regex_rows(pattern@, text@) == Some(view_rows(rows)),
            None => regex_rows(pattern@, text@) is None,
        },
        r is None <==> regex_error_of(pattern@) is Some,
        r is Some ==> r->0@.len() > 0 && r->0@.last()@.len() == 1 && forall|i: int|
            0 <= i < r->0@.len() - 1 ==> #[trigger] r->0@[i]@.len() >= 2,
{
    proof {
        reveal(regex_rows);
    }
    let groups: Vec<Vec<Option<String>>> = regex_captures(pattern, text)?;
    let gaps: Vec<String> = regex_split(pattern, text)?;
    let ghost g = groups.deep_view();
    let ghost s = gaps.deep_view();
    let ghost all = regex_rows(pattern@, text@)->0;
    assert(g.len() == groups@.len());
    let mut rows: Vec<Vec<String>> = Vec::new();
    let mut i: usize = 0;
    assert(rows.deep_view() =~= all.take(0));
    while i < groups.len()
        invariant
            i <= groups@.len(),
            g == groups.deep_view(),
            s == gaps.deep_view(),
            g.len() == groups@.len(),
            gaps@.len() == g.len() + 1,
            all == Seq::new(
                g.len() + 1,
                |i: int|
                    if i < g.len() {
                        seq![s[i]] + group_texts(g[i])
                    } else {
                        seq![s[i]]
                    },
            ),
            forall|k: int| 0 <= k < groups@.len() ==> #[trigger] groups@[k]@.len() >= 1,
            rows@.len() == i,
            rows.deep_view() == all.take(i as int),
            forall|k: int| 0 <= k < i ==> #[trigger] rows@[k]@.len() >= 2,
        decreases groups@.len() - i,
    {
        assert(g[i as int] == groups@[i as int].deep_view());
        assert(g[i as int].len() == groups@[i as int]@.len());
        assert(s[i as int] == gaps@[i as int]@);
        let mut row: Vec<String> = Vec::new();
        row.push(gaps[i].clone());
        assert(row.deep_view() =~= seq![s[i as int]]);
        append_groups(&mut row, &groups[i]);
        assert(row.deep_view() == all[i as int]);
        assert(row.deep_view().len() == row@.len());
        let ghost before = rows.deep_view();
        rows.push(row);
        assert(rows.deep_view() =~= before.push(all[i as int]));
        assert(rows.deep_view() =~= all.take(i + 1));
        i = i + 1;
    }
    assert(s[i as int] == gaps@[i as int]@);
    let mut last: Vec<String> = Vec::new();
    last.push(gaps[i].clone());
    assert(last.deep_view() =~= seq![s[i as int]]);
    let ghost before = rows.deep_view();
    rows.push(last);
    assert(rows.deep_view() =~= before.push(all[i as int]));
    assert(rows.deep_view() =~= all);
    Some(rows)
}

} // verus!
