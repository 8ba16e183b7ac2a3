//! Choosing streams on a terminal.

use crate::console_color::{find_method_end, lemma_method_end, method_end};
use crate::error::{Error, ErrorView};
use crate::manifest::{MediaType, Stream, StreamView};
use crate::text::{
    begins_with, drop, find, find_text, lemma_find_from, owned, same, slice, slice_from,
    starts_with, strip_prefix, take, to_chars, without_prefix,
};
use vstd::prelude::*;

verus! {

/// How many entries are shown at once.
pub const PAGE_SIZE: usize = 10;

/// An entry of the list.
#[derive(Debug, PartialEq, Eq)]
pub enum PromptEntry {
    Group { title: String },
    Stream { stream_index: usize, label: String },
}

/// Model of `PromptEntry`.
pub enum PromptEntryView {
    Group { title: Seq<char> },
    Stream { stream_index: usize, label: Seq<char> },
}

impl DeepView for PromptEntry {
    type V = PromptEntryView;

    open spec fn deep_view(&self) -> PromptEntryView {
        match self {
            PromptEntry::Group { title } => PromptEntryView::Group { title: title@ },
            PromptEntry::Stream { stream_index, label } => PromptEntryView::Stream {
                stream_index: *stream_index,
                label: label@,
            },
        }
    }
}

/// Streams that are listed together.
#[derive(Clone, Copy, Debug, PartialEq, Eq, Structural)]
pub enum MediaGroup {
    Basic,
    Audio,
    Subtitle,
}

/// The group of a stream.
pub open spec fn group_of(s: StreamView) -> MediaGroup {
    match s.media_type {
        None => MediaGroup::Basic,
        Some(MediaType::Video) => MediaGroup::Basic,
        Some(MediaType::Audio) => MediaGroup::Audio,
        Some(MediaType::Subtitles) => MediaGroup::Subtitle,
        Some(MediaType::ClosedCaptions) => MediaGroup::Subtitle,
    }
}

/// The title of a group.
pub open spec fn group_title(g: MediaGroup) -> Seq<char> {
    match g {
        MediaGroup::Basic => "Basic"@,
        MediaGroup::Audio => "Audio"@,
        MediaGroup::Subtitle => "Subtitle"@,
    }
}

fn title_of(g: MediaGroup) -> (r: &'static str)
    ensures
        r@ == group_title(g),
{
    match g {
        MediaGroup::Basic => "Basic",
        MediaGroup::Audio => "Audio",
        MediaGroup::Subtitle => "Subtitle",
    }
}

fn find_group(s: &Stream) -> (r: MediaGroup)
    ensures
        r == group_of(s.deep_view()),
{
    match s.media_type {
        None => MediaGroup::Basic,
        Some(MediaType::Video) => MediaGroup::Basic,
        Some(MediaType::Audio) => MediaGroup::Audio,
        Some(MediaType::Subtitles) => MediaGroup::Subtitle,
        Some(MediaType::ClosedCaptions) => MediaGroup::Subtitle,
    }
}

/// The entries of those of the first `n` streams that are in a group, under its title.
pub open spec fn group_entries(
    streams: Seq<StreamView>,
    labels: Seq<Seq<char>>,
    n: int,
    g: MediaGroup,
) -> Seq<PromptEntryView>
    decreases n,
{
    if n <= 0 {
        Seq::empty()
    } else {
        let before = group_entries(streams, labels, n - 1, g);
        if group_of(streams[n - 1]) == g {
            (if before.len() == 0 {
                seq![PromptEntryView::Group { title: group_title(g) }]
            } else {
                before
            }).push(
                PromptEntryView::Stream { stream_index: (n - 1) as usize, label: labels[n - 1] },
            )
        } else {
            before
        }
    }
}

/// The entries for streams: group by group, each under its title.
pub open spec fn entries_for(streams: Seq<StreamView>, labels: Seq<Seq<char>>) -> Seq<
    PromptEntryView,
> {
    let n = streams.len() as int;
    group_entries(streams, labels, n, MediaGroup::Basic) + group_entries(
        streams,
        labels,
        n,
        MediaGroup::Audio,
    ) + group_entries(streams, labels, n, MediaGroup::Subtitle)
}

fn list_group(entries: &mut Vec<PromptEntry>, streams: &Vec<Stream>, labels: &Vec<String>, g: MediaGroup)
    requires
        labels@.len() == streams@.len(),
    ensures
        final(entries).deep_view() == old(entries).deep_view() + group_entries(
            streams.deep_view(),
            labels.deep_view(),
            streams@.len() as int,
            g,
        ),
{
    let ghost start = entries.deep_view();
    let ghost sv = streams.deep_view();
    let ghost lv = labels.deep_view();
    let mut titled: bool = false;
    let mut i: usize = 0;
    assert(start + group_entries(sv, lv, 0, g) =~= start);
    while i < streams.len()
        invariant
            i <= streams@.len(),
            labels@.len() == streams@.len(),
            sv == streams.deep_view(),
            lv == labels.deep_view(),
            titled == (group_entries(sv, lv, i as int, g).len() > 0),
            entries.deep_view() == start + group_entries(sv, lv, i as int, g),
        decreases streams@.len() - i,
    {
        assert(sv[i as int] == streams@[i as int].deep_view());
        assert(lv[i as int] == labels@[i as int]@);
        if find_group(&streams[i]) == g {
            let ghost before = entries.deep_view();
            if !titled {
                entries.push(PromptEntry::Group { title: owned(title_of(g)) });
                titled = true;
                assert(entries.deep_view() =~= before.push(
                    PromptEntryView::Group { title: group_title(g) },
                ));
            }
            let ghost middle = entries.deep_view();
            entries.push(PromptEntry::Stream { stream_index: i, label: labels[i].clone() });
            assert(entries.deep_view() =~= middle.push(
                PromptEntryView::Stream { stream_index: i, label: lv[i as int] },
            ));
            assert(entries.deep_view() =~= start + group_entries(sv, lv, i + 1, g));
        }
        i = i + 1;
    }
}

/// The entries for streams with labels.
pub fn prompt_entries(streams: &Vec<Stream>, labels: &Vec<String>) -> (r: Vec<PromptEntry>)
    requires
        labels@.len() == streams@.len(),
    ensures
        r.deep_view() == entries_for(streams.deep_view(), labels.deep_view()),
{
    let mut entries: Vec<PromptEntry> = Vec::new();
    assert(entries.deep_view() =~= Seq::<PromptEntryView>::empty());
    list_group(&mut entries, streams, labels, MediaGroup::Basic);
    list_group(&mut entries, streams, labels, MediaGroup::Audio);
    list_group(&mut entries, streams, labels, MediaGroup::Subtitle);
    assert(entries.deep_view() =~= entries_for(streams.deep_view(), labels.deep_view()));
    entries
}

/// The numbers ascend.
pub open spec fn ascends(s: Seq<usize>) -> bool {
    forall|i: int, j: int| 0 <= i < j < s.len() ==> #[trigger] s[i] < #[trigger] s[j]
}

/// A set of numbers with or without one of them, whichever it was not.
pub open spec fn toggled(s: Set<usize>, x: usize) -> Set<usize> {
    if s.contains(x) {
        s.remove(x)
    } else {
        s.insert(x)
    }
}

/// What was chosen twice is as it was.
pub proof fn law_toggling_twice_changes_nothing(s: Set<usize>, x: usize)
    ensures
        toggled(toggled(s, x), x) == s,
{
    assert(toggled(toggled(s, x), x) =~= s);
}

fn toggle_index(selected: &mut Vec<usize>, x: usize)
    requires
        ascends(old(selected)@),
    ensures
        ascends(final(selected)@),
        final(selected)@.to_set() == toggled(old(selected)@.to_set(), x),
{
    let ghost all = selected@;
    let mut i: usize = 0;
    while i < selected.len() && selected[i] < x
        invariant
            i <= selected@.len(),
            all == selected@,
            ascends(all),
            forall|k: int| 0 <= k < i ==> #[trigger] all[k] < x,
        decreases selected@.len() - i,
    {
        i = i + 1;
    }
    if i < selected.len() && selected[i] == x {
        let _gone: usize = selected.remove(i);
        let ghost now = selected@;
        assert(all.to_set().contains(x)) by {
            assert(all[i as int] == x);
        }
        assert forall|a: int, b: int| 0 <= a < b < now.len() implies #[trigger] now[a]
            < #[trigger] now[b] by {
            let p = if a < i {
                a
            } else {
                a + 1
            };
            let q = if b < i {
                b
            } else {
                b + 1
            };
            assert(now[a] == all[p] && now[b] == all[q]);
        }
        assert forall|y: usize| now.to_set().contains(y) == #[trigger] toggled(
            all.to_set(),
            x,
        ).contains(y) by {
            if now.to_set().contains(y) {
                let a = choose|a: int| 0 <= a < now.len() && now[a] == y;
                let p = if a < i {
                    a
                } else {
                    a + 1
                };
                assert(all[p] == y);
                assert(p != i);
                if p < i {
                    assert(all[p] < all[i as int]);
                } else {
                    assert(all[i as int] < all[p]);
                }
                assert(y != x);
            }
            if all.to_set().contains(y) && y != x {
                let p = choose|p: int| 0 <= p < all.len() && all[p] == y;
                let a = if p < i {
                    p
                } else {
                    p - 1
                };
                assert(now[a] == y);
            }
        }
        assert(now.to_set() =~= toggled(all.to_set(), x));
    } else {
        selected.insert(i, x);
        let ghost now = selected@;
        assert(!all.to_set().contains(x)) by {
            if all.to_set().contains(x) {
                let p = choose|p: int| 0 <= p < all.len() && all[p] == x;
                if p > i {
                    assert(all[i as int] < all[p]);
                }
            }
        }
        assert forall|a: int, b: int| 0 <= a < b < now.len() implies #[trigger] now[a]
            < #[trigger] now[b] by {
            if a < i && b < i {
                assert(now[a] == all[a] && now[b] == all[b]);
            } else if a < i && b == i {
                assert(now[a] == all[a]);
            } else if a < i {
                assert(now[a] == all[a] && now[b] == all[b - 1]);
            } else if a == i {
                assert(now[b] == all[b - 1]);
                if b - 1 > i {
                    assert(all[i as int] < all[b - 1]);
                }
            } else {
                assert(now[a] == all[a - 1] && now[b] == all[b - 1]);
            }
        }
        assert forall|y: usize| now.to_set().contains(y) == #[trigger] toggled(
            all.to_set(),
            x,
        ).contains(y) by {
            if now.to_set().contains(y) && y != x {
                let a = choose|a: int| 0 <= a < now.len() && now[a] == y;
                let p = if a < i {
                    a
                } else {
                    a - 1
                };
                assert(all[p] == y);
            }
            if all.to_set().contains(y) {
                let p = choose|p: int| 0 <= p < all.len() && all[p] == y;
                let a = if p < i {
                    p
                } else {
                    p + 1
                };
                assert(now[a] == y);
            }
            assert(now[i as int] == x);
        }
        assert(now.to_set() =~= toggled(all.to_set(), x));
    }
}


/// What the list shows and what is chosen.
#[derive(Debug)]
pub struct PromptState {
    entries: Vec<PromptEntry>,
    selected: Vec<usize>,
    cursor: usize,
    offset: usize,
}

/// Model of `PromptState`.
pub struct PromptStateView {
    pub entries: Seq<PromptEntryView>,
    pub selected: Set<usize>,
    pub cursor: int,
    pub offset: int,
}

impl DeepView for PromptState {
    type V = PromptStateView;

    closed spec fn deep_view(&self) -> PromptStateView {
        PromptStateView {
            entries: self.entries.deep_view(),
            selected: self.selected@.to_set(),
            cursor: self.cursor as int,
            offset: self.offset as int,
        }
    }
}

/// The cursor stands on an entry that is shown, and the page is full where there are entries for
/// it.
pub open spec fn cursor_is_shown(t: PromptStateView) -> bool {
    &&& 0 <= t.cursor < t.entries.len()
    &&& 0 <= t.offset <= t.cursor < t.offset + PAGE_SIZE
    &&& t.entries.len() <= PAGE_SIZE ==> t.offset == 0
    &&& t.entries.len() > PAGE_SIZE ==> t.offset + PAGE_SIZE <= t.entries.len()
}

/// A key of the keyboard.
#[derive(Clone, Copy, Debug, PartialEq, Eq, Structural)]
pub enum PromptKey {
    Up,
    Down,
    Home,
    End,
    PageUp,
    PageDown,
    Space,
    Enter,
    Escape,
    Interrupt,
    Other,
}

/// What a key leads to.
#[derive(Debug)]
pub enum PromptStep {
    /// The list is shown again.
    Continue,
    /// These streams are chosen.
    Accept(Vec<usize>),
    /// Nothing is chosen.
    Cancel(Error),
}

/// Where the list begins to be shown so that the cursor is shown.
pub open spec fn shown_from(cursor: int, offset: int) -> int {
    if cursor < offset {
        cursor
    } else if cursor >= offset + PAGE_SIZE {
        if cursor < PAGE_SIZE - 1 {
            0
        } else {
            cursor - (PAGE_SIZE - 1)
        }
    } else {
        offset
    }
}

/// A number, or a bound that it does not pass.
pub open spec fn bounded(x: int, least: int, most: int) -> int {
    if x < least {
        least
    } else if x > most {
        most
    } else {
        x
    }
}

/// Where a key moves the cursor to.
pub open spec fn cursor_after(t: PromptStateView, key: PromptKey) -> int {
    let last = t.entries.len() - 1;
    match key {
        PromptKey::Up => bounded(t.cursor - 1, 0, last),
        PromptKey::Down => bounded(t.cursor + 1, 0, last),
        PromptKey::Home => 0,
        PromptKey::End => last,
        PromptKey::PageUp => bounded(t.cursor - PAGE_SIZE, 0, last),
        PromptKey::PageDown => bounded(t.cursor + PAGE_SIZE, 0, last),
        _ => t.cursor,
    }
}

/// The state after a key.
pub open spec fn state_after(t: PromptStateView, key: PromptKey) -> PromptStateView {
    let cursor = cursor_after(t, key);
    PromptStateView {
        cursor,
        offset: shown_from(cursor, t.offset),
        selected: if key == PromptKey::Space {
            match t.entries[t.cursor] {
                PromptEntryView::Stream { stream_index, .. } => toggled(t.selected, stream_index),
                PromptEntryView::Group { .. } => t.selected,
            }
        } else {
            t.selected
        },
        ..t
    }
}

/// The cursor is shown after every key, on a page that is full where there are entries for it.
pub proof fn law_cursor_stays_shown(t: PromptStateView, key: PromptKey)
    requires
        cursor_is_shown(t),
    ensures
        cursor_is_shown(state_after(t, key)),
        state_after(t, key).entries == t.entries,
{
}

/// A stream is chosen after the space key exactly where it was not, and nothing else changes.
pub proof fn law_space_toggles_the_stream_at_the_cursor(t: PromptStateView, index: usize, other: usize)
    requires
        cursor_is_shown(t),
        t.entries[t.cursor] is Stream,
        t.entries[t.cursor]->stream_index == index,
        other != index,
    ensures
        state_after(t, PromptKey::Space).selected.contains(index) == !t.selected.contains(index),
        state_after(t, PromptKey::Space).selected.contains(other) == t.selected.contains(other),
        state_after(state_after(t, PromptKey::Space), PromptKey::Space) == t,
{
    law_toggling_twice_changes_nothing(t.selected, index);
}

/// What a key leads to, of a state before it.
pub open spec fn step_is(t: PromptStateView, key: PromptKey, step: PromptStep) -> bool {
    match step {
        PromptStep::Continue => {
            key != PromptKey::Escape && key != PromptKey::Interrupt && (key == PromptKey::Enter
                ==> t.selected == Set::<usize>::empty())
        },
        PromptStep::Accept(indexes) => {
            &&& key == PromptKey::Enter
            &&& indexes@.len() > 0
            &&& ascends(indexes@)
            &&& indexes@.to_set() == t.selected
        },
        PromptStep::Cancel(e) => {
            &&& key == PromptKey::Escape || key == PromptKey::Interrupt
            &&& e.deep_view() == ErrorView::Config("interactive selection cancelled"@)
        },
    }
}

/// The streams that are chosen at first: those that are named and there, or else the first one.
pub open spec fn first_selection(defaults: Seq<usize>, count: nat) -> Set<usize> {
    let there = Set::new(|x: usize| defaults.contains(x) && x < count);
    if there == Set::<usize>::empty() && count > 0 {
        set![0usize]
    } else {
        there
    }
}

fn insert_index(selected: &mut Vec<usize>, x: usize)
    requires
        ascends(old(selected)@),
    ensures
        ascends(final(selected)@),
        final(selected)@.to_set() == old(selected)@.to_set().insert(x),
{
    let ghost all = selected@.to_set();
    if !has_index(selected, x) {
        toggle_index(selected, x);
    } else {
        assert(all =~= all.insert(x));
    }
}

fn has_index(selected: &Vec<usize>, x: usize) -> (r: bool)
    ensures
        r == selected@.to_set().contains(x),
{
    let mut i: usize = 0;
    while i < selected.len()
        invariant
            i <= selected@.len(),
            forall|k: int| 0 <= k < i ==> #[trigger] selected@[k] != x,
        decreases selected@.len() - i,
    {
        if selected[i] == x {
            assert(selected@.contains(x));
            return true;
        }
        i = i + 1;
    }
    false
}

impl PromptState {
    /// The chosen streams are kept in ascending order, and the cursor is shown.
    pub closed spec fn wf(&self) -> bool {
        &&& ascends(self.selected@)
        &&& cursor_is_shown(self.deep_view())
    }

    /// The list of streams at first, where there are any.
    pub fn new(streams: &Vec<Stream>, labels: &Vec<String>, default_indexes: &Vec<usize>) -> (r:
        Option<PromptState>)
        requires
            labels@.len() == streams@.len(),
        ensures
            r is Some <==> streams@.len() > 0,
            r matches Some(state) ==> state.wf() && state.deep_view() == (PromptStateView {
                entries: entries_for(streams.deep_view(), labels.deep_view()),
                selected: first_selection(default_indexes@, streams@.len()),
                cursor: 0,
                offset: 0,
            }),
    {
        let entries: Vec<PromptEntry> = prompt_entries(streams, labels);
        proof {
            lemma_entries_for(streams.deep_view(), labels.deep_view());
            assert(entries.deep_view().len() == entries@.len());
        }
        if entries.len() == 0 {
            return None;
        }
        let mut selected: Vec<usize> = Vec::new();
        let mut i: usize = 0;
        let ghost there = |n: int| Set::new(
            |x: usize| default_indexes@.take(n).contains(x) && x < streams@.len(),
        );
        assert(selected@.to_set() =~= there(0));
        while i < default_indexes.len()
            invariant
                i <= default_indexes@.len(),
                ascends(selected@),
                there == |n: int|
                    Set::new(
                        |x: usize| default_indexes@.take(n).contains(x) && x < streams@.len(),
                    ),
                selected@.to_set() == there(i as int),
            decreases default_indexes@.len() - i,
        {
            let x: usize = default_indexes[i];
            assert(default_indexes@.take(i + 1) =~= default_indexes@.take(i as int).push(x));
            assert forall|y: usize| #[trigger]
                default_indexes@.take(i + 1).contains(y) == (default_indexes@.take(
                    i as int,
                ).contains(y) || y == x) by {
                let now = default_indexes@.take(i + 1);
                let before = default_indexes@.take(i as int);
                if before.contains(y) {
                    let k = choose|k: int| 0 <= k < before.len() && before[k] == y;
                    assert(now[k] == y);
                }
                if y == x {
                    assert(now[i as int] == y);
                }
            }
            if x < streams.len() {
                insert_index(&mut selected, x);
                assert(there(i + 1) =~= there(i as int).insert(x));
            } else {
                assert(there(i + 1) =~= there(i as int));
            }
            i = i + 1;
        }
        assert(default_indexes@.take(i as int) =~= default_indexes@);
        if selected.len() == 0 {
            assert(selected@.to_set() =~= Set::<usize>::empty());
            insert_index(&mut selected, 0);
            assert(selected@.to_set() =~= set![0usize]);
        } else {
            assert(selected@.to_set().contains(selected@[0]));
        }
        assert(selected@.to_set() =~= first_selection(default_indexes@, streams@.len()));
        Some(PromptState { entries, selected, cursor: 0, offset: 0 })
    }

    fn keep_cursor_visible(&mut self)
        requires
            ascends(old(self).selected@),
            old(self).cursor < old(self).entries@.len(),
            old(self).entries@.len() <= PAGE_SIZE ==> old(self).offset == 0,
            old(self).entries@.len() > PAGE_SIZE ==> old(self).offset + PAGE_SIZE <= old(
                self,
            ).entries@.len(),
        ensures
            final(self).deep_view() == (PromptStateView {
                offset: shown_from(old(self).cursor as int, old(self).offset as int),
                ..old(self).deep_view()
            }),
            final(self).wf(),
            final(self).entries == old(self).entries,
            final(self).selected == old(self).selected,
    {
        if self.cursor < self.offset {
            self.offset = self.cursor;
        } else if self.cursor - self.offset >= PAGE_SIZE {
            self.offset = self.cursor - (PAGE_SIZE - 1);
        }
        assert(self.entries.deep_view().len() == self.entries@.len());
    }

    fn selected_indexes(&self) -> (r: Vec<usize>)
        ensures
            r@ == self.selected@,
    {
        let mut out: Vec<usize> = Vec::new();
        let mut i: usize = 0;
        while i < self.selected.len()
            invariant
                i <= self.selected@.len(),
                out@ == self.selected@.take(i as int),
            decreases self.selected@.len() - i,
        {
            out.push(self.selected[i]);
            assert(out@ =~= self.selected@.take(i + 1));
            i = i + 1;
        }
        assert(out@ =~= self.selected@);
        out
    }

    fn toggle_current(&mut self)
        requires
            old(self).wf(),
        ensures
            final(self).wf(),
            final(self).deep_view() == state_after(old(self).deep_view(), PromptKey::Space),
    {
        assert(self.entries.deep_view().len() == self.entries@.len());
        assert(self.entries.deep_view()[self.cursor as int]
            == self.entries@[self.cursor as int].deep_view());
        match &self.entries[self.cursor] {
            PromptEntry::Stream { stream_index, .. } => {
                let index: usize = *stream_index;
                toggle_index(&mut self.selected, index);
            },
            PromptEntry::Group { .. } => {},
        }
    }

    fn move_to(&mut self, key: PromptKey)
        requires
            old(self).wf(),
            key != PromptKey::Space,
        ensures
            final(self).wf(),
            final(self).deep_view() == state_after(old(self).deep_view(), key),
    {
        assert(self.entries.deep_view().len() == self.entries@.len());
        let count: usize = self.entries.len();
        let last: usize = count - 1;
        let rest: usize = last - self.cursor;
        match key {
            PromptKey::Up => {
                if self.cursor > 0 {
                    self.cursor = self.cursor - 1;
                }
            },
            PromptKey::Down => {
                if rest > 0 {
                    self.cursor = self.cursor + 1;
                }
            },
            PromptKey::Home => {
                self.cursor = 0;
            },
            PromptKey::End => {
                self.cursor = last;
            },
            PromptKey::PageUp => {
                self.cursor = if self.cursor > PAGE_SIZE {
                    self.cursor - PAGE_SIZE
                } else {
                    0
                };
            },
            PromptKey::PageDown => {
                self.cursor = if rest > PAGE_SIZE {
                    self.cursor + PAGE_SIZE
                } else {
                    last
                };
            },
            _ => {},
        }
        self.keep_cursor_visible();
    }

    /// Takes a key.
    pub fn press(&mut self, key: PromptKey) -> (r: PromptStep)
        requires
            old(self).wf(),
        ensures
            final(self).wf(),
            final(self).deep_view() == state_after(old(self).deep_view(), key),
            step_is(old(self).deep_view(), key, r),
    {
        match key {
            PromptKey::Space => {
                self.toggle_current();
                PromptStep::Continue
            },
            PromptKey::Enter => {
                if self.selected.len() > 0 {
                    return PromptStep::Accept(self.selected_indexes());
                }
                assert(self.selected@.to_set() =~= Set::<usize>::empty());
                PromptStep::Continue
            },
            PromptKey::Escape => PromptStep::Cancel(Error::config("interactive selection cancelled")),
            PromptKey::Interrupt => PromptStep::Cancel(
                Error::config("interactive selection cancelled"),
            ),
            PromptKey::Other => PromptStep::Continue,
            _ => {
                self.move_to(key);
                PromptStep::Continue
            },
        }
    }
}

proof fn lemma_group_entries(
    streams: Seq<StreamView>,
    labels: Seq<Seq<char>>,
    n: int,
    g: MediaGroup,
    at: int,
)
    requires
        0 <= at < n <= streams.len(),
        group_of(streams[at]) == g,
    ensures
        group_entries(streams, labels, n, g).len() > 0,
    decreases n,
{
    if at < n - 1 {
        lemma_group_entries(streams, labels, n - 1, g, at);
    }
}

proof fn lemma_entries_for(streams: Seq<StreamView>, labels: Seq<Seq<char>>)
    ensures
        entries_for(streams, labels).len() > 0 <==> streams.len() > 0,
{
    if streams.len() > 0 {
        lemma_group_entries(streams, labels, streams.len() as int, group_of(streams[0]), 0);
    }
}

/// A colour of the list.
#[derive(Clone, Copy, Debug, PartialEq, Eq, Structural)]
pub enum Ink {
    Plain,
    Green,
    Blue,
    DarkGrey,
    Group,
    Video,
    Audio,
    Subtitle,
    Method,
}

/// What a terminal is told.
#[derive(Debug, PartialEq, Eq)]
pub enum PromptPiece {
    /// The cursor goes up by some lines, to the first column.
    Up(u16),
    /// The line is emptied, and the cursor goes to the first column.
    ClearLine,
    /// A text in a colour.
    Text(Ink, String),
}

/// Model of `PromptPiece`.
pub enum PromptPieceView {
    Up(u16),
    ClearLine,
    Text(Ink, Seq<char>),
}

impl DeepView for PromptPiece {
    type V = PromptPieceView;

    open spec fn deep_view(&self) -> PromptPieceView {
        match self {
            PromptPiece::Up(n) => PromptPieceView::Up(*n),
            PromptPiece::ClearLine => PromptPieceView::ClearLine,
            PromptPiece::Text(ink, s) => PromptPieceView::Text(*ink, s@),
        }
    }
}

/// A colour, where there are colours.
pub open spec fn ink_if(ansi: bool, ink: Ink) -> Ink {
    if ansi {
        ink
    } else {
        Ink::Plain
    }
}

/// A text in a colour, where there is any text.
pub open spec fn run(ink: Ink, s: Seq<char>) -> Seq<PromptPieceView> {
    if s.len() == 0 {
        Seq::empty()
    } else {
        seq![PromptPieceView::Text(ink, s)]
    }
}

/// The rest of a label: the names of encryptions, which stand behind an asterisk, in their
/// colour.
pub open spec fn tail_pieces(s: Seq<char>, base: Ink, ansi: bool) -> Seq<PromptPieceView>
    decreases s.len(),
    via tail_pieces_decreases
{
    match find(s, "*"@) {
        None => run(base, s),
        Some(i) => {
            let end = method_end(s, i + 1);
            if end > i + 1 {
                run(base, take(s, i)).push(
                    PromptPieceView::Text(ink_if(ansi, Ink::Method), s.subrange(i, end)),
                ) + tail_pieces(drop(s, end), base, ansi)
            } else {
                run(base, take(s, i)).push(PromptPieceView::Text(base, "*"@)) + tail_pieces(
                    drop(s, i + 1),
                    base,
                    ansi,
                )
            }
        },
    }
}

#[via_fn]
proof fn tail_pieces_decreases(s: Seq<char>, base: Ink, ansi: bool) {
    reveal_strlit("*");
    if let Some(i) = find(s, "*"@) {
        lemma_find_from(s, "*"@, 0);
        lemma_method_end(s, i + 1);
    }
}

/// A kind of stream in front of a label, in its colour, where it stands there.
pub open spec fn kind_pieces(s: Seq<char>, kind: Seq<char>, ink: Ink, base: Ink, ansi: bool) -> Option<
    Seq<PromptPieceView>,
> {
    if s == kind {
        Some(seq![PromptPieceView::Text(ink_if(ansi, ink), kind)])
    } else {
        match strip_prefix(s, kind) {
            Some(rest) => if starts_with(rest, " "@) {
                Some(
                    seq![PromptPieceView::Text(ink_if(ansi, ink), kind)] + tail_pieces(
                        rest,
                        base,
                        ansi,
                    ),
                )
            } else {
                None
            },
            None => None,
        }
    }
}

/// The label of a stream.
pub open spec fn label_pieces(s: Seq<char>, base: Ink, ansi: bool) -> Seq<PromptPieceView> {
    let video = kind_pieces(s, "Vid"@, Ink::Video, base, ansi);
    let audio = kind_pieces(s, "Aud"@, Ink::Audio, base, ansi);
    let subtitle = kind_pieces(s, "Sub"@, Ink::Subtitle, base, ansi);
    if video is Some {
        video->0
    } else if audio is Some {
        audio->0
    } else if subtitle is Some {
        subtitle->0
    } else {
        tail_pieces(s, base, ansi)
    }
}

fn put(out: &mut Vec<PromptPiece>, ink: Ink, s: &str)
    ensures
        final(out).deep_view() == old(out).deep_view().push(PromptPieceView::Text(ink, s@)),
{
    let ghost before = out.deep_view();
    out.push(PromptPiece::Text(ink, owned(s)));
    assert(out.deep_view() =~= before.push(PromptPieceView::Text(ink, s@)));
}

fn put_run(out: &mut Vec<PromptPiece>, ink: Ink, s: &str)
    ensures
        final(out).deep_view() == old(out).deep_view() + run(ink, s@),
{
    let ghost before = out.deep_view();
    if s.unicode_len() > 0 {
        put(out, ink, s);
    }
    assert(out.deep_view() =~= before + run(ink, s@));
}

fn colour(ansi: bool, ink: Ink) -> (r: Ink)
    ensures
        r == ink_if(ansi, ink),
{
    if ansi {
        ink
    } else {
        Ink::Plain
    }
}

fn write_stream_label_tail(out: &mut Vec<PromptPiece>, value: &str, base: Ink, ansi: bool)
    ensures
        final(out).deep_view() == old(out).deep_view() + tail_pieces(value@, base, ansi),
    decreases value@.len(),
{
    proof {
        reveal_strlit("*");
        lemma_find_from(value@, "*"@, 0);
    }
    let ghost start = out.deep_view();
    match find_text(value, "*") {
        None => {
            put_run(out, base, value);
        },
        Some(i) => {
            let v: Vec<char> = to_chars(value);
            let _len: usize = v.len();
            let end: usize = find_method_end(&v, i + 1);
            put_run(out, base, slice(value, 0, i));
            if end > i + 1 {
                put(out, colour(ansi, Ink::Method), slice(value, i, end));
                let ghost middle = out.deep_view();
                write_stream_label_tail(out, slice_from(value, end), base, ansi);
                assert(out.deep_view() =~= start + tail_pieces(value@, base, ansi));
            } else {
                put(out, base, "*");
                write_stream_label_tail(out, slice_from(value, i + 1), base, ansi);
                assert(out.deep_view() =~= start + tail_pieces(value@, base, ansi));
            }
        },
    }
}

fn write_kind(out: &mut Vec<PromptPiece>, label: &str, kind: &str, ink: Ink, base: Ink, ansi: bool) -> (r:
    bool)
    ensures
        r == (kind_pieces(label@, kind@, ink, base, ansi) is Some),
        r ==> final(out).deep_view() == old(out).deep_view() + kind_pieces(
            label@,
            kind@,
            ink,
            base,
            ansi,
        )->0,
        !r ==> final(out).deep_view() == old(out).deep_view(),
{
    let ghost start = out.deep_view();
    if same(label, kind) {
        put(out, colour(ansi, ink), kind);
        assert(out.deep_view() =~= start + kind_pieces(label@, kind@, ink, base, ansi)->0);
        return true;
    }
    match without_prefix(label, kind) {
        Some(rest) => {
            if begins_with(rest, " ") {
                put(out, colour(ansi, ink), kind);
                write_stream_label_tail(out, rest, base, ansi);
                assert(out.deep_view() =~= start + kind_pieces(label@, kind@, ink, base, ansi)->0);
                return true;
            }
            false
        },
        None => false,
    }
}

fn write_stream_label(out: &mut Vec<PromptPiece>, label: &str, base: Ink, ansi: bool)
    ensures
        final(out).deep_view() == old(out).deep_view() + label_pieces(label@, base, ansi),
{
    if write_kind(out, label, "Vid", Ink::Video, base, ansi) {
        return;
    }
    if write_kind(out, label, "Aud", Ink::Audio, base, ansi) {
        return;
    }
    if write_kind(out, label, "Sub", Ink::Subtitle, base, ansi) {
        return;
    }
    write_stream_label_tail(out, label, base, ansi);
}

/// The mark of the entry at the cursor, and the space of the others.
pub open spec fn cursor_pieces(active: bool, ansi: bool) -> Seq<PromptPieceView> {
    if active {
        seq![
            PromptPieceView::Text(ink_if(ansi, Ink::Blue), ">"@),
            PromptPieceView::Text(Ink::Plain, " "@),
        ]
    } else {
        seq![PromptPieceView::Text(Ink::Plain, "  "@)]
    }
}

/// The box in front of an entry.
pub open spec fn box_pieces(selected: bool, ansi: bool) -> Seq<PromptPieceView> {
    seq![
        PromptPieceView::Text(Ink::Plain, "["@),
        if selected {
            PromptPieceView::Text(ink_if(ansi, Ink::Blue), "X"@)
        } else {
            PromptPieceView::Text(Ink::Plain, " "@)
        },
        PromptPieceView::Text(Ink::Plain, "] "@),
    ]
}

/// An entry.
pub open spec fn entry_pieces(e: PromptEntryView, selected: Set<usize>, active: bool, ansi: bool) -> Seq<
    PromptPieceView,
> {
    match e {
        PromptEntryView::Group { title } => (cursor_pieces(active, ansi) + box_pieces(
            false,
            ansi,
        )).push(
            PromptPieceView::Text(
                ink_if(
                    ansi,
                    if active {
                        Ink::Blue
                    } else {
                        Ink::Group
                    },
                ),
                title,
            ),
        ),
        PromptEntryView::Stream { stream_index, label } => seq![
            PromptPieceView::Text(Ink::Plain, "  "@),
        ] + cursor_pieces(active, ansi) + box_pieces(selected.contains(stream_index), ansi)
            + label_pieces(
            label,
            ink_if(
                ansi,
                if active {
                    Ink::Blue
                } else {
                    Ink::Plain
                },
            ),
            ansi,
        ),
    }
}

fn write_cursor(out: &mut Vec<PromptPiece>, active: bool, ansi: bool)
    ensures
        final(out).deep_view() == old(out).deep_view() + cursor_pieces(active, ansi),
{
    let ghost start = out.deep_view();
    if active {
        put(out, colour(ansi, Ink::Blue), ">");
        put(out, Ink::Plain, " ");
    } else {
        put(out, Ink::Plain, "  ");
    }
    assert(out.deep_view() =~= start + cursor_pieces(active, ansi));
}

fn write_checkbox(out: &mut Vec<PromptPiece>, selected: bool, ansi: bool)
    ensures
        final(out).deep_view() == old(out).deep_view() + box_pieces(selected, ansi),
{
    let ghost start = out.deep_view();
    put(out, Ink::Plain, "[");
    if selected {
        put(out, colour(ansi, Ink::Blue), "X");
    } else {
        put(out, Ink::Plain, " ");
    }
    put(out, Ink::Plain, "] ");
    assert(out.deep_view() =~= start + box_pieces(selected, ansi));
}

fn draw_entry(
    out: &mut Vec<PromptPiece>,
    entry: &PromptEntry,
    selected: &Vec<usize>,
    active: bool,
    ansi: bool,
)
    ensures
        final(out).deep_view() == old(out).deep_view() + entry_pieces(
            entry.deep_view(),
            selected@.to_set(),
            active,
            ansi,
        ),
{
    let ghost start = out.deep_view();
    match entry {
        PromptEntry::Group { title } => {
            write_cursor(out, active, ansi);
            write_checkbox(out, false, ansi);
            let ink: Ink = if active {
                Ink::Blue
            } else {
                Ink::Group
            };
            put(out, colour(ansi, ink), title.as_str());
        },
        PromptEntry::Stream { stream_index, label } => {
            put(out, Ink::Plain, "  ");
            write_cursor(out, active, ansi);
            write_checkbox(out, has_index(selected, *stream_index), ansi);
            let ink: Ink = if active {
                Ink::Blue
            } else {
                Ink::Plain
            };
            write_stream_label(out, label.as_str(), colour(ansi, ink), ansi);
        },
    }
    assert(out.deep_view() =~= start + entry_pieces(
        entry.deep_view(),
        selected@.to_set(),
        active,
        ansi,
    ));
}

/// The first `n` entries that are shown, each in a line.
pub open spec fn rows(t: PromptStateView, n: int, ansi: bool) -> Seq<PromptPieceView>
    decreases n,
{
    if n <= 0 {
        Seq::empty()
    } else {
        let at = t.offset + n - 1;
        (rows(t, n - 1, ansi).push(PromptPieceView::ClearLine) + entry_pieces(
            t.entries[at],
            t.selected,
            at == t.cursor,
            ansi,
        )).push(PromptPieceView::Text(Ink::Plain, "\n"@))
    }
}

/// How many entries are shown.
pub open spec fn shown_count(t: PromptStateView) -> int {
    bounded(t.entries.len() - t.offset, 0, PAGE_SIZE as int)
}

/// What is shown above the entries. The lines of the list that was shown before are gone over.
pub open spec fn head_pieces(previous: int, ansi: bool) -> Seq<PromptPieceView> {
    (if previous > 0 {
        seq![PromptPieceView::Up(bounded(previous, 0, u16::MAX as int) as u16)]
    } else {
        Seq::empty()
    }) + seq![
        PromptPieceView::ClearLine,
        PromptPieceView::Text(Ink::Plain, "Please select "@),
        PromptPieceView::Text(ink_if(ansi, Ink::Green), "what you want to download"@),
        PromptPieceView::Text(Ink::Plain, ":\n"@),
    ]
}

/// What is shown below the entries.
pub open spec fn foot_pieces(many: bool, ansi: bool) -> Seq<PromptPieceView> {
    seq![PromptPieceView::ClearLine, PromptPieceView::Text(Ink::Plain, "\n"@)] + (if many {
        seq![
            PromptPieceView::ClearLine,
            PromptPieceView::Text(
                ink_if(ansi, Ink::DarkGrey),
                "(Move up and down to reveal more streams)"@,
            ),
            PromptPieceView::Text(Ink::Plain, "\n"@),
        ]
    } else {
        Seq::empty()
    }) + seq![
        PromptPieceView::ClearLine,
        PromptPieceView::Text(Ink::Plain, "(Press "@),
        PromptPieceView::Text(ink_if(ansi, Ink::Blue), "<space>"@),
        PromptPieceView::Text(Ink::Plain, " to toggle a stream, "@),
        PromptPieceView::Text(ink_if(ansi, Ink::Green), "<enter>"@),
        PromptPieceView::Text(Ink::Plain, " to accept)\n"@),
    ]
}

/// The list as it is shown.
pub open spec fn drawn_prompt(t: PromptStateView, previous: int, ansi: bool) -> Seq<PromptPieceView> {
    head_pieces(previous, ansi) + rows(t, shown_count(t), ansi) + foot_pieces(
        t.entries.len() > PAGE_SIZE,
        ansi,
    )
}

/// How many lines the list takes.
pub open spec fn line_count(t: PromptStateView) -> int {
    3 + bounded(t.entries.len() as int, 0, PAGE_SIZE as int) + if t.entries.len() > PAGE_SIZE {
        1int
    } else {
        0
    }
}

/// How many of the pieces begin a line.
pub open spec fn lines_begun(pieces: Seq<PromptPieceView>) -> int
    decreases pieces.len(),
{
    if pieces.len() == 0 {
        0
    } else {
        lines_begun(pieces.drop_last()) + if pieces.last() is ClearLine {
            1int
        } else {
            0
        }
    }
}

proof fn lemma_lines_begun(a: Seq<PromptPieceView>, b: Seq<PromptPieceView>)
    ensures
        lines_begun(a + b) == lines_begun(a) + lines_begun(b),
    decreases b.len(),
{
    if b.len() == 0 {
        assert(a + b =~= a);
    } else {
        lemma_lines_begun(a, b.drop_last());
        assert((a + b).drop_last() =~= a + b.drop_last());
    }
}

proof fn lemma_begins_no_line(a: Seq<PromptPieceView>)
    requires
        forall|i: int| 0 <= i < a.len() ==> #[trigger] a[i] is Text || a[i] is Up,
    ensures
        lines_begun(a) == 0,
    decreases a.len(),
{
    if a.len() > 0 {
        assert(a[a.len() - 1] is Text || a[a.len() - 1] is Up);
        assert forall|i: int| 0 <= i < a.drop_last().len() implies #[trigger] a.drop_last()[i] is Text
            || a.drop_last()[i] is Up by {
            assert(a.drop_last()[i] == a[i]);
        }
        lemma_begins_no_line(a.drop_last());
    }
}

proof fn lemma_tail_is_text(s: Seq<char>, base: Ink, ansi: bool)
    ensures
        only_text(tail_pieces(s, base, ansi)),
    decreases s.len(),
{
    if let Some(i) = find(s, "*"@) {
        reveal_strlit("*");
        lemma_find_from(s, "*"@, 0);
        lemma_method_end(s, i + 1);
        lemma_tail_is_text(drop(s, method_end(s, i + 1)), base, ansi);
        lemma_tail_is_text(drop(s, i + 1), base, ansi);
    }
}

proof fn lemma_label_is_text(s: Seq<char>, base: Ink, ansi: bool)
    ensures
        only_text(label_pieces(s, base, ansi)),
{
    lemma_tail_is_text(s, base, ansi);
    if let Some(rest) = strip_prefix(s, "Vid"@) {
        lemma_tail_is_text(rest, base, ansi);
    }
    if let Some(rest) = strip_prefix(s, "Aud"@) {
        lemma_tail_is_text(rest, base, ansi);
    }
    if let Some(rest) = strip_prefix(s, "Sub"@) {
        lemma_tail_is_text(rest, base, ansi);
    }
}

/// All pieces are texts.
pub open spec fn only_text(pieces: Seq<PromptPieceView>) -> bool {
    forall|i: int| 0 <= i < pieces.len() ==> #[trigger] pieces[i] is Text
}

proof fn lemma_only_text(a: Seq<PromptPieceView>, b: Seq<PromptPieceView>)
    requires
        only_text(a),
        only_text(b),
    ensures
        only_text(a + b),
{
    assert forall|i: int| 0 <= i < (a + b).len() implies #[trigger] (a + b)[i] is Text by {
        if i < a.len() {
            assert((a + b)[i] == a[i]);
        } else {
            assert((a + b)[i] == b[i - a.len()]);
        }
    }
}

proof fn lemma_entry_is_text(e: PromptEntryView, selected: Set<usize>, active: bool, ansi: bool)
    ensures
        only_text(entry_pieces(e, selected, active, ansi)),
{
    match e {
        PromptEntryView::Group { title } => {
            lemma_only_text(cursor_pieces(active, ansi), box_pieces(false, ansi));
        },
        PromptEntryView::Stream { stream_index, label } => {
            let base = ink_if(
                ansi,
                if active {
                    Ink::Blue
                } else {
                    Ink::Plain
                },
            );
            let indent = seq![PromptPieceView::Text(Ink::Plain, "  "@)];
            let cursor = cursor_pieces(active, ansi);
            let mark = box_pieces(selected.contains(stream_index), ansi);
            lemma_label_is_text(label, base, ansi);
            lemma_only_text(indent, cursor);
            lemma_only_text(indent + cursor, mark);
            lemma_only_text(indent + cursor + mark, label_pieces(label, base, ansi));
        },
    }
}

proof fn lemma_rows_begin_lines(t: PromptStateView, n: int, ansi: bool)
    requires
        n >= 0,
    ensures
        lines_begun(rows(t, n, ansi)) == n,
    decreases n,
{
    if n > 0 {
        lemma_rows_begin_lines(t, n - 1, ansi);
        let at = t.offset + n - 1;
        let before = rows(t, n - 1, ansi);
        let e = entry_pieces(t.entries[at], t.selected, at == t.cursor, ansi);
        lemma_entry_is_text(t.entries[at], t.selected, at == t.cursor, ansi);
        let end = seq![PromptPieceView::Text(Ink::Plain, "\n"@)];
        lemma_only_text(e, end);
        lemma_begins_no_line(e + end);
        let start = before.push(PromptPieceView::ClearLine);
        assert(start.drop_last() =~= before);
        lemma_lines_begun(start, e + end);
        assert(rows(t, n, ansi) =~= start + (e + end));
    }
}

proof fn lemma_begins_one_line(a: Seq<PromptPieceView>)
    requires
        a.len() > 0,
        a[0] is ClearLine,
        forall|i: int| 1 <= i < a.len() ==> !(#[trigger] a[i] is ClearLine),
    ensures
        lines_begun(a) == 1,
    decreases a.len(),
{
    if a.len() == 1 {
        assert(a.drop_last() =~= Seq::empty());
        assert(lines_begun(a.drop_last()) == 0);
    } else {
        assert(!(a[a.len() - 1] is ClearLine));
        lemma_begins_one_line(a.drop_last());
    }
}

/// The list begins as many lines as it is said to take, so that it is drawn over itself.
pub proof fn law_list_is_drawn_over_itself(t: PromptStateView, previous: int, ansi: bool)
    requires
        cursor_is_shown(t),
    ensures
        lines_begun(drawn_prompt(t, previous, ansi)) == line_count(t),
{
    let many = t.entries.len() > PAGE_SIZE;
    let up = if previous > 0 {
        seq![PromptPieceView::Up(bounded(previous, 0, u16::MAX as int) as u16)]
    } else {
        Seq::empty()
    };
    let head = head_pieces(previous, ansi);
    let title = head.skip(up.len() as int);
    lemma_begins_no_line(up);
    lemma_begins_one_line(title);
    lemma_lines_begun(up, title);
    assert(head =~= up + title);
    let foot = foot_pieces(many, ansi);
    let blank = foot.take(2);
    let more = if many {
        foot.subrange(2, 5)
    } else {
        Seq::empty()
    };
    let keys = foot.skip(2 + more.len() as int);
    lemma_begins_one_line(blank);
    if many {
        lemma_begins_one_line(more);
    }
    lemma_begins_one_line(keys);
    lemma_lines_begun(blank + more, keys);
    lemma_lines_begun(blank, more);
    assert(foot =~= blank + more + keys);
    let n = shown_count(t);
    lemma_rows_begin_lines(t, n, ansi);
    lemma_lines_begun(head + rows(t, n, ansi), foot);
    lemma_lines_begun(head, rows(t, n, ansi));
}

fn clear_line(out: &mut Vec<PromptPiece>)
    ensures
        final(out).deep_view() == old(out).deep_view().push(PromptPieceView::ClearLine),
{
    let ghost before = out.deep_view();
    out.push(PromptPiece::ClearLine);
    assert(out.deep_view() =~= before.push(PromptPieceView::ClearLine));
}

fn write_head(out: &mut Vec<PromptPiece>, previous_lines: usize, ansi: bool)
    ensures
        final(out).deep_view() == old(out).deep_view() + head_pieces(previous_lines as int, ansi),
{
    let ghost start = out.deep_view();
    if previous_lines > 0 {
        let lines: u16 = lines_to_u16(previous_lines);
        out.push(PromptPiece::Up(lines));
        assert(out.deep_view() =~= start.push(PromptPieceView::Up(lines)));
    }
    clear_line(out);
    put(out, Ink::Plain, "Please select ");
    put(out, colour(ansi, Ink::Green), "what you want to download");
    put(out, Ink::Plain, ":\n");
    assert(out.deep_view() =~= start + head_pieces(previous_lines as int, ansi));
}

fn write_foot(out: &mut Vec<PromptPiece>, many: bool, ansi: bool)
    ensures
        final(out).deep_view() == old(out).deep_view() + foot_pieces(many, ansi),
{
    let ghost start = out.deep_view();
    clear_line(out);
    put(out, Ink::Plain, "\n");
    if many {
        clear_line(out);
        put(out, colour(ansi, Ink::DarkGrey), "(Move up and down to reveal more streams)");
        put(out, Ink::Plain, "\n");
    }
    clear_line(out);
    put(out, Ink::Plain, "(Press ");
    put(out, colour(ansi, Ink::Blue), "<space>");
    put(out, Ink::Plain, " to toggle a stream, ");
    put(out, colour(ansi, Ink::Green), "<enter>");
    put(out, Ink::Plain, " to accept)\n");
    assert(out.deep_view() =~= start + foot_pieces(many, ansi));
}

fn lines_to_u16(value: usize) -> (r: u16)
    ensures
        r == bounded(value as int, 0, u16::MAX as int),
{
    if value > 65535 {
        65535
    } else {
        value as u16
    }
}

impl PromptState {
    /// The list as it is shown, over the lines of the list that was shown before.
    pub fn draw_prompt(&self, previous_lines: usize, ansi: bool) -> (r: Vec<PromptPiece>)
        requires
            self.wf(),
        ensures
            r.deep_view() == drawn_prompt(self.deep_view(), previous_lines as int, ansi),
    {
        let ghost t = self.deep_view();
        assert(self.entries.deep_view().len() == self.entries@.len());
        let mut out: Vec<PromptPiece> = Vec::new();
        assert(out.deep_view() =~= Seq::<PromptPieceView>::empty());
        write_head(&mut out, previous_lines, ansi);
        let ghost head = out.deep_view();
        let left: usize = self.entries.len() - self.offset;
        let count: usize = if left > PAGE_SIZE {
            PAGE_SIZE
        } else {
            left
        };
        let mut n: usize = 0;
        assert(head + rows(t, 0, ansi) =~= head);
        while n < count
            invariant
                n <= count,
                count == shown_count(t),
                self.offset + count <= self.entries@.len(),
                t == self.deep_view(),
                self.wf(),
                out.deep_view() == head + rows(t, n as int, ansi),
            decreases count - n,
        {
            let _len: usize = self.entries.len();
            let at: usize = self.offset + n;
            let ghost before = out.deep_view();
            assert(t.entries[at as int] == self.entries@[at as int].deep_view());
            clear_line(&mut out);
            draw_entry(&mut out, &self.entries[at], &self.selected, at == self.cursor, ansi);
            put(&mut out, Ink::Plain, "\n");
            assert(out.deep_view() =~= head + rows(t, n + 1, ansi));
            n = n + 1;
        }
        write_foot(&mut out, self.entries.len() > PAGE_SIZE, ansi);
        assert(out.deep_view() =~= drawn_prompt(t, previous_lines as int, ansi));
        out
    }

    /// How many lines the list takes.
    pub fn prompt_line_count(&self) -> (r: usize)
        ensures
            r == line_count(self.deep_view()),
    {
        assert(self.entries.deep_view().len() == self.entries@.len());
        let visible: usize = if self.entries.len() < PAGE_SIZE {
            self.entries.len()
        } else {
            PAGE_SIZE
        };
        let more: usize = if self.entries.len() > PAGE_SIZE {
            1
        } else {
            0
        };
        1 + visible + 1 + more + 1
    }
}

} // verus!
