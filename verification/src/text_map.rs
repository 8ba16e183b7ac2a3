//! A map from texts, held in the order of its keys.

use crate::text::to_chars;
use vstd::prelude::*;

verus! {

/// Order of texts by code points; a proper prefix stands first.
pub open spec fn text_before(a: Seq<char>, b: Seq<char>) -> bool
    decreases a.len(),
{
    if b.len() == 0 {
        false
    } else if a.len() == 0 {
        true
    } else if a[0] != b[0] {
        a[0] < b[0]
    } else {
        text_before(a.drop_first(), b.drop_first())
    }
}

/// Whether `a` stands before `b`.
pub fn stands_before(a: &str, b: &str) -> (r: bool)
    ensures
        r == text_before(a@, b@),
{
    let x: Vec<char> = to_chars(a);
    let y: Vec<char> = to_chars(b);
    let mut i: usize = 0;
    assert(x@.subrange(0, x@.len() as int) =~= x@);
    assert(y@.subrange(0, y@.len() as int) =~= y@);
    while i < x.len() && i < y.len() && x[i] == y[i]
        invariant
            x@ == a@,
            y@ == b@,
            i <= x@.len(),
            i <= y@.len(),
            text_before(x@, y@) == text_before(
                x@.subrange(i as int, x@.len() as int),
                y@.subrange(i as int, y@.len() as int),
            ),
        decreases x@.len() - i,
    {
        assert(x@.subrange(i as int, x@.len() as int).drop_first() =~= x@.subrange(
            i + 1,
            x@.len() as int,
        ));
        assert(y@.subrange(i as int, y@.len() as int).drop_first() =~= y@.subrange(
            i + 1,
            y@.len() as int,
        ));
        i = i + 1;
    }
    if i == y.len() {
        false
    } else if i == x.len() {
        true
    } else {
        assert(x@.subrange(i as int, x@.len() as int)[0] == x@[i as int]);
        assert(y@.subrange(i as int, y@.len() as int)[0] == y@[i as int]);
        x[i] < y[i]
    }
}

/// The order is irreflexive, asymmetric and total.
pub proof fn lemma_text_order_total(a: Seq<char>, b: Seq<char>)
    ensures
        !text_before(a, a),
        !(text_before(a, b) && text_before(b, a)),
        a == b || text_before(a, b) || text_before(b, a),
    decreases a.len(),
{
    if a.len() > 0 {
        lemma_text_order_total(a.drop_first(), a.drop_first());
        if b.len() > 0 && a[0] == b[0] {
            lemma_text_order_total(a.drop_first(), b.drop_first());
            if a.drop_first() == b.drop_first() {
                assert(a =~= seq![a[0]] + a.drop_first());
                assert(b =~= seq![b[0]] + b.drop_first());
            }
        }
    }
    if a.len() == 0 && b.len() == 0 {
        assert(a =~= b);
    }
}

/// The order is transitive.
pub proof fn lemma_text_order_transitive(a: Seq<char>, b: Seq<char>, c: Seq<char>)
    requires
        text_before(a, b),
        text_before(b, c),
    ensures
        text_before(a, c),
    decreases a.len(),
{
    if a.len() > 0 && a[0] == b[0] && b[0] == c[0] {
        lemma_text_order_transitive(a.drop_first(), b.drop_first(), c.drop_first());
    }
}

/// What stands under `k`.
pub open spec fn lookup<V>(s: Seq<(Seq<char>, V)>, k: Seq<char>) -> Option<V>
    decreases s.len(),
{
    if s.len() == 0 {
        None
    } else if s[0].0 == k {
        Some(s[0].1)
    } else {
        lookup(s.drop_first(), k)
    }
}

/// `v` put under `k`.
pub open spec fn put<V>(s: Seq<(Seq<char>, V)>, k: Seq<char>, v: V) -> Seq<(Seq<char>, V)>
    decreases s.len(),
{
    if s.len() == 0 {
        seq![(k, v)]
    } else if s[0].0 == k {
        seq![(k, v)] + s.drop_first()
    } else if text_before(k, s[0].0) {
        seq![(k, v)] + s
    } else {
        seq![s[0]] + put(s.drop_first(), k, v)
    }
}

/// The entries without the one under `k`.
pub open spec fn discard<V>(s: Seq<(Seq<char>, V)>, k: Seq<char>) -> Seq<(Seq<char>, V)>
    decreases s.len(),
{
    if s.len() == 0 {
        s
    } else if s[0].0 == k {
        s.drop_first()
    } else {
        seq![s[0]] + discard(s.drop_first(), k)
    }
}

/// The keys stand in strict order.
pub open spec fn ordered<V>(s: Seq<(Seq<char>, V)>) -> bool {
    forall|i: int, j: int| 0 <= i < j < s.len() ==> text_before(#[trigger] s[i].0, #[trigger] s[j].0)
}

/// Reading after a write: the written key gives the new value, any other key what it gave before.
pub proof fn law_lookup_after_put<V>(s: Seq<(Seq<char>, V)>, k: Seq<char>, v: V, q: Seq<char>)
    ensures
        lookup(put(s, k, v), q) == if q == k {
            Some(v)
        } else {
            lookup(s, q)
        },
    decreases s.len(),
{
    reveal_with_fuel(lookup, 3);
    let r = put(s, k, v);
    if s.len() == 0 {
        assert(r.drop_first() =~= Seq::<(Seq<char>, V)>::empty());
    } else if s[0].0 == k {
        assert(r.drop_first() =~= s.drop_first());
    } else if text_before(k, s[0].0) {
        assert(r.drop_first() =~= s);
    } else {
        law_lookup_after_put(s.drop_first(), k, v, q);
        assert(r.drop_first() =~= put(s.drop_first(), k, v));
    }
}

proof fn lemma_put_keys<V>(s: Seq<(Seq<char>, V)>, k: Seq<char>, v: V)
    ensures
        forall|i: int|
            0 <= i < put(s, k, v).len() ==> (#[trigger] put(s, k, v)[i]).0 == k || exists|j: int|
                0 <= j < s.len() && s[j].0 == put(s, k, v)[i].0,
    decreases s.len(),
{
    let r = put(s, k, v);
    if s.len() == 0 || s[0].0 == k {
        assert forall|i: int| 0 <= i < r.len() implies (#[trigger] r[i]).0 == k || exists|j: int|
            0 <= j < s.len() && s[j].0 == r[i].0 by {
            if i > 0 {
                assert(s[i].0 == r[i].0);
            }
        }
    } else if text_before(k, s[0].0) {
        assert forall|i: int| 0 <= i < r.len() implies (#[trigger] r[i]).0 == k || exists|j: int|
            0 <= j < s.len() && s[j].0 == r[i].0 by {
            if i > 0 {
                assert(s[i - 1].0 == r[i].0);
            }
        }
    } else {
        let t = put(s.drop_first(), k, v);
        lemma_put_keys(s.drop_first(), k, v);
        assert forall|i: int| 0 <= i < r.len() implies (#[trigger] r[i]).0 == k || exists|j: int|
            0 <= j < s.len() && s[j].0 == r[i].0 by {
            if i == 0 {
                assert(s[0].0 == r[0].0);
            } else {
                assert(r[i] == t[i - 1]);
                if t[i - 1].0 != k {
                    let j = choose|j: int|
                        0 <= j < s.drop_first().len() && s.drop_first()[j].0 == t[i - 1].0;
                    assert(s[j + 1].0 == r[i].0);
                }
            }
        }
    }
}

/// Writing keeps the keys in strict order.
pub proof fn law_put_keeps_order<V>(s: Seq<(Seq<char>, V)>, k: Seq<char>, v: V)
    requires
        ordered(s),
    ensures
        ordered(put(s, k, v)),
    decreases s.len(),
{
    let r = put(s, k, v);
    if s.len() == 0 {
    } else if s[0].0 == k {
        assert forall|i: int, j: int| 0 <= i < j < r.len() implies text_before(
            #[trigger] r[i].0,
            #[trigger] r[j].0,
        ) by {
            assert(s[i].0 == r[i].0 && s[j].0 == r[j].0);
        }
    } else if text_before(k, s[0].0) {
        assert forall|i: int, j: int| 0 <= i < j < r.len() implies text_before(
            #[trigger] r[i].0,
            #[trigger] r[j].0,
        ) by {
            if i == 0 {
                if j > 1 {
                    assert(text_before(s[0].0, s[j - 1].0));
                    lemma_text_order_transitive(k, s[0].0, s[j - 1].0);
                }
            } else {
                assert(r[i] == s[i - 1] && r[j] == s[j - 1]);
                assert(text_before(s[i - 1].0, s[j - 1].0));
            }
        }
    } else {
        let rest = s.drop_first();
        let t = put(rest, k, v);
        assert(ordered(rest)) by {
            assert forall|i: int, j: int| 0 <= i < j < rest.len() implies text_before(
                #[trigger] rest[i].0,
                #[trigger] rest[j].0,
            ) by {
                assert(text_before(s[i + 1].0, s[j + 1].0));
            }
        }
        law_put_keeps_order(rest, k, v);
        lemma_put_keys(rest, k, v);
        lemma_text_order_total(s[0].0, k);
        assert forall|i: int, j: int| 0 <= i < j < r.len() implies text_before(
            #[trigger] r[i].0,
            #[trigger] r[j].0,
        ) by {
            assert(r[j] == t[j - 1]);
            if i == 0 {
                if t[j - 1].0 != k {
                    let m = choose|m: int| 0 <= m < rest.len() && rest[m].0 == t[j - 1].0;
                    assert(text_before(s[0].0, s[m + 1].0));
                }
            } else {
                assert(r[i] == t[i - 1]);
                assert(text_before(t[i - 1].0, t[j - 1].0));
            }
        }
    }
}

proof fn lemma_removal_keeps_order<V>(s: Seq<(Seq<char>, V)>, n: int)
    requires
        ordered(s),
        0 <= n < s.len(),
    ensures
        ordered(s.remove(n)),
{
    let r = s.remove(n);
    assert forall|i: int, j: int| 0 <= i < j < r.len() implies text_before(
        #[trigger] r[i].0,
        #[trigger] r[j].0,
    ) by {
        let x = if i < n {
            i
        } else {
            i + 1
        };
        let y = if j < n {
            j
        } else {
            j + 1
        };
        assert(r[i] == s[x] && r[j] == s[y]);
        assert(text_before(s[x].0, s[y].0));
    }
}

/// Nothing goes where the key is not there.
pub proof fn lemma_discard_absent<V>(s: Seq<(Seq<char>, V)>, k: Seq<char>)
    requires
        lookup(s, k) is None,
    ensures
        discard(s, k) == s,
    decreases s.len(),
{
    if s.len() > 0 {
        lemma_discard_absent(s.drop_first(), k);
        assert(discard(s, k) =~= s);
    }
}

/// A map from texts, held in the order of its keys.
#[derive(Debug)]
pub struct TextMap<V> {
    pub entries: Vec<(String, V)>,
}

impl<V: DeepView> DeepView for TextMap<V> {
    type V = Seq<(Seq<char>, V::V)>;

    open spec fn deep_view(&self) -> Seq<(Seq<char>, V::V)> {
        self.entries.deep_view()
    }
}

impl<V: DeepView> TextMap<V> {
    /// The keys stand in strict order.
    pub open spec fn wf(&self) -> bool {
        ordered(self.deep_view())
    }

    /// An empty map.
    pub fn new() -> (r: Self)
        ensures
            r.deep_view() == Seq::<(Seq<char>, V::V)>::empty(),
            r.wf(),
    {
        let r = TextMap { entries: Vec::new() };
        assert(r.deep_view() =~= Seq::empty());
        r
    }

    /// The position of a key.
    pub fn position(&self, key: &str) -> (r: Option<usize>)
        ensures
            match r {
                Some(i) => i < self.entries@.len() && self.entries@[i as int].0@ == key@ && lookup(
                    self.deep_view(),
                    key@,
                ) == Some(self.entries@[i as int].1.deep_view()),
                None => lookup(self.deep_view(), key@) is None,
            },
    {
        let mut i: usize = 0;
        let ghost all = self.deep_view();
        assert(all.subrange(0, all.len() as int) =~= all);
        while i < self.entries.len()
            invariant
                i <= self.entries@.len(),
                all == self.deep_view(),
                lookup(all, key@) == lookup(all.subrange(i as int, all.len() as int), key@),
            decreases self.entries@.len() - i,
        {
            let ghost rest = all.subrange(i as int, all.len() as int);
            assert(rest[0] == self.entries@[i as int].deep_view());
            if crate::text::same(self.entries[i].0.as_str(), key) {
                return Some(i);
            }
            assert(rest.drop_first() =~= all.subrange(i + 1, all.len() as int));
            i = i + 1;
        }
        None
    }

    /// What stands under a key.
    pub fn get(&self, key: &str) -> (r: Option<&V>)
        ensures
            match r {
                Some(v) => lookup(self.deep_view(), key@) == Some(v.deep_view()),
                None => lookup(self.deep_view(), key@) is None,
            },
    {
        match self.position(key) {
            Some(i) => Some(&self.entries[i].1),
            None => None,
        }
    }

    /// Whether a key is there.
    pub fn contains_key(&self, key: &str) -> (r: bool)
        ensures
            r == (lookup(self.deep_view(), key@) is Some),
    {
        self.position(key).is_some()
    }

    /// Puts a value under a key.
    pub fn insert(&mut self, key: String, value: V)
        ensures
            final(self).deep_view() == put(old(self).deep_view(), key@, value.deep_view()),
            old(self).wf() ==> final(self).wf(),
    {
        let ghost all = self.deep_view();
        let ghost k = key@;
        let ghost v = value.deep_view();
        proof {
            if self.wf() {
                law_put_keeps_order(all, k, v);
            }
        }
        let mut i: usize = 0;
        assert(all.subrange(0, all.len() as int) =~= all);
        assert(put(all, k, v) =~= all.subrange(0, 0) + put(all, k, v));
        while i < self.entries.len() && !crate::text::same(self.entries[i].0.as_str(), key.as_str())
            && !stands_before(key.as_str(), self.entries[i].0.as_str())
            invariant
                i <= self.entries@.len(),
                all == self.deep_view(),
                k == key@,
                put(all, k, v) == all.subrange(0, i as int) + put(
                    all.subrange(i as int, all.len() as int),
                    k,
                    v,
                ),
            decreases self.entries@.len() - i,
        {
            let ghost rest = all.subrange(i as int, all.len() as int);
            assert(rest[0] == self.entries@[i as int].deep_view());
            assert(rest.drop_first() =~= all.subrange(i + 1, all.len() as int));
            assert(all.subrange(0, i as int) + put(rest, k, v) =~= all.subrange(0, i + 1) + put(
                rest.drop_first(),
                k,
                v,
            ));
            i = i + 1;
        }
        let ghost rest = all.subrange(i as int, all.len() as int);
        if i < self.entries.len() {
            assert(rest[0] == self.entries@[i as int].deep_view());
            if crate::text::same(self.entries[i].0.as_str(), key.as_str()) {
                let _removed: (String, V) = self.entries.remove(i);
            }
        }
        self.entries.insert(i, (key, value));
        assert(self.deep_view() =~= put(all, k, v));
    }

    /// Takes what stands under a key out of the map.
    pub fn remove(&mut self, key: &str) -> (r: Option<V>)
        ensures
            final(self).deep_view() == discard(old(self).deep_view(), key@),
            match r {
                Some(v) => lookup(old(self).deep_view(), key@) == Some(v.deep_view()),
                None => lookup(old(self).deep_view(), key@) is None,
            },
            old(self).wf() ==> final(self).wf(),
    {
        let ghost all = self.deep_view();
        let mut i: usize = 0;
        assert(all.subrange(0, all.len() as int) =~= all);
        assert(discard(all, key@) =~= all.subrange(0, 0) + discard(all, key@));
        while i < self.entries.len() && !crate::text::same(self.entries[i].0.as_str(), key)
            invariant
                i <= self.entries@.len(),
                all == self.deep_view(),
                lookup(all, key@) == lookup(all.subrange(i as int, all.len() as int), key@),
                discard(all, key@) == all.subrange(0, i as int) + discard(
                    all.subrange(i as int, all.len() as int),
                    key@,
                ),
            decreases self.entries@.len() - i,
        {
            let ghost rest = all.subrange(i as int, all.len() as int);
            assert(rest[0] == self.entries@[i as int].deep_view());
            assert(rest.drop_first() =~= all.subrange(i + 1, all.len() as int));
            assert(all.subrange(0, i as int) + discard(rest, key@) =~= all.subrange(0, i + 1)
                + discard(rest.drop_first(), key@));
            i = i + 1;
        }
        let ghost rest = all.subrange(i as int, all.len() as int);
        if i == self.entries.len() {
            assert(rest =~= Seq::empty());
            assert(self.deep_view() =~= discard(all, key@));
            return None;
        }
        assert(rest[0] == self.entries@[i as int].deep_view());
        let entry: (String, V) = self.entries.remove(i);
        assert(self.deep_view() =~= discard(all, key@));
        proof {
            assert(self.deep_view() =~= all.remove(i as int));
            if ordered(all) {
                lemma_removal_keeps_order(all, i as int);
            }
        }
        Some(entry.1)
    }
}

impl TextMap<String> {
    /// A map with the same entries.
    pub fn copied(&self) -> (r: Self)
        ensures
            r.deep_view() == self.deep_view(),
    {
        let mut entries: Vec<(String, String)> = Vec::new();
        let mut i: usize = 0;
        while i < self.entries.len()
            invariant
                i <= self.entries@.len(),
                entries.deep_view() =~= self.entries.deep_view().subrange(0, i as int),
            decreases self.entries@.len() - i,
        {
            let pair: (String, String) = (self.entries[i].0.clone(), self.entries[i].1.clone());
            let ghost before = entries.deep_view();
            entries.push(pair);
            assert(entries.deep_view() =~= before.push(pair.deep_view()));
            assert(self.entries.deep_view()[i as int] == pair.deep_view());
            i = i + 1;
        }
        assert(self.entries.deep_view().subrange(0, self.entries@.len() as int)
            =~= self.entries.deep_view());
        TextMap { entries }
    }
}

} // verus!
