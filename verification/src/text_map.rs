//! A map keyed by text whose entries stand in the order of their keys.

use vstd::prelude::*;
use crate::text;

verus! {

/// The order of texts: by the first character in which they differ, a prefix first.
pub open spec fn text_less(a: Seq<char>, b: Seq<char>) -> bool
    decreases a.len(),
{
    if b.len() == 0 {
        false
    } else if a.len() == 0 {
        true
    } else if a[0] != b[0] {
        (a[0] as u32) < (b[0] as u32)
    } else {
        text_less(a.drop_first(), b.drop_first())
    }
}

/// No text comes before itself.
pub proof fn lemma_less_irreflexive(a: Seq<char>)
    ensures
        !text_less(a, a),
    decreases a.len(),
{
    if a.len() > 0 {
        lemma_less_irreflexive(a.drop_first());
    }
}

/// The order of texts is transitive.
pub proof fn lemma_less_transitive(a: Seq<char>, b: Seq<char>, c: Seq<char>)
    requires
        text_less(a, b),
        text_less(b, c),
    ensures
        text_less(a, c),
    decreases a.len(),
{
    if a.len() > 0 && a[0] == b[0] && b[0] == c[0] {
        lemma_less_transitive(a.drop_first(), b.drop_first(), c.drop_first());
    }
}

/// Of two different texts one comes before the other.
pub proof fn lemma_less_total(a: Seq<char>, b: Seq<char>)
    ensures
        a == b || text_less(a, b) || text_less(b, a),
    decreases a.len(),
{
    if a.len() > 0 && b.len() > 0 && a[0] == b[0] {
        lemma_less_total(a.drop_first(), b.drop_first());
        if a.drop_first() == b.drop_first() {
            assert(a =~= seq![a[0]] + a.drop_first());
            assert(b =~= seq![b[0]] + b.drop_first());
        }
    } else if a.len() == 0 && b.len() == 0 {
        assert(a =~= b);
    } else if a.len() > 0 && b.len() > 0 {
        vstd::utf8::char_u32_cast(a[0], a[0] as u32);
        vstd::utf8::char_u32_cast(b[0], b[0] as u32);
    }
}

proof fn lemma_less_same_head(a: Seq<char>, b: Seq<char>, n: int)
    requires
        0 <= n <= a.len(),
        n <= b.len(),
        forall|i: int| 0 <= i < n ==> #[trigger] a[i] == b[i],
    ensures
        text_less(a, b) == text_less(a.skip(n), b.skip(n)),
    decreases n,
{
    if n > 0 {
        let x = a.drop_first();
        let y = b.drop_first();
        assert(a[0] == b[0]);
        assert forall|i: int| 0 <= i < n - 1 implies #[trigger] x[i] == y[i] by {
            assert(x[i] == a[i + 1]);
        }
        lemma_less_same_head(x, y, n - 1);
        assert(x.skip(n - 1) =~= a.skip(n));
        assert(y.skip(n - 1) =~= b.skip(n));
    } else {
        assert(a.skip(0) =~= a);
        assert(b.skip(0) =~= b);
    }
}

/// Whether `a` comes before `b`.
pub fn comes_before(a: &str, b: &str) -> (yes: bool)
    ensures
        yes == text_less(a@, b@),
{
    let x = text::chars_of(a);
    let y = text::chars_of(b);
    let mut i: usize = 0;
    while i < x.len() && i < y.len() && x[i] == y[i]
        invariant
            i <= x@.len(),
            i <= y@.len(),
            forall|j: int| 0 <= j < i ==> #[trigger] x@[j] == y@[j],
        ensures
            i <= x@.len(),
            i <= y@.len(),
            forall|j: int| 0 <= j < i ==> #[trigger] x@[j] == y@[j],
            i < x@.len() && i < y@.len() ==> x@[i as int] != y@[i as int],
        decreases x@.len() - i,
    {
        i = i + 1;
    }
    proof {
        lemma_less_same_head(a@, b@, i as int);
    }
    if i == y.len() {
        false
    } else if i == x.len() {
        true
    } else {
        (x[i] as u32) < (y[i] as u32)
    }
}

/// Whether `keys` stand in order, none of them twice.
pub open spec fn ascending(keys: Seq<Seq<char>>) -> bool {
    forall|i: int, j: int|
        0 <= i < j < keys.len() ==> text_less(#[trigger] keys[i], #[trigger] keys[j])
}

/// The keys of a list of entries.
pub open spec fn keys_of<V>(entries: Seq<(String, V)>) -> Seq<Seq<char>> {
    entries.map_values(|e: (String, V)| e.0@)
}

/// What a list of entries with ascending keys holds.
pub open spec fn entries_map<V>(entries: Seq<(String, V)>) -> Map<Seq<char>, V> {
    Map::new(
        |k: Seq<char>| keys_of(entries).contains(k),
        |k: Seq<char>| entries[keys_of(entries).index_of(k)].1,
    )
}

/// A map from text to `V`, walked in the order of its keys.
pub struct TextMap<V> {
    entries: Vec<(String, V)>,
}

impl<V> View for TextMap<V> {
    type V = Map<Seq<char>, V>;

    closed spec fn view(&self) -> Map<Seq<char>, V> {
        entries_map(self.entries@)
    }
}

proof fn lemma_entry<V>(entries: Seq<(String, V)>, i: int)
    requires
        ascending(keys_of(entries)),
        0 <= i < entries.len(),
    ensures
        entries_map(entries).dom().contains(entries[i].0@),
        entries_map(entries)[entries[i].0@] == entries[i].1,
{
    let keys = keys_of(entries);
    let k = entries[i].0@;
    assert(keys[i] == k);
    assert(keys.contains(k));
    let j = keys.index_of(k);
    assert(keys[j] == k);
    if i < j {
        lemma_less_irreflexive(k);
    } else if j < i {
        lemma_less_irreflexive(k);
    }
}

impl<V> TextMap<V> {
    #[verifier::type_invariant]
    spec fn ordered(self) -> bool {
        ascending(keys_of(self.entries@))
    }

    /// The keys in their order.
    pub closed spec fn keys(&self) -> Seq<Seq<char>> {
        keys_of(self.entries@)
    }

    /// The empty map.
    pub fn new() -> (map: Self)
        ensures
            map@ == Map::<Seq<char>, V>::empty(),
            map.keys() == Seq::<Seq<char>>::empty(),
    {
        let map = TextMap { entries: Vec::new() };
        assert(map.keys() =~= Seq::<Seq<char>>::empty());
        assert(map@ =~= Map::<Seq<char>, V>::empty());
        map
    }

    /// The number of entries.
    pub fn len(&self) -> (n: usize)
        ensures
            n == self.keys().len(),
            ascending(self.keys()),
            forall|k: Seq<char>| self@.dom().contains(k) <==> #[trigger] self.keys().contains(k),
    {
        proof {
            use_type_invariant(self);
        }
        self.entries.len()
    }

    /// Whether there is no entry.
    pub fn is_empty(&self) -> (yes: bool)
        ensures
            yes == (self.keys().len() == 0),
            yes == (self@ == Map::<Seq<char>, V>::empty()),
    {
        proof {
            use_type_invariant(self);
            if self.entries@.len() > 0 {
                lemma_entry(self.entries@, 0);
            } else {
                assert(self@ =~= Map::<Seq<char>, V>::empty());
            }
        }
        self.entries.len() == 0
    }

    /// The key at place `i`.
    pub fn key_at(&self, i: usize) -> (key: &String)
        requires
            i < self.keys().len(),
        ensures
            key@ == self.keys()[i as int],
            self@.dom().contains(key@),
    {
        proof {
            use_type_invariant(self);
            lemma_entry(self.entries@, i as int);
        }
        &self.entries[i].0
    }

    /// The value at place `i`.
    pub fn value_at(&self, i: usize) -> (value: &V)
        requires
            i < self.keys().len(),
        ensures
            *value == self@[self.keys()[i as int]],
            self@.dom().contains(self.keys()[i as int]),
    {
        proof {
            use_type_invariant(self);
            lemma_entry(self.entries@, i as int);
        }
        &self.entries[i].1
    }

    /// The place of `key`, or the place where it would be inserted.
    fn place(&self, key: &str) -> (at: usize)
        ensures
            at <= self.entries@.len(),
            forall|i: int| 0 <= i < at ==> text_less(#[trigger] self.entries@[i].0@, key@),
            at < self.entries@.len() ==> !text_less(self.entries@[at as int].0@, key@),
    {
        let mut at: usize = 0;
        while at < self.entries.len()
            invariant
                at <= self.entries@.len(),
                forall|i: int| 0 <= i < at ==> text_less(#[trigger] self.entries@[i].0@, key@),
            decreases self.entries@.len() - at,
        {
            if !comes_before(self.entries[at].0.as_str(), key) {
                return at;
            }
            at = at + 1;
        }
        at
    }

    /// The value for `key`.
    pub fn get(&self, key: &str) -> (value: Option<&V>)
        ensures
            value is Some <==> self@.dom().contains(key@),
            value matches Some(v) ==> *v == self@[key@],
    {
        let at: usize = self.place(key);
        proof {
            use_type_invariant(self);
        }
        if at < self.entries.len() && text::same(self.entries[at].0.as_str(), key) {
            proof {
                lemma_entry(self.entries@, at as int);
            }
            Some(&self.entries[at].1)
        } else {
            proof {
                let keys = self.keys();
                if keys.contains(key@) {
                    let j = keys.index_of(key@);
                    assert(keys[j] == key@);
                    if j < at {
                        assert(text_less(self.entries@[j].0@, key@));
                        lemma_less_irreflexive(key@);
                    } else if j > at {
                        assert(text_less(keys[at as int], keys[j]));
                    }
                }
            }
            None
        }
    }

    /// Whether there is an entry for `key`.
    pub fn contains_key(&self, key: &str) -> (yes: bool)
        ensures
            yes == self@.dom().contains(key@),
    {
        self.get(key).is_some()
    }

    /// Sets the value for `key`.
    pub fn insert(&mut self, key: String, value: V)
        ensures
            final(self)@ == old(self)@.insert(key@, value),
    {
        proof {
            use_type_invariant(&*self);
        }
        let at: usize = self.place(key.as_str());
        let mut entries: Vec<(String, V)> = Vec::new();
        std::mem::swap(&mut entries, &mut self.entries);
        let ghost before = entries@;
        let ghost k = key@;
        if at < entries.len() && text::same(entries[at].0.as_str(), key.as_str()) {
            entries.set(at, (key, value));
            proof {
                assert(keys_of(entries@) =~= keys_of(before));
                assert forall|x: Seq<char>| entries_map(before).insert(k, value).dom().contains(
                    x,
                ) implies #[trigger] entries_map(entries@)[x] == entries_map(before).insert(
                    k,
                    value,
                )[x] by {
                    let i = keys_of(entries@).index_of(x);
                    if keys_of(entries@).contains(x) {
                        assert(keys_of(entries@)[i] == x);
                    }
                    assert(keys_of(entries@)[at as int] == k);
                    if x == k {
                        lemma_entry(entries@, at as int);
                    }
                }
                assert(keys_of(before)[at as int] == k);
                assert(entries_map(entries@) =~= entries_map(before).insert(k, value));
            }
        } else {
            entries.insert(at, (key, value));
            proof {
                let old_keys = keys_of(before);
                let keys = keys_of(entries@);
                assert(entries@ =~= before.insert(at as int, (key, value)));
                assert(keys =~= old_keys.insert(at as int, k));
                assert forall|i: int, j: int| 0 <= i < j < keys.len() implies text_less(
                    #[trigger] keys[i],
                    #[trigger] keys[j],
                ) by {
                    if j == at {
                        assert(text_less(before[i].0@, k));
                    } else if i == at {
                        lemma_less_total(k, before[at as int].0@);
                        if j > at + 1 {
                            assert(text_less(old_keys[at as int], old_keys[j - 1]));
                            lemma_less_transitive(k, old_keys[at as int], old_keys[j - 1]);
                        }
                    } else if j < at {
                        assert(text_less(old_keys[i], old_keys[j]));
                    } else if i > at {
                        assert(text_less(old_keys[i - 1], old_keys[j - 1]));
                    } else {
                        assert(text_less(old_keys[i], old_keys[j - 1]));
                    }
                }
                let map = entries_map(before);
                assert forall|x: Seq<char>|
                    #![trigger entries_map(entries@).dom().contains(x)]
                    entries_map(entries@).dom().contains(x) <==> map.insert(
                        k,
                        value,
                    ).dom().contains(x) by {
                    if old_keys.contains(x) {
                        let i = old_keys.index_of(x);
                        assert(old_keys[i] == x);
                        if i < at {
                            assert(keys[i] == x);
                        } else {
                            assert(keys[i + 1] == x);
                        }
                    }
                    assert(keys[at as int] == k);
                    if keys.contains(x) && x != k {
                        let i = keys.index_of(x);
                        assert(keys[i] == x);
                        if i < at {
                            assert(old_keys[i] == x);
                        } else {
                            assert(old_keys[i - 1] == x);
                        }
                    }
                }
                assert forall|x: Seq<char>| keys.contains(x) implies #[trigger] entries_map(
                    entries@,
                )[x] == map.insert(k, value)[x] by {
                    let i = keys.index_of(x);
                    assert(keys[i] == x);
                    lemma_entry(entries@, i);
                    if i < at {
                        lemma_entry(before, i);
                        lemma_less_irreflexive(k);
                    } else if i > at {
                        lemma_entry(before, i - 1);
                        assert(text_less(keys[at as int], keys[i]));
                        lemma_less_irreflexive(k);
                    }
                }
                assert(entries_map(entries@) =~= map.insert(k, value));
            }
        }
        self.entries = entries;
    }
}

impl TextMap<String> {
    /// A copy of the map.
    pub fn copy(&self) -> (map: Self)
        ensures
            map@ == self@,
            map.keys() == self.keys(),
    {
        proof {
            use_type_invariant(self);
        }
        let mut entries: Vec<(String, String)> = Vec::new();
        let mut i: usize = 0;
        while i < self.entries.len()
            invariant
                i <= self.entries@.len(),
                entries@ =~= self.entries@.take(i as int),
            decreases self.entries@.len() - i,
        {
            entries.push((self.entries[i].0.clone(), self.entries[i].1.clone()));
            i = i + 1;
        }
        assert(entries@ =~= self.entries@);
        TextMap { entries }
    }
}

/// Whether `lines` stand in order, equal ones next to each other.
pub open spec fn in_order(lines: Seq<Seq<char>>) -> bool {
    forall|i: int, j: int|
        0 <= i < j < lines.len() ==> !text_less(#[trigger] lines[j], #[trigger] lines[i])
}

/// Whether `result` holds the texts of `lines`, in order.
pub open spec fn sorts(lines: Seq<Seq<char>>, result: Seq<Seq<char>>) -> bool {
    &&& in_order(result)
    &&& result.to_multiset() == lines.to_multiset()
}

/// Puts `lines` in order.
pub fn sort_texts(lines: &Vec<String>) -> (result: Vec<String>)
    ensures
        sorts(text::texts(lines@), text::texts(result@)),
{
    let mut result: Vec<String> = Vec::new();
    let mut i: usize = 0;
    proof {
        assert(text::texts(lines@).take(0) =~= text::texts(result@));
    }
    while i < lines.len()
        invariant
            i <= lines@.len(),
            sorts(text::texts(lines@).take(i as int), text::texts(result@)),
        decreases lines@.len() - i,
    {
        let ghost before = text::texts(result@);
        let mut at: usize = 0;
        while at < result.len() && !comes_before(lines[i].as_str(), result[at].as_str())
            invariant
                i < lines@.len(),
                at <= result@.len(),
                forall|j: int|
                    0 <= j < at ==> !text_less(lines@[i as int]@, #[trigger] result@[j]@),
            ensures
                at <= result@.len(),
                forall|j: int|
                    0 <= j < at ==> !text_less(lines@[i as int]@, #[trigger] result@[j]@),
                at < result@.len() ==> text_less(lines@[i as int]@, result@[at as int]@),
            decreases result@.len() - at,
        {
            at = at + 1;
        }
        let ghost old_result = result@;
        result.insert(at, lines[i].clone());
        proof {
            let x = lines@[i as int]@;
            let after = text::texts(result@);
            assert(after =~= before.insert(at as int, x));
            vstd::seq_lib::to_multiset_insert(before, at as int, x);
            let all = text::texts(lines@);
            assert(all.take(i + 1) =~= all.take(i as int).push(x));
            vstd::seq_lib::to_multiset_build(all.take(i as int), x);
            assert forall|p: int, q: int| 0 <= p < q < after.len() implies !text_less(
                #[trigger] after[q],
                #[trigger] after[p],
            ) by {
                if q == at {
                    assert(before[p] == old_result[p]@);
                } else if p == at {
                    assert(before[at as int] == old_result[at as int]@);
                    if text_less(after[q], x) {
                        lemma_less_transitive(after[q], x, before[at as int]);
                        if q > at + 1 {
                            assert(!text_less(before[q - 1], before[at as int]));
                        } else {
                            lemma_less_irreflexive(x);
                            lemma_less_transitive(x, before[at as int], x);
                        }
                    }
                } else if q < at {
                    assert(!text_less(before[q], before[p]));
                } else if p > at {
                    assert(!text_less(before[q - 1], before[p - 1]));
                } else {
                    assert(!text_less(before[q - 1], before[p]));
                }
            }
        }
        i = i + 1;
    }
    assert(text::texts(lines@).take(lines@.len() as int) =~= text::texts(lines@));
    result
}

/// Texts are ordered by the first character in which they differ; one that is the beginning of
/// another comes before it.
pub proof fn lemma_order_is_by_the_first_difference(
    head: Seq<char>,
    a: char,
    b: char,
    rest: Seq<char>,
    other: Seq<char>,
)
    requires
        (a as u32) < (b as u32),
    ensures
        text_less(head + seq![a] + rest, head + seq![b] + other),
        !text_less(head + seq![b] + other, head + seq![a] + rest),
        text_less(head, head + seq![a] + rest),
    decreases head.len(),
{
    let low = head + seq![a] + rest;
    let high = head + seq![b] + other;
    if head.len() > 0 {
        lemma_order_is_by_the_first_difference(head.drop_first(), a, b, rest, other);
        assert(low.drop_first() =~= head.drop_first() + seq![a] + rest);
        assert(high.drop_first() =~= head.drop_first() + seq![b] + other);
        assert(low[0] == head[0] && high[0] == head[0]);
    } else {
        assert(low[0] == a && high[0] == b);
    }
}

} // verus!
