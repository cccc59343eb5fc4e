//! Provider configuration: text values under text keys, in the order in which they were added.

use vstd::prelude::*;
use indexmap::IndexMap;

verus! {

/// The ordered map of the `indexmap` crate.
#[verifier::external_type_specification]
#[verifier::external_body]
#[verifier::reject_recursive_types(K)]
#[verifier::reject_recursive_types(V)]
#[verifier::reject_recursive_types(S)]
pub struct ExIndexMap<K, V, S>(IndexMap<K, V, S>);

/// The entries that a configuration holds, in their order.
pub uninterp spec fn config_entries(config: IndexMap<String, String>) -> Seq<(Seq<char>, Seq<char>)>;

/// The place of the entry for `key`, or the number of entries where there is none.
pub open spec fn entry_place(entries: Seq<(Seq<char>, Seq<char>)>, key: Seq<char>) -> int
    decreases entries.len(),
{
    if entries.len() == 0 || entries[0].0 == key {
        0
    } else {
        1 + entry_place(entries.drop_first(), key)
    }
}

/// Whether there is an entry for `key`.
pub open spec fn has_entry(entries: Seq<(Seq<char>, Seq<char>)>, key: Seq<char>) -> bool {
    exists|i: int| 0 <= i < entries.len() && #[trigger] entries[i].0 == key
}

/// `entries` with `value` under `key`: in the place of the key where it was there, else at the
/// end.
pub open spec fn with_entry(
    entries: Seq<(Seq<char>, Seq<char>)>,
    key: Seq<char>,
    value: Seq<char>,
) -> Seq<(Seq<char>, Seq<char>)> {
    let at = entry_place(entries, key);
    if 0 <= at < entries.len() {
        entries.update(at, (key, value))
    } else {
        entries.push((key, value))
    }
}

/// `IndexMap::insert`: an old key keeps its place and takes the new value, a new one goes last.
#[verifier::external_body]
pub(crate) fn insert(config: &mut IndexMap<String, String>, key: String, value: String)
    ensures
        config_entries(*final(config)) == with_entry(config_entries(*old(config)), key@, value@),
{
    config.insert(key, value);
}

/// `IndexMap::len`.
#[verifier::external_body]
pub(crate) fn len(config: &IndexMap<String, String>) -> (n: usize)
    ensures
        n == config_entries(*config).len(),
{
    config.len()
}

/// `IndexMap::new`.
#[verifier::external_body]
pub(crate) fn empty() -> (config: IndexMap<String, String>)
    ensures
        config_entries(config) == Seq::<(Seq<char>, Seq<char>)>::empty(),
{
    IndexMap::new()
}

/// `IndexMap::is_empty`.
#[verifier::external_body]
pub(crate) fn is_empty(config: &IndexMap<String, String>) -> (yes: bool)
    ensures
        yes == (config_entries(*config).len() == 0),
{
    config.is_empty()
}

/// `IndexMap::clear` takes every entry away.
#[verifier::external_body]
pub(crate) fn clear(config: &mut IndexMap<String, String>)
    ensures
        config_entries(*final(config)) == Seq::<(Seq<char>, Seq<char>)>::empty(),
{
    config.clear();
}

/// `IndexMap::get_index`: the entry at a place, where there is one.
#[verifier::external_body]
pub(crate) fn entry_at(config: &IndexMap<String, String>, at: usize) -> (entry: Option<
    (&String, &String),
>)
    ensures
        entry is Some <==> at < config_entries(*config).len(),
        entry matches Some(e) ==> (e.0@, e.1@) == config_entries(*config)[at as int],
{
    config.get_index(at)
}

/// `IndexMap::get`: the value under a key, where there is one.
#[verifier::external_body]
pub(crate) fn get<'a>(config: &'a IndexMap<String, String>, key: &str) -> (value: Option<
    &'a String,
>)
    ensures
        value is Some <==> has_entry(config_entries(*config), key@),
        value matches Some(v) ==> v@ == config_entries(*config)[entry_place(
            config_entries(*config),
            key@,
        )].1,
{
    config.get(key)
}

/// `entries` without the one at place `at`, where there is one.
pub open spec fn without_entry(
    entries: Seq<(Seq<char>, Seq<char>)>,
    at: int,
) -> Seq<(Seq<char>, Seq<char>)> {
    if 0 <= at < entries.len() {
        entries.remove(at)
    } else {
        entries
    }
}

/// `IndexMap::shift_remove`: takes the entry under a key away and leaves the others in order.
#[verifier::external_body]
pub(crate) fn shift_remove(config: &mut IndexMap<String, String>, key: &str)
    ensures
        config_entries(*final(config)) == without_entry(
            config_entries(*old(config)),
            entry_place(config_entries(*old(config)), key@),
        ),
{
    config.shift_remove(key);
}

/// `IndexMap::clone`.
#[verifier::external_body]
pub(crate) fn copy(config: &IndexMap<String, String>) -> (twin: IndexMap<String, String>)
    ensures
        config_entries(twin) == config_entries(*config),
{
    config.clone()
}

/// Whether two lists of entries hold the same value under each key, in whatever order.
pub open spec fn same_entries(
    a: Seq<(Seq<char>, Seq<char>)>,
    b: Seq<(Seq<char>, Seq<char>)>,
) -> bool {
    &&& a.len() == b.len()
    &&& forall|i: int| 0 <= i < a.len() ==> b.contains(#[trigger] a[i])
}

/// `IndexMap`'s `==`: as many entries in both, and each of the first in the second.
#[verifier::external_body]
pub(crate) fn same(a: &IndexMap<String, String>, b: &IndexMap<String, String>) -> (equal: bool)
    ensures
        equal == same_entries(config_entries(*a), config_entries(*b)),
{
    a == b
}

/// The place of a key is that of its entry, where no key is there twice.
pub proof fn lemma_entry_place(entries: Seq<(Seq<char>, Seq<char>)>, at: int)
    requires
        0 <= at < entries.len(),
        forall|i: int, j: int|
            0 <= i < j < entries.len() ==> #[trigger] entries[i].0 != #[trigger] entries[j].0,
    ensures
        entry_place(entries, entries[at].0) == at,
    decreases entries.len(),
{
    if at > 0 {
        assert(entries[0].0 != entries[at].0);
        let rest = entries.drop_first();
        assert forall|i: int, j: int| 0 <= i < j < rest.len() implies #[trigger] rest[i].0
            != #[trigger] rest[j].0 by {
            assert(entries[i + 1].0 != entries[j + 1].0);
        }
        assert(rest[at - 1] == entries[at]);
        lemma_entry_place(rest, at - 1);
    }
}

/// A value that is stored under a key that is there takes the place of the old one, and a new key
/// goes to the end; every other entry stays where it is.
pub proof fn lemma_stored_values(
    entries: Seq<(Seq<char>, Seq<char>)>,
    key: Seq<char>,
    value: Seq<char>,
    at: int,
)
    requires
        forall|i: int, j: int|
            0 <= i < j < entries.len() ==> #[trigger] entries[i].0 != #[trigger] entries[j].0,
    ensures
        0 <= at < entries.len() && entries[at].0 == key ==> with_entry(entries, key, value)
            == entries.update(at, (key, value)),
        !has_entry(entries, key) ==> with_entry(entries, key, value) == entries.push((key, value)),
{
    if 0 <= at < entries.len() && entries[at].0 == key {
        lemma_entry_place(entries, at);
    }
    if !has_entry(entries, key) {
        lemma_no_entry(entries, key);
    }
}

proof fn lemma_no_entry(entries: Seq<(Seq<char>, Seq<char>)>, key: Seq<char>)
    requires
        !has_entry(entries, key),
    ensures
        entry_place(entries, key) == entries.len(),
    decreases entries.len(),
{
    if entries.len() > 0 {
        assert(entries[0].0 != key);
        assert forall|i: int| 0 <= i < entries.drop_first().len() implies #[trigger] entries.drop_first()[i].0
            != key by {
            assert(entries[i + 1].0 != key);
        }
        lemma_no_entry(entries.drop_first(), key);
    }
}

} // verus!
