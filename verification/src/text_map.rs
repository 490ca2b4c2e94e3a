//! A small map keyed by text, kept in insertion order.

use crate::text::str_eq;
use vstd::prelude::*;

verus! {

/// A map from text to `V`; a later entry for a key replaces an earlier one.
#[derive(Debug, Clone)]
pub struct TextMap<V> {
    pub entries: Vec<(String, V)>,
}

/// The map that a list of entries builds up, first to last.
pub open spec fn map_of<V>(entries: Seq<(String, V)>) -> Map<Seq<char>, V>
    decreases entries.len(),
{
    if entries.len() == 0 {
        Map::empty()
    } else {
        map_of(entries.drop_last()).insert(entries.last().0@, entries.last().1)
    }
}

impl<V> View for TextMap<V> {
    type V = Map<Seq<char>, V>;

    open spec fn view(&self) -> Map<Seq<char>, V> {
        map_of(self.entries@)
    }
}

/// A map of strings, read as a map of texts.
pub open spec fn text_values(map: Map<Seq<char>, String>) -> Map<Seq<char>, Seq<char>> {
    map.map_values(|s: String| s@)
}

/// Reading a map as texts goes along with inserting.
pub proof fn lemma_text_values_insert(map: Map<Seq<char>, String>, key: Seq<char>, value: String)
    ensures
        text_values(map.insert(key, value)) == text_values(map).insert(key, value@),
{
    assert(text_values(map.insert(key, value)) =~= text_values(map).insert(key, value@));
}

/// The empty map of strings reads as the empty map of texts.
pub proof fn lemma_text_values_empty()
    ensures
        text_values(Map::<Seq<char>, String>::empty()) == Map::<Seq<char>, Seq<char>>::empty(),
{
    assert(text_values(Map::<Seq<char>, String>::empty()) =~= Map::<
        Seq<char>,
        Seq<char>,
    >::empty());
}

/// A map of strings under any key, read as a map of texts.
pub open spec fn string_values<K>(map: Map<K, String>) -> Map<K, Seq<char>> {
    map.map_values(|s: String| s@)
}

/// Reading a map as texts goes along with inserting, whatever the key.
pub proof fn lemma_string_values_insert<K>(map: Map<K, String>, key: K, value: String)
    ensures
        string_values(map.insert(key, value)) == string_values(map).insert(key, value@),
{
    assert(string_values(map.insert(key, value)) =~= string_values(map).insert(key, value@));
}

/// The empty map of strings reads as the empty map of texts, whatever the key.
pub proof fn lemma_string_values_empty<K>()
    ensures
        string_values(Map::<K, String>::empty()) == Map::<K, Seq<char>>::empty(),
{
    assert(string_values(Map::<K, String>::empty()) =~= Map::<K, Seq<char>>::empty());
}

/// A map of buffers under any key, read as a map of byte sequences.
pub open spec fn byte_values<K>(map: Map<K, Vec<u8>>) -> Map<K, Seq<u8>> {
    map.map_values(|v: Vec<u8>| v@)
}

/// A map has no key exactly when it was built from no entry.
pub proof fn lemma_map_of_empty<V>(entries: Seq<(String, V)>)
    ensures
        entries.len() == 0 <==> map_of(entries) == Map::<Seq<char>, V>::empty(),
{
    if entries.len() > 0 {
        assert(map_of(entries).contains_key(entries.last().0@));
    }
}

impl<V> TextMap<V> {
    /// The map without any key.
    pub fn new() -> (map: Self)
        ensures
            map@ == Map::<Seq<char>, V>::empty(),
    {
        TextMap { entries: Vec::new() }
    }

    /// Maps `key` to `value`, replacing what `key` had.
    pub fn insert(&mut self, key: String, value: V)
        ensures
            final(self)@ == old(self)@.insert(key@, value),
    {
        self.entries.push((key, value));
        assert(self.entries@.drop_last() == old(self).entries@);
    }

    /// What `key` is mapped to.
    pub fn get(&self, key: &str) -> (value: Option<&V>)
        ensures
            match value {
                Some(v) => self@.contains_key(key@) && self@[key@] == *v,
                None => !self@.contains_key(key@),
            },
    {
        let mut found: Option<usize> = None;
        let mut i: usize = 0;
        assert(self.entries@.take(0) == Seq::<(String, V)>::empty());
        while i < self.entries.len()
            invariant
                i <= self.entries@.len(),
                match found {
                    Some(at) => at < i && map_of(self.entries@.take(i as int)).contains_key(key@)
                        && map_of(self.entries@.take(i as int))[key@] == self.entries@[at as int].1,
                    None => !map_of(self.entries@.take(i as int)).contains_key(key@),
                },
            decreases self.entries@.len() - i,
        {
            proof {
                assert(self.entries@.take(i + 1).drop_last() == self.entries@.take(i as int));
                assert(self.entries@.take(i + 1).last() == self.entries@[i as int]);
            }
            if str_eq(self.entries[i].0.as_str(), key) {
                found = Some(i);
            }
            i += 1;
        }
        proof {
            assert(self.entries@.take(i as int) == self.entries@);
        }
        match found {
            Some(at) => Some(&self.entries[at].1),
            None => None,
        }
    }

    /// Whether the map has no key.
    pub fn is_empty(&self) -> (empty: bool)
        ensures
            empty == (self@ == Map::<Seq<char>, V>::empty()),
    {
        proof {
            lemma_map_of_empty(self.entries@);
        }
        self.entries.len() == 0
    }
}

} // verus!
