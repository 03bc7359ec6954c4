//! An insertion-order map keyed by tensor identity.
//!
//! The resolver builds one mapping per fusion group and the override table
//! keeps one candidate list per identity. Both are small, so the map is a
//! plain vector of key/value pairs where the most recent entry for a key
//! wins; its view is the abstract `Map` from keys to the views of the
//! values.

use vstd::prelude::*;

use crate::decision::TensorId;

verus! {

/// The abstract content of an entry sequence: later entries override
/// earlier ones with the same key.
pub open spec fn map_of<V: View>(entries: Seq<(TensorId, V)>) -> Map<TensorId, <V as View>::V>
    decreases entries.len(),
{
    if entries.len() == 0 {
        Map::empty()
    } else {
        map_of(entries.drop_last()).insert(entries.last().0, entries.last().1@)
    }
}

/// An insertion-order map from tensor identities to values.
#[derive(Debug, Clone)]
pub struct IdMap<V> {
    entries: Vec<(TensorId, V)>,
}

impl<V: View> View for IdMap<V> {
    type V = Map<TensorId, <V as View>::V>;

    closed spec fn view(&self) -> Map<TensorId, <V as View>::V> {
        map_of(self.entries@)
    }
}

/// Every key of an entry is a key of the map.
proof fn lemma_map_of_index<V: View>(entries: Seq<(TensorId, V)>, i: int)
    requires
        0 <= i < entries.len(),
    ensures
        map_of(entries).contains_key(entries[i].0),
    decreases entries.len(),
{
    if i < entries.len() - 1 {
        lemma_map_of_index(entries.drop_last(), i);
    }
}

/// Every key of the map is the key of some entry.
proof fn lemma_map_of_key_exists<V: View>(entries: Seq<(TensorId, V)>, key: TensorId)
    requires
        map_of(entries).contains_key(key),
    ensures
        exists|i: int| 0 <= i < entries.len() && entries[i].0 == key,
    decreases entries.len(),
{
    if entries.len() > 0 && entries.last().0 != key {
        lemma_map_of_key_exists(entries.drop_last(), key);
        let j = choose|j: int|
            0 <= j < entries.drop_last().len() && entries.drop_last()[j].0 == key;
        assert(entries[j].0 == key);
    } else if entries.len() > 0 {
        assert(entries[entries.len() - 1].0 == key);
    }
}

/// The value of a key is the value of its last entry.
proof fn lemma_map_of_last_match<V: View>(entries: Seq<(TensorId, V)>, i: int)
    requires
        0 <= i < entries.len(),
        forall|j: int| i < j < entries.len() ==> (#[trigger] entries[j]).0 != entries[i].0,
    ensures
        map_of(entries).contains_key(entries[i].0),
        map_of(entries)[entries[i].0] == entries[i].1@,
    decreases entries.len(),
{
    if i < entries.len() - 1 {
        lemma_map_of_last_match(entries.drop_last(), i);
    }
}

impl<V: View> IdMap<V> {
    pub fn new() -> (r: Self)
        ensures
            r@ == Map::<TensorId, <V as View>::V>::empty(),
    {
        IdMap { entries: Vec::new() }
    }

    /// Records `value` for `key`, replacing any earlier entry.
    pub fn insert(&mut self, key: TensorId, value: V)
        ensures
            final(self)@ == old(self)@.insert(key, value@),
    {
        let ghost pre = self.entries@;
        self.entries.push((key, value));
        proof {
            assert(self.entries@.drop_last() =~= pre);
        }
    }

    /// Looks a key up; the result reflects the most recent entry.
    pub fn get(&self, key: TensorId) -> (r: Option<&V>)
        ensures
            match r {
                Some(v) => self@.contains_key(key) && v@ == self@[key],
                None => !self@.contains_key(key),
            },
    {
        let mut i: usize = self.entries.len();
        while i > 0
            invariant
                i <= self.entries@.len(),
                forall|j: int|
                    i <= j < self.entries@.len() ==> (#[trigger] self.entries@[j]).0 != key,
            decreases i,
        {
            let j = i - 1;
            if self.entries[j].0 == key {
                proof {
                    lemma_map_of_last_match(self.entries@, j as int);
                }
                return Some(&self.entries[j].1);
            }
            i = j;
        }
        proof {
            if map_of(self.entries@).contains_key(key) {
                lemma_map_of_key_exists(self.entries@, key);
            }
        }
        None
    }
}

impl IdMap<Vec<u8>> {
    /// Produces a copy of the map with each key translated through
    /// `translation`; used when the same table must be read under another
    /// execution context's identities. Every key must have a translation
    /// and no two keys may translate to the same identity.
    pub fn remap(&self, translation: &IdMap<TensorId>) -> (r: Self)
        requires
            forall|k: TensorId| self@.contains_key(k) ==> translation@.contains_key(k),
            forall|k1: TensorId, k2: TensorId|
                self@.contains_key(k1) && self@.contains_key(k2)
                    && translation@[k1] == translation@[k2] ==> k1 == k2,
        ensures
            forall|k: TensorId|
                #[trigger] self@.contains_key(k) ==> r@.contains_key(translation@[k])
                    && r@[translation@[k]] == self@[k],
            forall|g: TensorId|
                #[trigger] r@.contains_key(g) ==> exists|k: TensorId|
                    self@.contains_key(k) && translation@[k] == g && r@[g] == self@[k],
    {
        let ghost whole = self.entries@;
        let mut out: IdMap<Vec<u8>> = IdMap::new();
        let mut i: usize = 0;
        while i < self.entries.len()
            invariant
                i <= whole.len(),
                self.entries@ == whole,
                self@ == map_of::<Vec<u8>>(whole),
                forall|k: TensorId|
                    map_of::<Vec<u8>>(whole).contains_key(k)
                        ==> translation@.contains_key(k),
                forall|k1: TensorId, k2: TensorId|
                    map_of::<Vec<u8>>(whole).contains_key(k1)
                        && map_of::<Vec<u8>>(whole).contains_key(k2)
                        && translation@[k1] == translation@[k2] ==> k1 == k2,
                forall|k: TensorId|
                    #[trigger] map_of::<Vec<u8>>(whole.take(i as int)).contains_key(k)
                        ==> out@.contains_key(translation@[k])
                            && out@[translation@[k]] == map_of::<Vec<u8>>(whole.take(i as int))[k],
                forall|g: TensorId|
                    #[trigger] out@.contains_key(g) ==> exists|k: TensorId|
                        map_of::<Vec<u8>>(whole.take(i as int)).contains_key(k)
                            && translation@[k] == g
                            && out@[g] == map_of::<Vec<u8>>(whole.take(i as int))[k],
            decreases whole.len() - i,
        {
            let ghost prefix = whole.take(i as int);
            let key = self.entries[i].0;
            let value = self.entries[i].1.clone();
            proof {
                lemma_map_of_index(whole, i as int);
                assert(value@ =~= whole[i as int].1@);
                assert(whole.take(i as int + 1).drop_last() =~= prefix);
                assert(whole.take(i as int + 1).last() == whole[i as int]);
                // Keys of the processed prefix are keys of the whole map.
                assert forall|k: TensorId|
                    #[trigger] map_of::<Vec<u8>>(prefix).contains_key(k)
                        implies map_of::<Vec<u8>>(whole).contains_key(k) by {
                    lemma_map_of_key_exists(prefix, k);
                    let j = choose|j: int| 0 <= j < prefix.len() && prefix[j].0 == k;
                    lemma_map_of_index(whole, j);
                }
            }
            let global = match translation.get(key) {
                Some(g) => *g,
                None => {
                    // Ruled out: every key has a translation.
                    proof {
                        assert(false);
                    }
                    vstd::pervasive::unreached()
                },
            };
            let ghost out_pre = out@;
            out.insert(global, value);
            proof {
                let next = whole.take(i as int + 1);
                let m_pre = map_of::<Vec<u8>>(prefix);
                let m_next = map_of::<Vec<u8>>(next);
                assert(m_next == m_pre.insert(key, whole[i as int].1@));
                assert(out@ == out_pre.insert(global, value@));
                assert forall|k: TensorId| #[trigger] m_next.contains_key(k)
                    implies out@.contains_key(translation@[k])
                        && out@[translation@[k]] == m_next[k] by {
                    if k == key {
                        assert(out@[global] == value@);
                    } else {
                        assert(m_pre.contains_key(k));
                        assert(map_of::<Vec<u8>>(whole).contains_key(k));
                        assert(translation@[k] != global);
                    }
                }
                assert forall|g: TensorId| #[trigger] out@.contains_key(g)
                    implies exists|k: TensorId|
                        m_next.contains_key(k) && translation@[k] == g
                            && out@[g] == m_next[k] by {
                    if g == global {
                        assert(m_next.contains_key(key) && translation@[key] == g
                            && out@[g] == m_next[key]);
                    } else {
                        assert(out_pre.contains_key(g));
                        let k = choose|k: TensorId|
                            m_pre.contains_key(k) && translation@[k] == g
                                && out_pre[g] == m_pre[k];
                        assert(k != key);
                        assert(m_next.contains_key(k) && translation@[k] == g
                            && out@[g] == m_next[k]);
                    }
                }
            }
            i = i + 1;
        }
        proof {
            assert(whole.take(whole.len() as int) =~= whole);
        }
        out
    }
}

} // verus!
