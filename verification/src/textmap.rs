//! A mapping from texts to values.
use vstd::prelude::*;

use crate::text::same_text;

verus! {

pub struct TextEntry<V> {
    pub key: String,
    pub value: V,
}

/// A mapping from texts to values, as entries whose keys all differ.
pub struct TextMap<V> {
    pub entries: Vec<TextEntry<V>>,
}

/// The mapping that entries stand for; of two entries with one key the later counts.
pub open spec fn entries_map<V>(entries: Seq<TextEntry<V>>) -> Map<Seq<char>, V>
    decreases entries.len(),
{
    if entries.len() == 0 {
        Map::empty()
    } else {
        entries_map(entries.drop_last()).insert(entries.last().key@, entries.last().value)
    }
}

/// No key occurs twice.
pub open spec fn keys_differ<V>(entries: Seq<TextEntry<V>>) -> bool {
    forall|i: int, j: int|
        0 <= i < j < entries.len() ==> (#[trigger] entries[i]).key@ != (
        #[trigger] entries[j]).key@
}

/// A key is in the mapping exactly where an entry has it, and the entry has its value.
pub proof fn lemma_entries_map<V>(entries: Seq<TextEntry<V>>, key: Seq<char>)
    ensures
        entries_map(entries).dom().contains(key) <==> exists|i: int|
            0 <= i < entries.len() && (#[trigger] entries[i]).key@ == key,
        keys_differ(entries) ==> forall|i: int|
            0 <= i < entries.len() && (#[trigger] entries[i]).key@ == key ==> entries_map(
                entries,
            )[key] == entries[i].value,
    decreases entries.len(),
{
    if entries.len() > 0 {
        let shorter = entries.drop_last();
        lemma_entries_map(shorter, key);
        assert forall|i: int| 0 <= i < shorter.len() implies #[trigger] shorter[i]
            == entries[i] by {}
        if exists|i: int| 0 <= i < entries.len() && (#[trigger] entries[i]).key@ == key {
            let i = choose|i: int| 0 <= i < entries.len() && (#[trigger] entries[i]).key@ == key;
            if i < shorter.len() {
                assert(shorter[i].key@ == key);
            }
        }
        if keys_differ(entries) {
            assert(keys_differ(shorter)) by {
                assert forall|i: int, j: int| 0 <= i < j < shorter.len() implies (
                #[trigger] shorter[i]).key@ != (#[trigger] shorter[j]).key@ by {
                    assert(entries[i].key@ != entries[j].key@);
                }
            }
            assert forall|i: int|
                0 <= i < entries.len() && (#[trigger] entries[i]).key@ == key implies entries_map(
                entries,
            )[key] == entries[i].value by {
                if i < shorter.len() {
                    assert(shorter[i].key@ == key);
                    assert(entries[i].key@ != entries[entries.len() - 1].key@);
                }
            }
        }
    }
}

proof fn lemma_update_entry<V>(entries: Seq<TextEntry<V>>, i: int, e: TextEntry<V>)
    requires
        0 <= i < entries.len(),
        keys_differ(entries),
        entries[i].key@ == e.key@,
    ensures
        keys_differ(entries.update(i, e)),
        entries_map(entries.update(i, e)) == entries_map(entries).insert(e.key@, e.value),
{
    let after = entries.update(i, e);
    assert forall|a: int, b: int| 0 <= a < b < after.len() implies (#[trigger] after[a]).key@ != (
    #[trigger] after[b]).key@ by {
        assert(entries[a].key@ != entries[b].key@);
        assert(after[a].key@ == entries[a].key@);
        assert(after[b].key@ == entries[b].key@);
    }
    let target = entries_map(entries).insert(e.key@, e.value);
    assert forall|u: Seq<char>|
        entries_map(after).dom().contains(u) == target.dom().contains(u) && (target.dom().contains(
            u,
        ) ==> #[trigger] entries_map(after)[u] == target[u]) by {
        lemma_entries_map(entries, u);
        lemma_entries_map(after, u);
        if u == e.key@ {
            assert(after[i].key@ == u);
        } else {
            if entries_map(entries).dom().contains(u) {
                let k = choose|k: int| 0 <= k < entries.len() && (#[trigger] entries[k]).key@ == u;
                assert(after[k].key@ == u);
                assert(after[k] == entries[k]);
            }
            if entries_map(after).dom().contains(u) {
                let k = choose|k: int| 0 <= k < after.len() && (#[trigger] after[k]).key@ == u;
                assert(entries[k].key@ == u);
            }
        }
    }
    assert(entries_map(after).dom() =~= target.dom()) by {
        assert forall|u: Seq<char>| entries_map(after).dom().contains(u) == target.dom().contains(
            u,
        ) by {
            let x = entries_map(after)[u];
        }
    }
    assert(entries_map(after) =~= target);
}

impl<V> View for TextMap<V> {
    type V = Map<Seq<char>, V>;

    open spec fn view(&self) -> Map<Seq<char>, V> {
        entries_map(self.entries@)
    }
}

impl<V> TextMap<V> {
    pub open spec fn wf(self) -> bool {
        keys_differ(self.entries@)
    }

    pub fn new() -> (r: Self)
        ensures
            r.wf(),
            r@ == Map::<Seq<char>, V>::empty(),
    {
        TextMap { entries: Vec::new() }
    }

    fn position(&self, key: &str) -> (r: Option<usize>)
        ensures
            match r {
                Some(i) => i < self.entries@.len() && self.entries@[i as int].key@ == key@,
                None => forall|i: int|
                    0 <= i < self.entries@.len() ==> (#[trigger] self.entries@[i]).key@ != key@,
            },
    {
        let mut i: usize = 0;
        while i < self.entries.len()
            invariant
                i <= self.entries@.len(),
                forall|j: int| 0 <= j < i ==> (#[trigger] self.entries@[j]).key@ != key@,
            decreases self.entries@.len() - i,
        {
            if same_text(self.entries[i].key.as_str(), key) {
                return Some(i);
            }
            i = i + 1;
        }
        None
    }

    pub fn get(&self, key: &str) -> (r: Option<&V>)
        requires
            self.wf(),
        ensures
            match r {
                Some(v) => self@.dom().contains(key@) && self@[key@] == *v,
                None => !self@.dom().contains(key@),
            },
    {
        proof {
            lemma_entries_map(self.entries@, key@);
        }
        match self.position(key) {
            Some(i) => Some(&self.entries[i].value),
            None => None,
        }
    }

    /// Gives a value to a key, in place of one that is there.
    pub fn insert(&mut self, key: String, value: V)
        requires
            old(self).wf(),
        ensures
            final(self).wf(),
            final(self)@ == old(self)@.insert(key@, value),
    {
        let ghost before = self.entries@;
        match self.position(key.as_str()) {
            Some(i) => {
                let e = TextEntry { key, value };
                proof {
                    lemma_update_entry(before, i as int, e);
                }
                self.entries.set(i, e);
            },
            None => {
                self.entries.push(TextEntry { key, value });
                proof {
                    assert(self.entries@.drop_last() =~= before);
                }
            },
        }
    }
}

} // verus!
