//! A table with text as its keys, in the order in which the keys came in.

use vstd::prelude::*;
use crate::text::same_text;

verus! {

/// A table with text as its keys.
#[derive(Debug)]
pub struct TextTable<V> {
    entries: Vec<(String, V)>,
}

impl<T> View for TextTable<T> {
    type V = Map<Seq<char>, T>;

    closed spec fn view(&self) -> Map<Seq<char>, T> {
        entries_map(self.entries@)
    }
}

spec fn entries_map<T>(entries: Seq<(String, T)>) -> Map<Seq<char>, T>
    decreases entries.len(),
{
    if entries.len() == 0 {
        Map::empty()
    } else {
        entries_map(entries.drop_last()).insert(entries.last().0@, entries.last().1)
    }
}

spec fn distinct_keys<T>(entries: Seq<(String, T)>) -> bool {
    forall|i: int, j: int|
        0 <= i < j < entries.len() ==> #[trigger] entries[i].0@ != #[trigger] entries[j].0@
}

proof fn lemma_entries_map<T>(entries: Seq<(String, T)>)
    ensures
        forall|i: int|
            0 <= i < entries.len() ==> entries_map(entries).contains_key(#[trigger] entries[i].0@),
        forall|k: Seq<char>| #[trigger]
            entries_map(entries).contains_key(k) ==> exists|i: int|
                0 <= i < entries.len() && #[trigger] entries[i].0@ == k,
        distinct_keys(entries) ==> forall|i: int|
            0 <= i < entries.len() ==> entries_map(entries)[#[trigger] entries[i].0@]
                == entries[i].1,
    decreases entries.len(),
{
    if entries.len() > 0 {
        let rest = entries.drop_last();
        lemma_entries_map(rest);
        assert forall|k: Seq<char>| #[trigger]
            entries_map(entries).contains_key(k) implies exists|i: int|
            0 <= i < entries.len() && #[trigger] entries[i].0@ == k by {
            if k == entries.last().0@ {
                assert(entries[entries.len() - 1].0@ == k);
            } else {
                assert(entries_map(rest).contains_key(k));
                let i = choose|i: int| 0 <= i < rest.len() && #[trigger] rest[i].0@ == k;
                assert(entries[i].0@ == k);
            }
        }
        assert forall|i: int| 0 <= i < entries.len() implies entries_map(entries).contains_key(
            #[trigger] entries[i].0@,
        ) by {
            if i < rest.len() {
                assert(rest[i].0@ == entries[i].0@);
            }
        }
        if distinct_keys(entries) {
            assert forall|i: int, j: int| 0 <= i < j < rest.len() implies #[trigger] rest[i].0@
                != #[trigger] rest[j].0@ by {
                assert(entries[i].0@ != entries[j].0@);
            }
            assert forall|i: int| 0 <= i < entries.len() implies entries_map(
                entries,
            )[#[trigger] entries[i].0@] == entries[i].1 by {
                if i < rest.len() {
                    assert(rest[i].0@ == entries[i].0@);
                    assert(entries[i].0@ != entries[entries.len() - 1].0@);
                }
            }
        }
    }
}

impl<T> TextTable<T> {
    #[verifier::type_invariant]
    spec fn well_formed(self) -> bool {
        distinct_keys(self.entries@)
    }

    /// The empty table.
    pub fn new() -> (table: Self)
        ensures
            table@ == Map::<Seq<char>, T>::empty(),
    {
        TextTable { entries: Vec::new() }
    }

    fn position(&self, key: &str) -> (at: Option<usize>)
        ensures
            match at {
                Some(i) => i < self.entries@.len() && self.entries@[i as int].0@ == key@,
                None => forall|j: int|
                    0 <= j < self.entries@.len() ==> #[trigger] self.entries@[j].0@ != key@,
            },
    {
        let mut i: usize = 0;
        while i < self.entries.len()
            invariant
                i <= self.entries@.len(),
                forall|j: int| 0 <= j < i ==> #[trigger] self.entries@[j].0@ != key@,
            decreases self.entries.len() - i,
        {
            if same_text(self.entries[i].0.as_str(), key) {
                return Some(i);
            }
            i += 1;
        }
        None
    }

    /// The value under `key`.
    pub fn get(&self, key: &str) -> (value: Option<&T>)
        ensures
            match value {
                Some(v) => self@.contains_key(key@) && self@[key@] == *v,
                None => !self@.contains_key(key@),
            },
    {
        proof {
            use_type_invariant(&*self);
            lemma_entries_map(self.entries@);
        }
        match self.position(key) {
            Some(i) => Some(&self.entries[i].1),
            None => None,
        }
    }

    pub fn has(&self, key: &str) -> (b: bool)
        ensures
            b == self@.contains_key(key@),
    {
        self.get(key).is_some()
    }

    /// The keys and values.
    pub fn pairs(&self) -> (pairs: &Vec<(String, T)>)
        ensures
            forall|i: int|
                0 <= i < pairs@.len() ==> self@.contains_key(#[trigger] pairs@[i].0@)
                    && self@[pairs@[i].0@] == pairs@[i].1,
            forall|k: Seq<char>| #[trigger]
                self@.contains_key(k) ==> exists|i: int|
                    0 <= i < pairs@.len() && #[trigger] pairs@[i].0@ == k,
            forall|i: int, j: int|
                0 <= i < j < pairs@.len() ==> #[trigger] pairs@[i].0@ != #[trigger] pairs@[j].0@,
    {
        proof {
            use_type_invariant(&*self);
            lemma_entries_map(self.entries@);
        }
        &self.entries
    }

    /// Puts `value` under `key`, in place of what was there.
    pub fn insert(&mut self, key: String, value: T)
        ensures
            final(self)@ == old(self)@.insert(key@, value),
    {
        proof {
            use_type_invariant(&*self);
        }
        let at = self.position(key.as_str());
        let mut entries: Vec<(String, T)> = Vec::new();
        std::mem::swap(&mut entries, &mut self.entries);
        let ghost before = entries@;
        let ghost k = key@;
        let ghost v = value;
        let ghost i: int = match at {
            Some(i) => i as int,
            None => before.len() as int,
        };
        match at {
            Some(i) => {
                entries.set(i, (key, value));
            },
            None => {
                entries.push((key, value));
            },
        }
        proof {
            let after = entries@;
            lemma_entries_map(before);
            assert forall|a: int, b: int| 0 <= a < b < after.len() implies #[trigger] after[a].0@
                != #[trigger] after[b].0@ by {
                if a < before.len() && b < before.len() {
                    assert(before[a].0@ != before[b].0@);
                } else {
                    assert(before[a].0@ != k);
                }
            }
            lemma_entries_map(after);
            let target = entries_map(before).insert(k, v);
            assert forall|q: Seq<char>| entries_map(after).contains_key(q)
                == target.contains_key(q) by {
                if entries_map(after).contains_key(q) {
                    let a = choose|a: int| 0 <= a < after.len() && #[trigger] after[a].0@ == q;
                    if a < before.len() {
                        assert(before[a].0@ == q);
                    }
                }
                if target.contains_key(q) && q != k {
                    let a = choose|a: int| 0 <= a < before.len() && #[trigger] before[a].0@ == q;
                    assert(after[a].0@ == q);
                }
                if q == k {
                    assert(after[i].0@ == k);
                }
            }
            assert forall|q: Seq<char>| entries_map(after).contains_key(q) implies entries_map(
                after,
            )[q] == target[q] by {
                let a = choose|a: int| 0 <= a < after.len() && #[trigger] after[a].0@ == q;
                if a != i {
                    assert(before[a].0@ == q);
                    assert(after[i].0@ != q);
                }
            }
            assert(entries_map(after) =~= target);
        }
        self.entries = entries;
    }

    /// Takes out the value under `key`.
    pub fn remove(&mut self, key: &str) -> (value: Option<T>)
        ensures
            final(self)@ == old(self)@.remove(key@),
            match value {
                Some(v) => old(self)@.contains_key(key@) && old(self)@[key@] == v,
                None => !old(self)@.contains_key(key@),
            },
    {
        proof {
            use_type_invariant(&*self);
            lemma_entries_map(self.entries@);
        }
        let at = match self.position(key) {
            Some(i) => i,
            None => {
                assert(self@.remove(key@) =~= self@);
                return None;
            },
        };
        let mut entries: Vec<(String, T)> = Vec::new();
        std::mem::swap(&mut entries, &mut self.entries);
        let ghost before = entries@;
        let (_, value) = entries.remove(at);
        proof {
            let after = entries@;
            assert forall|a: int, b: int| 0 <= a < b < after.len() implies #[trigger] after[a].0@
                != #[trigger] after[b].0@ by {
                let pa = if a < at { a } else { a + 1 };
                let pb = if b < at { b } else { b + 1 };
                assert(before[pa].0@ != before[pb].0@);
            }
            lemma_entries_map(after);
            let target = entries_map(before).remove(key@);
            assert forall|q: Seq<char>| entries_map(after).contains_key(q)
                == target.contains_key(q) by {
                if entries_map(after).contains_key(q) {
                    let a = choose|a: int| 0 <= a < after.len() && #[trigger] after[a].0@ == q;
                    let pa = if a < at { a } else { a + 1 };
                    assert(before[pa].0@ == q);
                    assert(before[pa].0@ != before[at as int].0@);
                }
                if target.contains_key(q) {
                    let a = choose|a: int| 0 <= a < before.len() && #[trigger] before[a].0@ == q;
                    assert(a != at);
                    let pa = if a < at { a } else { a - 1 };
                    assert(after[pa].0@ == q);
                }
            }
            assert forall|q: Seq<char>| entries_map(after).contains_key(q) implies entries_map(
                after,
            )[q] == target[q] by {
                let a = choose|a: int| 0 <= a < after.len() && #[trigger] after[a].0@ == q;
                let pa = if a < at { a } else { a + 1 };
                assert(before[pa].0@ == q);
            }
            assert(entries_map(after) =~= target);
        }
        self.entries = entries;
        Some(value)
    }
}

} // verus!
