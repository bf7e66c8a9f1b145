//! A map from text to text.

use vstd::prelude::*;
use crate::text_table::TextTable;

verus! {

/// A map from text to text.
#[derive(Debug)]
pub struct TextMap {
    table: TextTable<String>,
}

impl View for TextMap {
    type V = Map<Seq<char>, Seq<char>>;

    closed spec fn view(&self) -> Map<Seq<char>, Seq<char>> {
        self.table@.map_values(|s: String| s@)
    }
}

impl TextMap {
    /// The empty map.
    pub fn new() -> (map: Self)
        ensures
            map@ == Map::<Seq<char>, Seq<char>>::empty(),
    {
        let map = TextMap { table: TextTable::new() };
        assert(map@ =~= Map::<Seq<char>, Seq<char>>::empty());
        map
    }

    /// The value under `key`.
    pub fn get(&self, key: &str) -> (value: Option<&String>)
        ensures
            match value {
                Some(v) => self@.contains_key(key@) && self@[key@] == v@,
                None => !self@.contains_key(key@),
            },
    {
        self.table.get(key)
    }

    /// The keys and values, in the order in which the keys came in.
    pub fn pairs(&self) -> (pairs: &Vec<(String, String)>)
        ensures
            forall|i: int|
                0 <= i < pairs@.len() ==> self@.contains_key(#[trigger] pairs@[i].0@)
                    && self@[pairs@[i].0@] == pairs@[i].1@,
            forall|k: Seq<char>| #[trigger]
                self@.contains_key(k) ==> exists|i: int|
                    0 <= i < pairs@.len() && #[trigger] pairs@[i].0@ == k,
            forall|i: int, j: int|
                0 <= i < j < pairs@.len() ==> #[trigger] pairs@[i].0@ != #[trigger] pairs@[j].0@,
    {
        let pairs = self.table.pairs();
        assert(forall|k: Seq<char>| #[trigger]
            self@.contains_key(k) ==> self.table@.contains_key(k));
        pairs
    }

    /// The map with `value` under `key`, in place of what was there.
    pub fn with(self, key: String, value: String) -> (map: Self)
        ensures
            map@ == self@.insert(key@, value@),
    {
        let ghost before = self@;
        let mut table = self.table;
        table.insert(key, value);
        let map = TextMap { table };
        assert(map@ =~= before.insert(key@, value@));
        map
    }
}

} // verus!
