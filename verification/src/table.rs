use vstd::prelude::*;

verus! {

/// One row of a table: a text key and what is stored under it.
pub struct Row<V> {
    pub key: String,
    pub value: V,
}

/// A table with a unique text key, as the store keeps for objects and for
/// references. Its meaning is the map from each key to the view of its
/// value.
pub struct Table<V: View> {
    pub rows: Vec<Row<V>>,
    pub index: Ghost<Map<Seq<char>, V::V>>,
}

impl<V: View> Table<V> {
    /// The map that the table stands for.
    pub open spec fn map(&self) -> Map<Seq<char>, V::V> {
        self.index@
    }

    /// Every row is in the map, every key of the map has a row, and no key
    /// has two rows.
    pub open spec fn wf(&self) -> bool {
        &&& forall|i: int|
            0 <= i < self.rows@.len() ==> self.index@.contains_key(#[trigger] self.rows@[i].key@)
                && self.index@[self.rows@[i].key@] == self.rows@[i].value@
        &&& forall|k: Seq<char>| #[trigger]
            self.index@.contains_key(k) ==> exists|i: int|
                0 <= i < self.rows@.len() && #[trigger] self.rows@[i].key@ == k
        &&& forall|i: int, j: int|
            0 <= i < j < self.rows@.len() ==> #[trigger] self.rows@[i].key@
                != #[trigger] self.rows@[j].key@
        &&& self.index@.dom().finite()
        &&& self.index@.dom().len() == self.rows@.len()
    }

    /// The empty table.
    pub fn new() -> (table: Table<V>)
        ensures
            table.wf(),
            table.map() == Map::<Seq<char>, V::V>::empty(),
    {
        Table { rows: Vec::new(), index: Ghost(Map::empty()) }
    }

    /// The number of rows.
    pub fn len(&self) -> (n: usize)
        requires
            self.wf(),
        ensures
            n == self.map().dom().len(),
    {
        self.rows.len()
    }

    /// The position of the row with the given key, if there is one.
    pub fn find(&self, key: &String) -> (found: Option<usize>)
        requires
            self.wf(),
        ensures
            match found {
                Some(i) => i < self.rows@.len() && self.rows@[i as int].key@ == key@
                    && self.map().contains_key(key@),
                None => !self.map().contains_key(key@),
            },
    {
        let mut i: usize = 0;
        while i < self.rows.len()
            invariant
                self.wf(),
                i <= self.rows@.len(),
                forall|j: int| 0 <= j < i ==> self.rows@[j].key@ != key@,
            decreases self.rows@.len() - i,
        {
            if self.rows[i].key == *key {
                assert(self.map().contains_key(self.rows@[i as int].key@));
                return Some(i);
            }
            i = i + 1;
        }
        None
    }

    /// The value stored under a key.
    pub fn get(&self, key: &String) -> (found: Option<&V>)
        requires
            self.wf(),
        ensures
            match found {
                Some(v) => self.map().contains_key(key@) && v@ == self.map()[key@],
                None => !self.map().contains_key(key@),
            },
    {
        match self.find(key) {
            Some(i) => Some(&self.rows[i].value),
            None => None,
        }
    }

    /// Stores a value under a key, replacing what was there.
    pub fn put(&mut self, key: String, value: V)
        requires
            old(self).wf(),
        ensures
            final(self).wf(),
            final(self).map() == old(self).map().insert(key@, value@),
            forall|i: int|
                0 <= i < final(self).rows@.len() ==> (#[trigger] final(self).rows@[i]).value == value
                    || (i < old(self).rows@.len() && final(self).rows@[i] == old(self).rows@[i]),
    {
        let ghost before = self.rows@;
        let ghost k = key@;
        let ghost v = value@;
        match self.find(&key) {
            Some(i) => {
                self.rows.set(i, Row { key, value });
                proof {
                    self.index@ = self.index@.insert(k, v);
                    assert forall|j: int| 0 <= j < self.rows@.len() implies self.rows@[j].key@
                        == before[j].key@ by {}
                    assert(self.index@.dom() =~= old(self).index@.dom());
                }
            },
            None => {
                self.rows.push(Row { key, value });
                proof {
                    self.index@ = self.index@.insert(k, v);
                    assert forall|j: int| 0 <= j < before.len() implies self.rows@[j].key@
                        == before[j].key@ by {}
                    assert(self.rows@[before.len() as int].key@ == k);
                    assert(self.index@.dom() =~= old(self).index@.dom().insert(k));
                }
            },
        }
    }
}

} // verus!
