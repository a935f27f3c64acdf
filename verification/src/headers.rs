//! The header table of a message: names with their values, no name twice.

use vstd::prelude::*;
use crate::keyed::{as_map, distinct_keys, keys, lemma_put, position, put, stored_keys};
use crate::text::pairs;

verus! {

/// A header table. A name has one value: giving it another replaces the
/// first. The entries keep the order in which their names first came.
#[derive(Debug)]
pub struct Headers {
    entries: Vec<(String, String)>,
}

impl View for Headers {
    type V = Seq<(Seq<char>, Seq<char>)>;

    /// The entries in order, each a name with its value.
    closed spec fn view(&self) -> Seq<(Seq<char>, Seq<char>)> {
        pairs(self.entries@)
    }
}

impl Headers {
    #[verifier::type_invariant]
    spec fn distinct(&self) -> bool {
        distinct_keys(pairs(self.entries@))
    }

    /// The mapping from each name to its value.
    pub open spec fn map(&self) -> Map<Seq<char>, Seq<char>> {
        as_map(self@)
    }

    /// The empty table.
    pub fn new() -> (r: Headers)
        ensures
            r@ == Seq::<(Seq<char>, Seq<char>)>::empty(),
            r.map() == Map::<Seq<char>, Seq<char>>::empty(),
    {
        Headers { entries: Vec::new() }
    }

    /// Gives the header `key` the value `value`. A name that the table has
    /// keeps its place; a new name goes to the end.
    pub fn insert(&mut self, key: String, value: String)
        ensures
            distinct_keys(old(self)@),
            distinct_keys(final(self)@),
            final(self)@ == put(old(self)@, key@, value@),
            final(self).map() == old(self).map().insert(key@, value@),
    {
        proof {
            use_type_invariant(&*self);
        }
        let mut entries: Vec<(String, String)> = Vec::new();
        std::mem::swap(&mut self.entries, &mut entries);
        let ghost before = pairs(entries@);
        assert(keys(before) =~= stored_keys(entries@));
        proof {
            lemma_put(before, key@, value@);
        }
        match position(&entries, key.as_str()) {
            Some(i) => {
                entries.set(i, (key, value));
                assert(pairs(entries@) =~= put(before, key@, value@));
            },
            None => {
                entries.push((key, value));
                assert(pairs(entries@) =~= put(before, key@, value@));
            },
        }
        self.entries = entries;
    }

    /// The value of the header `key`, if the table has it.
    pub fn get(&self, key: &str) -> (r: Option<&String>)
        ensures
            match r {
                Some(value) => self.map().contains_key(key@) && value@ == self.map()[key@],
                None => !self.map().contains_key(key@),
            },
    {
        proof {
            use_type_invariant(self);
        }
        let ghost model = pairs(self.entries@);
        assert(keys(model) =~= stored_keys(self.entries@));
        match position(&self.entries, key) {
            None => None,
            Some(i) => Some(&self.entries[i].1),
        }
    }

    /// Whether the table has the header `key`.
    pub fn contains_key(&self, key: &str) -> (r: bool)
        ensures
            r == self.map().contains_key(key@),
    {
        self.get(key).is_some()
    }

    /// The number of headers.
    pub fn len(&self) -> (r: usize)
        ensures
            r == self@.len(),
    {
        self.entries.len()
    }

    /// The entries in order.
    pub fn as_vec(&self) -> (r: &Vec<(String, String)>)
        ensures
            pairs(r@) == self@,
            distinct_keys(self@),
    {
        proof {
            use_type_invariant(self);
        }
        &self.entries
    }
}

impl Clone for Headers {
    fn clone(&self) -> (r: Self)
        ensures
            r@ == self@,
    {
        proof {
            use_type_invariant(self);
        }
        let mut entries: Vec<(String, String)> = Vec::new();
        let mut i: usize = 0;
        while i < self.entries.len()
            invariant
                i <= self.entries@.len(),
                pairs(entries@) == pairs(self.entries@.take(i as int)),
            decreases self.entries@.len() - i,
        {
            entries.push((self.entries[i].0.clone(), self.entries[i].1.clone()));
            proof {
                let source = self.entries@.take(i as int);
                let entry = self.entries@[i as int];
                assert(self.entries@.take(i + 1) =~= source.push(entry));
                assert(pairs(source.push(entry)) =~= pairs(source).push((entry.0@, entry.1@)));
            }
            i += 1;
        }
        assert(self.entries@.take(self.entries@.len() as int) =~= self.entries@);
        Headers { entries }
    }
}

} // verus!
