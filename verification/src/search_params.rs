//! The search parameters of a URI: each name with its values, in the order
//! in which they were given.

use vstd::prelude::*;
use crate::keyed::{as_map, distinct_keys, keys, lemma_put, position, put, stored_keys};
use crate::search::{split, split_once, str_split, str_split_once, views};
use crate::text::texts;

verus! {

/// The mapping after `v` is added to the values of `k`: behind the values
/// that `k` has, or as its first.
pub open spec fn with_value(
    m: Map<Seq<char>, Seq<Seq<char>>>,
    k: Seq<char>,
    v: Seq<char>,
) -> Map<Seq<char>, Seq<Seq<char>>> {
    m.insert(
        k,
        if m.contains_key(k) {
            m[k].push(v)
        } else {
            seq![v]
        },
    )
}

/// The mapping after the values `vs` are added to those of `k`.
pub open spec fn with_values(
    m: Map<Seq<char>, Seq<Seq<char>>>,
    k: Seq<char>,
    vs: Seq<Seq<char>>,
) -> Map<Seq<char>, Seq<Seq<char>>> {
    m.insert(
        k,
        if m.contains_key(k) {
            m[k] + vs
        } else {
            vs
        },
    )
}

/// The mapping after one segment of a query string is read. An empty
/// segment says nothing. Otherwise the name is what stands before the first
/// `=` and the value what follows it; without `=` the whole segment is the
/// name and the value is empty.
pub open spec fn with_segment(
    m: Map<Seq<char>, Seq<Seq<char>>>,
    segment: Seq<char>,
) -> Map<Seq<char>, Seq<Seq<char>>> {
    if segment.len() == 0 {
        m
    } else {
        match split_once(segment, "="@) {
            Some((k, v)) => with_value(m, k, v),
            None => with_value(m, segment, Seq::empty()),
        }
    }
}

/// The mapping after a run of segments is read, from the left.
pub open spec fn with_segments(segments: Seq<Seq<char>>) -> Map<Seq<char>, Seq<Seq<char>>> {
    segments.fold_left(
        Map::empty(),
        |m: Map<Seq<char>, Seq<Seq<char>>>, segment: Seq<char>| with_segment(m, segment),
    )
}

/// What a query string says: its segments are parted by `&` and read from
/// the left. Nothing is percent-decoded.
pub open spec fn decode(query: Seq<char>) -> Map<Seq<char>, Seq<Seq<char>>> {
    with_segments(split(query, "&"@))
}

/// The stored entries as keyed texts.
pub open spec fn entries_model(values: Seq<(String, Vec<String>)>) -> Seq<
    (Seq<char>, Seq<Seq<char>>),
> {
    values.map_values(|e: (String, Vec<String>)| (e.0@, texts(e.1@)))
}

/// Search parameters: a mapping from each name to its values in order.
#[derive(Debug)]
pub struct SearchParams {
    values: Vec<(String, Vec<String>)>,
}

impl View for SearchParams {
    type V = Map<Seq<char>, Seq<Seq<char>>>;

    closed spec fn view(&self) -> Map<Seq<char>, Seq<Seq<char>>> {
        as_map(entries_model(self.values@))
    }
}

/// A copy of a list of strings.
fn clone_strings(values: &Vec<String>) -> (r: Vec<String>)
    ensures
        texts(r@) == texts(values@),
{
    let mut r: Vec<String> = Vec::new();
    let mut i: usize = 0;
    while i < values.len()
        invariant
            i <= values@.len(),
            texts(r@) == texts(values@.take(i as int)),
        decreases values@.len() - i,
    {
        let ghost copied = r@;
        r.push(values[i].clone());
        assert(texts(r@) =~= texts(copied).push(values@[i as int]@));
        i += 1;
    }
    r
}

impl SearchParams {
    #[verifier::type_invariant]
    spec fn distinct(&self) -> bool {
        distinct_keys(entries_model(self.values@))
    }

    /// The first value of `key`, where it has one.
    pub fn get(&self, key: &str) -> (r: Option<&str>)
        ensures
            match r {
                Some(v) => self@.contains_key(key@) && self@[key@].len() > 0 && v@ == self@[key@][0],
                None => !self@.contains_key(key@) || self@[key@].len() == 0,
            },
    {
        match self.get_all(key) {
            None => None,
            Some(values) => if values.len() > 0 {
                Some(values[0].as_str())
            } else {
                None
            },
        }
    }

    /// All values of `key`, in the order in which they were given.
    pub fn get_all(&self, key: &str) -> (r: Option<&Vec<String>>)
        ensures
            match r {
                Some(values) => self@.contains_key(key@) && texts(values@) == self@[key@],
                None => !self@.contains_key(key@),
            },
    {
        proof {
            use_type_invariant(self);
        }
        let ghost model = entries_model(self.values@);
        assert(keys(model) =~= stored_keys(self.values@));
        match position(&self.values, key) {
            None => None,
            Some(i) => Some(&self.values[i].1),
        }
    }

    /// Adds `value` to the values of `key`.
    pub fn add(&mut self, key: &str, value: &str)
        ensures
            final(self)@ == with_value(old(self)@, key@, value@),
    {
        proof {
            use_type_invariant(&*self);
        }
        let mut values: Vec<(String, Vec<String>)> = Vec::new();
        std::mem::swap(&mut self.values, &mut values);
        let ghost before = entries_model(values@);
        assert(keys(before) =~= stored_keys(values@));
        match position(&values, key) {
            Some(i) => {
                let ghost stored = values@;
                let owned = value.to_owned();
                values[i].1.push(owned);
                proof {
                    lemma_put(before, key@, before[i as int].1.push(value@));
                    assert(texts(values@[i as int].1@) =~= texts(stored[i as int].1@).push(value@));
                    assert(entries_model(values@) =~= put(
                        before,
                        key@,
                        before[i as int].1.push(value@),
                    ));
                }
            },
            None => {
                let mut list: Vec<String> = Vec::new();
                list.push(value.to_owned());
                values.push((key.to_owned(), list));
                proof {
                    lemma_put(before, key@, seq![value@]);
                    assert(texts(list@) =~= seq![value@]);
                    assert(entries_model(values@) =~= put(before, key@, seq![value@]));
                }
            },
        }
        self.values = values;
    }

    /// Adds the values in `value` to those of `key`. Where `key` has values
    /// already, they are moved out of `value`, which is left empty; a new
    /// key gets a copy of them, and `value` stays as it is.
    pub fn add_many(&mut self, key: &str, value: &mut Vec<String>)
        ensures
            final(self)@ == with_values(old(self)@, key@, texts(old(value)@)),
            texts(final(value)@) == if old(self)@.contains_key(key@) {
                Seq::<Seq<char>>::empty()
            } else {
                texts(old(value)@)
            },
    {
        proof {
            use_type_invariant(&*self);
        }
        let mut values: Vec<(String, Vec<String>)> = Vec::new();
        std::mem::swap(&mut self.values, &mut values);
        let ghost before = entries_model(values@);
        assert(keys(before) =~= stored_keys(values@));
        match position(&values, key) {
            Some(i) => {
                values[i].1.append(value);
                proof {
                    let merged = before[i as int].1 + texts(old(value)@);
                    lemma_put(before, key@, merged);
                    assert(texts(values@[i as int].1@) =~= merged);
                    assert(entries_model(values@) =~= put(before, key@, merged));
                }
            },
            None => {
                let list = clone_strings(value);
                values.push((key.to_owned(), list));
                proof {
                    lemma_put(before, key@, texts(old(value)@));
                    assert(entries_model(values@) =~= put(before, key@, texts(old(value)@)));
                }
            },
        }
        self.values = values;
    }

    /// Gives `key` the one value `value`, in place of any it has.
    pub fn set(&mut self, key: &str, value: &str)
        ensures
            final(self)@ == old(self)@.insert(key@, seq![value@]),
    {
        let mut list: Vec<String> = Vec::new();
        list.push(value.to_owned());
        assert(texts(list@) =~= seq![value@]);
        self.store(key, list);
    }

    /// Gives `key` a copy of the values in `value`, in place of any it has.
    pub fn set_many(&mut self, key: &str, value: &Vec<String>)
        ensures
            final(self)@ == old(self)@.insert(key@, texts(value@)),
    {
        self.store(key, clone_strings(value));
    }

    /// Gives `key` the values `list`, in place of any it has.
    fn store(&mut self, key: &str, list: Vec<String>)
        ensures
            final(self)@ == old(self)@.insert(key@, texts(list@)),
    {
        proof {
            use_type_invariant(&*self);
        }
        let mut values: Vec<(String, Vec<String>)> = Vec::new();
        std::mem::swap(&mut self.values, &mut values);
        let ghost before = entries_model(values@);
        assert(keys(before) =~= stored_keys(values@));
        proof {
            lemma_put(before, key@, texts(list@));
        }
        match position(&values, key) {
            Some(i) => {
                values[i].1 = list;
                proof {
                    assert(entries_model(values@) =~= put(before, key@, texts(list@)));
                }
            },
            None => {
                values.push((key.to_owned(), list));
                assert(entries_model(values@) =~= put(before, key@, texts(list@)));
            },
        }
        self.values = values;
    }

    /// Reads a query string.
    pub fn from(search_string: &str) -> (r: SearchParams)
        ensures
            r@ == decode(search_string@),
    {
        let segments = str_split(search_string, "&");
        let mut search = SearchParams { values: Vec::new() };
        let mut i: usize = 0;
        while i < segments.len()
            invariant
                i <= segments@.len(),
                search@ == with_segments(views(segments@).take(i as int)),
            decreases segments@.len() - i,
        {
            let param = segments[i];
            proof {
                let read = views(segments@).take(i + 1);
                assert(read.drop_last() =~= views(segments@).take(i as int));
            }
            if !param.is_empty() {
                match str_split_once(param, "=") {
                    Some((key, value)) => {
                        search.add(key, value);
                    },
                    None => {
                        search.add(param, "");
                        proof {
                            reveal_strlit("");
                            assert(""@ =~= Seq::<char>::empty());
                        }
                    },
                }
            }
            i += 1;
        }
        search
    }
}

impl Clone for SearchParams {
    fn clone(&self) -> (r: Self)
        ensures
            r@ == self@,
    {
        proof {
            use_type_invariant(self);
        }
        let mut values: Vec<(String, Vec<String>)> = Vec::new();
        let mut i: usize = 0;
        while i < self.values.len()
            invariant
                i <= self.values@.len(),
                entries_model(values@) == entries_model(self.values@.take(i as int)),
            decreases self.values@.len() - i,
        {
            let key = self.values[i].0.clone();
            let list = clone_strings(&self.values[i].1);
            values.push((key, list));
            proof {
                let source = self.values@.take(i as int);
                let entry = self.values@[i as int];
                assert(self.values@.take(i + 1) =~= source.push(entry));
                assert(entries_model(source.push(entry)) =~= entries_model(source).push(
                    (entry.0@, texts(entry.1@)),
                ));
            }
            i += 1;
        }
        assert(self.values@.take(self.values@.len() as int) =~= self.values@);
        SearchParams { values }
    }
}

} // verus!
