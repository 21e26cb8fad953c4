//! Maps and sets keyed by text.

use vstd::prelude::*;

verus! {

/// Whether no key occurs twice.
pub open spec fn distinct_keys<T>(rows: Seq<(String, T)>) -> bool {
    forall|i: int, j: int|
        0 <= i < j < rows.len() ==> (#[trigger] rows[i]).0@ != (#[trigger] rows[j]).0@
}

/// Whether some row has the key.
pub open spec fn has_key<T>(rows: Seq<(String, T)>, key: Seq<char>) -> bool {
    exists|i: int| 0 <= i < rows.len() && (#[trigger] rows[i]).0@ == key
}

/// Position of the row with the key.
pub open spec fn key_row<T>(rows: Seq<(String, T)>, key: Seq<char>) -> int {
    choose|i: int| 0 <= i < rows.len() && (#[trigger] rows[i]).0@ == key
}

/// The rows as a map from key to the view of the value.
pub open spec fn keyed_map<T: DeepView>(rows: Seq<(String, T)>) -> Map<Seq<char>, T::V> {
    Map::new(|k: Seq<char>| has_key(rows, k), |k: Seq<char>| rows[key_row(rows, k)].1.deep_view())
}

proof fn lemma_key_row<T: DeepView>(rows: Seq<(String, T)>, i: int)
    requires
        distinct_keys(rows),
        0 <= i < rows.len(),
    ensures
        has_key(rows, rows[i].0@),
        key_row(rows, rows[i].0@) == i,
        keyed_map(rows).contains_key(rows[i].0@),
        keyed_map(rows)[rows[i].0@] == rows[i].1.deep_view(),
{
    let key = rows[i].0@;
    assert(has_key(rows, key));
    let k = key_row(rows, key);
    assert(0 <= k < rows.len() && rows[k].0@ == key);
    if k < i {
        assert(rows[k].0@ != rows[i].0@);
    } else if i < k {
        assert(rows[i].0@ != rows[k].0@);
    }
}

/// A map from text to values.
#[derive(Debug)]
pub struct TextMap<T> {
    rows: Vec<(String, T)>,
}

impl<T> TextMap<T> {
    #[verifier::type_invariant]
    spec fn distinct(self) -> bool {
        distinct_keys(self.rows@)
    }
}

impl<T: DeepView> View for TextMap<T> {
    type V = Map<Seq<char>, T::V>;

    closed spec fn view(&self) -> Map<Seq<char>, T::V> {
        keyed_map(self.rows@)
    }
}

impl<T: DeepView> TextMap<T> {
    /// A map without entries.
    pub fn new() -> (r: Self)
        ensures
            r@ == Map::<Seq<char>, T::V>::empty(),
    {
        let r = TextMap { rows: Vec::new() };
        assert(keyed_map(r.rows@) =~= Map::<Seq<char>, T::V>::empty());
        r
    }

    fn position(&self, key: &String) -> (r: Option<usize>)
        ensures
            match r {
                Some(i) => i < self.rows@.len() && self.rows@[i as int].0@ == key@,
                None => !has_key(self.rows@, key@),
            },
    {
        let mut i: usize = 0;
        while i < self.rows.len()
            invariant
                i <= self.rows@.len(),
                forall|k: int| 0 <= k < i ==> (#[trigger] self.rows@[k]).0@ != key@,
            decreases self.rows@.len() - i,
        {
            if self.rows[i].0 == *key {
                return Some(i);
            }
            i = i + 1;
        }
        None
    }

    /// The value under a key.
    pub fn get(&self, key: &String) -> (r: Option<&T>)
        ensures
            match r {
                Some(x) => self@.contains_key(key@) && x.deep_view() == self@[key@],
                None => !self@.contains_key(key@),
            },
    {
        proof {
            use_type_invariant(self);
        }
        match self.position(key) {
            Some(i) => {
                proof {
                    lemma_key_row(self.rows@, i as int);
                }
                Some(&self.rows[i].1)
            },
            None => None,
        }
    }

    /// Whether the key has a value.
    pub fn contains(&self, key: &String) -> (r: bool)
        ensures
            r == self@.contains_key(key@),
    {
        self.get(key).is_some()
    }

    /// Puts a value under a key, in place of the one that may be there.
    pub fn insert(&mut self, key: String, value: T)
        ensures
            final(self)@ == old(self)@.insert(key@, value.deep_view()),
    {
        proof {
            use_type_invariant(&*self);
        }
        let ghost before = self.rows@;
        let ghost target = keyed_map(before).insert(key@, value.deep_view());
        let found = self.position(&key);
        let mut rows: Vec<(String, T)> = Vec::new();
        std::mem::swap(&mut rows, &mut self.rows);
        let ghost spot: int = match found {
            Some(i) => i as int,
            None => before.len() as int,
        };
        let ghost text = key@;
        let ghost given = value.deep_view();
        match found {
            Some(i) => {
                rows.set(i, (key, value));
            },
            None => {
                rows.push((key, value));
            },
        }
        proof {
            assert(rows@[spot].0@ == text);
            assert(distinct_keys(rows@)) by {
                assert forall|i: int, j: int| 0 <= i < j < rows@.len() implies (#[trigger] rows@[i]).0@
                    != (#[trigger] rows@[j]).0@ by {
                    if i != spot && j != spot {
                        assert(before[i].0@ != before[j].0@);
                    } else if found is Some {
                        assert(before[i].0@ != before[j].0@);
                    } else {
                        assert(before[i].0@ != text);
                    }
                }
            }
            assert forall|k: Seq<char>| keyed_map(rows@).contains_key(k) <==> target.contains_key(k) by {
                if has_key(rows@, k) {
                    let i = key_row(rows@, k);
                    if i != spot {
                        assert(before[i].0@ == k);
                    }
                }
                if has_key(before, k) {
                    let i = key_row(before, k);
                    assert(rows@[i].0@ == k);
                }
                assert(has_key(rows@, text));
            }
            assert forall|k: Seq<char>| #[trigger] keyed_map(rows@).contains_key(k) implies keyed_map(
                rows@,
            )[k] == target[k] by {
                let i = key_row(rows@, k);
                lemma_key_row(rows@, i);
                if i != spot {
                    lemma_key_row(before, i);
                    assert(before[i] == rows@[i]);
                    if k == text {
                        lemma_key_row(rows@, spot);
                    }
                } else {
                    lemma_key_row(rows@, spot);
                }
            }
            assert(keyed_map(rows@) =~= target);
        }
        self.rows = rows;
    }
}

} // verus!
