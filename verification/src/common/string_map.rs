//! A small map from strings to values, kept in insertion order.
//!
//! The mathematical value of the map is a `Map` from character sequences to
//! values. The invariant is that no key occurs twice, so that the number of
//! entries is the number of keys.

use vstd::prelude::*;
use crate::text::{str_eq, strings_view};

verus! {

/// The map that lists of keys and values of the same length stand for.
pub open spec fn spec_zip_map<V>(keys: Seq<Seq<char>>, values: Seq<V>) -> Map<Seq<char>, V>
    decreases keys.len(),
{
    if keys.len() == 0 || values.len() != keys.len() {
        Map::empty()
    } else {
        spec_zip_map(keys.drop_last(), values.drop_last()).insert(keys.last(), values.last())
    }
}

/// The keys of the map are the listed keys.
pub proof fn lemma_zip_dom<V>(keys: Seq<Seq<char>>, values: Seq<V>, key: Seq<char>)
    requires
        keys.len() == values.len(),
    ensures
        spec_zip_map(keys, values).dom().contains(key) <==> keys.contains(key),
    decreases keys.len(),
{
    if keys.len() > 0 {
        lemma_zip_dom(keys.drop_last(), values.drop_last(), key);
        if keys.contains(key) {
            let i = choose|i: int| 0 <= i < keys.len() && keys[i] == key;
            if i < keys.len() - 1 {
                assert(keys.drop_last()[i] == key);
            }
        }
        if keys.drop_last().contains(key) {
            let i = choose|i: int| 0 <= i < keys.len() - 1 && keys.drop_last()[i] == key;
            assert(keys[i] == key);
        }
    }
}

/// The map is finite and, the keys being distinct, has as many keys as are listed.
pub proof fn lemma_zip_len<V>(keys: Seq<Seq<char>>, values: Seq<V>)
    requires
        keys.len() == values.len(),
        keys.no_duplicates(),
    ensures
        spec_zip_map(keys, values).dom().finite(),
        spec_zip_map(keys, values).dom().len() == keys.len(),
    decreases keys.len(),
{
    if keys.len() > 0 {
        lemma_zip_len(keys.drop_last(), values.drop_last());
        lemma_zip_dom(keys.drop_last(), values.drop_last(), keys.last());
        if keys.drop_last().contains(keys.last()) {
            let i = choose|i: int| 0 <= i < keys.len() - 1 && keys.drop_last()[i] == keys.last();
            assert(keys[i] == keys[keys.len() - 1]);
        }
    }
}

/// With distinct keys, the map gives under each listed key the value listed with it.
pub proof fn lemma_zip_lookup<V>(keys: Seq<Seq<char>>, values: Seq<V>, i: int)
    requires
        keys.len() == values.len(),
        keys.no_duplicates(),
        0 <= i < keys.len(),
    ensures
        spec_zip_map(keys, values).dom().contains(keys[i]),
        spec_zip_map(keys, values)[keys[i]] == values[i],
    decreases keys.len(),
{
    if i < keys.len() - 1 {
        lemma_zip_lookup(keys.drop_last(), values.drop_last(), i);
    }
}

/// With distinct keys, replacing a listed value is an insertion into the map.
pub proof fn lemma_zip_update<V>(keys: Seq<Seq<char>>, values: Seq<V>, i: int, value: V)
    requires
        keys.len() == values.len(),
        keys.no_duplicates(),
        0 <= i < keys.len(),
    ensures
        spec_zip_map(keys, values.update(i, value)) == spec_zip_map(keys, values).insert(
            keys[i],
            value,
        ),
    decreases keys.len(),
{
    let updated = values.update(i, value);
    if i == keys.len() - 1 {
        assert(updated.drop_last() =~= values.drop_last());
    } else {
        lemma_zip_update(keys.drop_last(), values.drop_last(), i, value);
        assert(updated.drop_last() =~= values.drop_last().update(i, value));
    }
    assert(spec_zip_map(keys, updated) =~= spec_zip_map(keys, values).insert(keys[i], value));
}

/// With distinct keys, taking a listed key and its value out is a removal from the map.
pub proof fn lemma_zip_remove<V>(keys: Seq<Seq<char>>, values: Seq<V>, i: int)
    requires
        keys.len() == values.len(),
        keys.no_duplicates(),
        0 <= i < keys.len(),
    ensures
        keys.remove(i).no_duplicates(),
        spec_zip_map(keys.remove(i), values.remove(i)) == spec_zip_map(keys, values).remove(keys[i]),
    decreases keys.len(),
{
    let ks = keys.remove(i);
    let vs = values.remove(i);
    assert forall|a: int, b: int| 0 <= a < ks.len() && 0 <= b < ks.len() && a != b implies ks[a]
        != ks[b] by {
        let a2 = if a < i {
            a
        } else {
            a + 1
        };
        let b2 = if b < i {
            b
        } else {
            b + 1
        };
        assert(ks[a] == keys[a2] && ks[b] == keys[b2]);
    }
    if i == keys.len() - 1 {
        assert(ks =~= keys.drop_last());
        assert(vs =~= values.drop_last());
        lemma_zip_dom(keys.drop_last(), values.drop_last(), keys.last());
        if keys.drop_last().contains(keys.last()) {
            let j = choose|j: int| 0 <= j < keys.len() - 1 && keys.drop_last()[j] == keys.last();
            assert(keys[j] == keys[keys.len() - 1]);
        }
        assert(spec_zip_map(ks, vs) =~= spec_zip_map(keys, values).remove(keys[i]));
    } else {
        lemma_zip_remove(keys.drop_last(), values.drop_last(), i);
        assert(ks.drop_last() =~= keys.drop_last().remove(i));
        assert(vs.drop_last() =~= values.drop_last().remove(i));
        assert(ks.last() == keys.last());
        assert(vs.last() == values.last());
        assert(keys.last() != keys[i]);
        assert(spec_zip_map(ks, vs) =~= spec_zip_map(keys, values).remove(keys[i]));
    }
}

/// A map from strings to values.
#[derive(Debug)]
pub struct StringMap<V> {
    keys: Vec<String>,
    values: Vec<V>,
}

impl<V> View for StringMap<V> {
    type V = Map<Seq<char>, V>;

    closed spec fn view(&self) -> Map<Seq<char>, V> {
        spec_zip_map(strings_view(self.keys@), self.values@)
    }
}

impl<V> StringMap<V> {
    /// As many values as keys, and no key twice.
    pub closed spec fn wf(&self) -> bool {
        &&& self.keys.len() == self.values.len()
        &&& strings_view(self.keys@).no_duplicates()
    }

    /// The keys in the order in which they were first inserted.
    pub closed spec fn keys_view(&self) -> Seq<Seq<char>> {
        strings_view(self.keys@)
    }

    /// The values in the order of their keys.
    pub closed spec fn values_view(&self) -> Seq<V> {
        self.values@
    }

    /// How the ordered keys and values relate to the map.
    pub proof fn lemma_entries(&self)
        requires
            self.wf(),
        ensures
            self.keys_view().len() == self.values_view().len(),
            self.keys_view().no_duplicates(),
            self@ == spec_zip_map(self.keys_view(), self.values_view()),
            self@.dom().finite(),
            self@.dom().len() == self.keys_view().len(),
            forall|k: Seq<char>| self@.dom().contains(k) <==> self.keys_view().contains(k),
            forall|i: int|
                0 <= i < self.keys_view().len() ==> self@.dom().contains(
                    #[trigger] self.keys_view()[i],
                ) && self@[self.keys_view()[i]] == self.values_view()[i],
    {
        let keys = self.keys_view();
        let values = self.values_view();
        lemma_zip_len(keys, values);
        assert forall|k: Seq<char>| self@.dom().contains(k) <==> keys.contains(k) by {
            lemma_zip_dom(keys, values, k);
        }
        assert forall|i: int| 0 <= i < keys.len() implies self@.dom().contains(#[trigger] keys[i])
            && self@[keys[i]] == values[i] by {
            lemma_zip_lookup(keys, values, i);
        }
    }

    /// An empty map.
    pub fn new() -> (r: Self)
        ensures
            r.wf(),
            r@ == Map::<Seq<char>, V>::empty(),
            r.keys_view() == Seq::<Seq<char>>::empty(),
    {
        let r = StringMap { keys: Vec::new(), values: Vec::new() };
        assert(strings_view(r.keys@) =~= Seq::empty());
        r
    }

    /// Number of entries.
    pub fn len(&self) -> (n: usize)
        requires
            self.wf(),
        ensures
            n == self@.dom().len(),
            n == self.keys_view().len(),
    {
        proof {
            self.lemma_entries();
        }
        self.keys.len()
    }

    /// Position of the key.
    fn index_of(&self, key: &str) -> (r: Option<usize>)
        requires
            self.wf(),
        ensures
            r matches Some(i) ==> i < self.keys.len() && strings_view(self.keys@)[i as int] == key@,
            r is None ==> !strings_view(self.keys@).contains(key@),
            r is Some <==> self@.dom().contains(key@),
    {
        proof {
            lemma_zip_dom(strings_view(self.keys@), self.values@, key@);
        }
        let mut i: usize = 0;
        while i < self.keys.len()
            invariant
                i <= self.keys.len(),
                self@.dom().contains(key@) <==> strings_view(self.keys@).contains(key@),
                forall|j: int| 0 <= j < i ==> strings_view(self.keys@)[j] != key@,
            decreases self.keys.len() - i,
        {
            if str_eq(self.keys[i].as_str(), key) {
                assert(strings_view(self.keys@)[i as int] == key@);
                return Some(i);
            }
            i += 1;
        }
        None
    }

    /// Whether there is an entry for the key.
    pub fn contains_key(&self, key: &str) -> (r: bool)
        requires
            self.wf(),
        ensures
            r == self@.dom().contains(key@),
    {
        self.index_of(key).is_some()
    }

    /// The value under the key.
    pub fn get(&self, key: &str) -> (r: Option<&V>)
        requires
            self.wf(),
        ensures
            r is Some <==> self@.dom().contains(key@),
            r matches Some(v) ==> *v == self@[key@],
    {
        match self.index_of(key) {
            Some(i) => {
                proof {
                    lemma_zip_lookup(strings_view(self.keys@), self.values@, i as int);
                }
                Some(&self.values[i])
            },
            None => None,
        }
    }

    /// The value under the key, for changing in place.
    pub fn get_mut(&mut self, key: &str) -> (r: Option<&mut V>)
        requires
            old(self).wf(),
        ensures
            final(self).wf(),
            final(self).keys_view() == old(self).keys_view(),
            r is Some <==> old(self)@.dom().contains(key@),
            match r {
                Some(v) => *v == old(self)@[key@] && final(self)@ == old(self)@.insert(
                    key@,
                    *final(v),
                ),
                None => final(self)@ == old(self)@,
            },
    {
        match self.index_of(key) {
            Some(i) => {
                proof {
                    lemma_zip_lookup(strings_view(self.keys@), self.values@, i as int);
                    assert forall|value: V|
                        spec_zip_map(
                            strings_view(self.keys@),
                            #[trigger] self.values@.update(i as int, value),
                        ) == spec_zip_map(strings_view(self.keys@), self.values@).insert(
                            key@,
                            value,
                        ) by {
                        lemma_zip_update(strings_view(self.keys@), self.values@, i as int, value);
                    }
                }
                Some(&mut self.values[i])
            },
            None => None,
        }
    }

    /// Puts the value under the key, replacing what was there.
    pub fn insert(&mut self, key: &str, value: V)
        requires
            old(self).wf(),
        ensures
            final(self).wf(),
            final(self)@ == old(self)@.insert(key@, value),
            final(self).keys_view() == if old(self)@.dom().contains(key@) {
                old(self).keys_view()
            } else {
                old(self).keys_view().push(key@)
            },
    {
        let ghost keys = strings_view(self.keys@);
        match self.index_of(key) {
            Some(i) => {
                proof {
                    lemma_zip_update(keys, self.values@, i as int, value);
                }
                self.values.set(i, value);
            },
            None => {
                proof {
                    assert(keys.push(key@).drop_last() =~= keys);
                    assert(self.values@.push(value).drop_last() =~= self.values@);
                }
                self.keys.push(key.to_owned());
                self.values.push(value);
                proof {
                    assert(strings_view(self.keys@) =~= keys.push(key@));
                }
            },
        }
    }

    /// Takes the entry for the key out, and says whether there was one.
    pub fn remove(&mut self, key: &str) -> (removed: bool)
        requires
            old(self).wf(),
        ensures
            final(self).wf(),
            removed == old(self)@.dom().contains(key@),
            final(self)@ == old(self)@.remove(key@),
    {
        let ghost keys = strings_view(self.keys@);
        match self.index_of(key) {
            Some(i) => {
                proof {
                    lemma_zip_remove(keys, self.values@, i as int);
                }
                self.keys.remove(i);
                self.values.remove(i);
                proof {
                    assert(strings_view(self.keys@) =~= keys.remove(i as int));
                }
                true
            },
            None => {
                assert(self@.remove(key@) =~= self@);
                false
            },
        }
    }

    /// Takes the map apart into its keys and its values, both in insertion order.
    pub fn into_parts(self) -> (r: (Vec<String>, Vec<V>))
        requires
            self.wf(),
        ensures
            strings_view(r.0@) == self.keys_view(),
            r.1@ == self.values_view(),
            r.0.len() == r.1.len(),
    {
        (self.keys, self.values)
    }

    /// The key at a position of the insertion order.
    pub fn key_at(&self, i: usize) -> (r: &String)
        requires
            self.wf(),
            i < self.keys_view().len(),
        ensures
            r@ == self.keys_view()[i as int],
    {
        &self.keys[i]
    }

    /// The value at a position of the insertion order.
    pub fn value_at(&self, i: usize) -> (r: &V)
        requires
            self.wf(),
            i < self.keys_view().len(),
        ensures
            *r == self.values_view()[i as int],
            *r == self@[self.keys_view()[i as int]],
    {
        proof {
            lemma_zip_lookup(strings_view(self.keys@), self.values@, i as int);
        }
        &self.values[i]
    }
}

} // verus!
