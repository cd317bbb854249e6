//! A map from names to values.

use crate::text::{decimal, push_decimal};
use vstd::prelude::*;

verus! {

/// A map keyed by names. Its entries keep the order in which their names first
/// came; no name stands in it twice.
#[derive(Debug)]
pub struct NameMap<V> {
    entries: Vec<(String, V)>,
}

impl<V: View> View for NameMap<V> {
    type V = Map<Seq<char>, V::V>;

    closed spec fn view(&self) -> Map<Seq<char>, V::V> {
        Map::new(
            |name: Seq<char>| exists|i: int| 0 <= i < self.names().len() && self.names()[i] == name,
            |name: Seq<char>|
                self.entries@[choose|i: int|
                    0 <= i < self.names().len() && self.names()[i] == name].1@,
        )
    }
}

impl<V> NameMap<V> {
    #[verifier::type_invariant]
    spec fn distinct(self) -> bool {
        forall|i: int, j: int|
            #![trigger self.names()[i], self.names()[j]]
            0 <= i < j < self.names().len() ==> self.names()[i] != self.names()[j]
    }

    /// The names, in the order of the entries.
    pub closed spec fn names(&self) -> Seq<Seq<char>> {
        Seq::new(self.entries@.len(), |i: int| self.entries@[i].0@)
    }
}

impl<V: View> NameMap<V> {
    proof fn lemma_entry(self, i: int)
        requires
            self.distinct(),
            0 <= i < self.entries@.len(),
        ensures
            self@.contains_key(self.names()[i]),
            self@[self.names()[i]] == self.entries@[i].1@,
            self.names()[i] == self.entries@[i].0@,
    {
        let name = self.names()[i];
        let k = choose|k: int| 0 <= k < self.names().len() && self.names()[k] == name;
        assert(k == i);
    }

    /// The map without entries.
    pub fn new() -> (m: Self)
        ensures
            m@ == Map::<Seq<char>, V::V>::empty(),
            m.names() == Seq::<Seq<char>>::empty(),
    {
        let m = NameMap { entries: Vec::new() };
        assert(m@ =~= Map::<Seq<char>, V::V>::empty());
        assert(m.names() =~= Seq::<Seq<char>>::empty());
        m
    }

    fn position(&self, name: &String) -> (r: Option<usize>)
        ensures
            r matches Some(i) ==> i < self.entries@.len() && self.names()[i as int] == name@,
            r is None ==> !self@.contains_key(name@),
    {
        let mut i: usize = 0;
        while i < self.entries.len()
            invariant
                i <= self.entries@.len(),
                forall|k: int| 0 <= k < i ==> #[trigger] self.names()[k] != name@,
            decreases self.entries@.len() - i,
        {
            if self.entries[i].0 == *name {
                return Some(i);
            }
            i += 1;
        }
        None
    }

    /// Binds `name` to `value`, in place of what it was bound to before.
    pub fn insert(&mut self, name: String, value: V)
        ensures
            final(self)@ == old(self)@.insert(name@, value@),
    {
        proof {
            use_type_invariant(&*self);
        }
        let ghost before = *self;
        let found = self.position(&name);
        let mut entries: Vec<(String, V)> = Vec::new();
        std::mem::swap(&mut entries, &mut self.entries);
        let ghost bound = name@;
        let ghost image = value@;
        match found {
            Some(i) => {
                entries.set(i, (name, value));
                let ghost after = NameMap { entries };
                assert(after.names() =~= before.names());
                assert(after@ =~= before@.insert(bound, image)) by {
                    after.lemma_entry(i as int);
                    assert forall|k: Seq<char>| after@.contains_key(k) implies after@[k]
                        == before@.insert(bound, image)[k] by {
                        let j = choose|j: int|
                            0 <= j < after.names().len() && after.names()[j] == k;
                        after.lemma_entry(j);
                        before.lemma_entry(j);
                    }
                }
            },
            None => {
                entries.push((name, value));
                let ghost after = NameMap { entries };
                assert(after.names() =~= before.names().push(bound));
                let ghost last = before.entries@.len() as int;
                assert forall|i: int| 0 <= i < last implies after.names()[i] != bound by {
                    before.lemma_entry(i);
                    assert(after.names()[i] == before.names()[i]);
                }
                assert(after.distinct());
                assert(after@ =~= before@.insert(bound, image)) by {
                    after.lemma_entry(last);
                    assert forall|k: Seq<char>|
                        after@.contains_key(k) == before@.insert(bound, image).contains_key(
                            k,
                        ) by {
                        if before@.contains_key(k) {
                            let j = choose|j: int|
                                0 <= j < before.names().len() && before.names()[j] == k;
                            assert(after.names()[j] == k);
                        }
                        if after@.contains_key(k) && k != bound {
                            let j = choose|j: int|
                                0 <= j < after.names().len() && after.names()[j] == k;
                            assert(before.names()[j] == k);
                        }
                    }
                    assert forall|k: Seq<char>| after@.contains_key(k) implies after@[k]
                        == before@.insert(bound, image)[k] by {
                        let j = choose|j: int|
                            0 <= j < after.names().len() && after.names()[j] == k;
                        after.lemma_entry(j);
                        if j < last {
                            before.lemma_entry(j);
                        }
                    }
                }
            },
        }
        self.entries = entries;
    }

    /// The value that `name` is bound to.
    pub fn get(&self, name: &str) -> (r: Option<&V>)
        ensures
            match r {
                Some(v) => self@.contains_key(name@) && v@ == self@[name@],
                None => !self@.contains_key(name@),
            },
    {
        proof {
            use_type_invariant(self);
        }
        let name = name.to_string();
        match self.position(&name) {
            Some(i) => {
                proof {
                    self.lemma_entry(i as int);
                }
                Some(&self.entries[i].1)
            },
            None => None,
        }
    }

    /// Whether `name` is bound.
    pub fn contains_key(&self, name: &str) -> (r: bool)
        ensures
            r == self@.contains_key(name@),
    {
        self.get(name).is_some()
    }

    /// The number of bound names.
    pub fn len(&self) -> (n: usize)
        ensures
            n == self.names().len(),
            forall|name: Seq<char>| #[trigger]
                self@.contains_key(name) <==> exists|i: int|
                    0 <= i < n && self.names()[i] == name,
    {
        self.entries.len()
    }

    /// The entry at position `i`.
    pub fn entry(&self, i: usize) -> (r: (&String, &V))
        requires
            i < self.names().len(),
        ensures
            r.0@ == self.names()[i as int],
            self@.contains_key(r.0@),
            r.1@ == self@[r.0@],
    {
        proof {
            use_type_invariant(self);
            self.lemma_entry(i as int);
        }
        (&self.entries[i].0, &self.entries[i].1)
    }
}

/// The name of tensor `suffix` of layer `layer`.
pub open spec fn layer_name(layer: nat, suffix: Seq<char>) -> Seq<char> {
    "blk."@ + decimal(layer) + "."@ + suffix
}

/// Different layers have different tensor names.
pub proof fn law_layer_names_differ(a: nat, b: nat, suffix: Seq<char>)
    requires
        layer_name(a, suffix) == layer_name(b, suffix),
    ensures
        a == b,
{
    let x = layer_name(a, suffix);
    let y = layer_name(b, suffix);
    let p = "blk."@.len() as int;
    assert(x.len() == p + decimal(a).len() + "."@.len() + suffix.len());
    assert(y.len() == p + decimal(b).len() + "."@.len() + suffix.len());
    assert(x.subrange(p, p + decimal(a).len()) =~= decimal(a));
    assert(y.subrange(p, p + decimal(b).len()) =~= decimal(b));
    crate::text::law_numeral_is_faithful(a, 10);
    crate::text::law_numeral_is_faithful(b, 10);
}

/// Builds the name of tensor `suffix` of layer `layer`.
pub fn layer_key(layer: usize, suffix: &str) -> (name: String)
    ensures
        name@ == layer_name(layer as nat, suffix@),
{
    let mut name = "blk.".to_string();
    push_decimal(&mut name, layer as u64);
    name.append(".");
    name.append(suffix);
    name
}

} // verus!
