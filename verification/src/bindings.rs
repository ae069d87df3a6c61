//! A finite map from names to objects that can list its names.

use crate::object::{Object, Value};
use crate::text::texts;
use vstd::hash_map::StringHashMap;
use vstd::prelude::*;

verus! {

/// A set of bindings: each name is bound to at most one object.
///
/// The bindings are kept in a hash map; beside it stands a list of the
/// names, so that the bindings can be listed.
pub struct Bindings {
    map: StringHashMap<Object>,
    names: Vec<String>,
}

impl View for Bindings {
    type V = Map<Seq<char>, Value>;

    closed spec fn view(&self) -> Map<Seq<char>, Value> {
        Map::new(|name: Seq<char>| self.map@.contains_key(name), |name: Seq<char>| self.map@[name]@)
    }
}

impl Bindings {
    /// The list of names holds exactly the bound names, each once.
    #[verifier::type_invariant]
    spec fn well_formed(&self) -> bool {
        &&& texts(self.names@).no_duplicates()
        &&& forall|name: Seq<char>|
            self.map@.contains_key(name) <==> texts(self.names@).contains(name)
    }

    /// No bindings at all.
    pub fn new() -> (r: Bindings)
        ensures
            r@ == Map::<Seq<char>, Value>::empty(),
    {
        Bindings { map: StringHashMap::new(), names: Vec::new() }
    }

    /// Whether `name` is bound.
    pub fn contains_key(&self, name: &str) -> (r: bool)
        ensures
            r == self@.contains_key(name@),
    {
        self.map.contains_key(name)
    }

    /// The object that `name` is bound to, if it is bound.
    pub fn get(&self, name: &str) -> (r: Option<&Object>)
        ensures
            match r {
                Some(object) => self@.contains_key(name@) && object@ == self@[name@],
                None => !self@.contains_key(name@),
            },
    {
        self.map.get(name)
    }

    /// Binds `name` to `value`, in place of what it was bound to before.
    pub fn insert(&mut self, name: String, value: Object)
        ensures
            final(self)@ == old(self)@.insert(name@, value@),
    {
        proof {
            use_type_invariant(&*self);
        }
        let mut taken = Bindings::new();
        std::mem::swap(self, &mut taken);
        let Bindings { mut map, mut names } = taken;
        let ghost old_names = texts(names@);
        if !map.contains_key(name.as_str()) {
            names.push(name.clone());
            assert(texts(names@) =~= old_names.push(name@));
            assert(texts(names@).last() == name@);
        }
        map.insert(name, value);
        proof {
            let new_names = texts(names@);
            assert forall|other: Seq<char>| map@.contains_key(other) implies new_names.contains(
                other,
            ) by {
                if other != name@ {
                    let i = choose|i: int| 0 <= i < old_names.len() && old_names[i] == other;
                    assert(new_names[i] == other);
                }
            }
        }
        *self = Bindings { map, names };
    }

    /// Takes over every binding of `other`. Where both bind a name, the
    /// binding of `other` stands afterwards.
    pub fn absorb(&mut self, other: &Bindings)
        ensures
            final(self)@ == old(self)@.union_prefer_right(other@),
    {
        proof {
            use_type_invariant(other);
        }
        let ghost listed = texts(other.names@);
        let mut i: usize = 0;
        while i < other.names.len()
            invariant
                other.well_formed(),
                listed == texts(other.names@),
                i <= other.names.len(),
                self@ == old(self)@.union_prefer_right(
                    other@.restrict(listed.take(i as int).to_set()),
                ),
            decreases other.names.len() - i,
        {
            let name = &other.names[i];
            match other.map.get(name.as_str()) {
                Some(value) => {
                    self.insert(name.clone(), value.clone());
                    proof {
                        let done = listed.take(i as int).to_set();
                        let more = listed.take(i + 1).to_set();
                        assert forall|key: Seq<char>| more.contains(key) <==> (done.contains(key)
                            || key == name@) by {
                            if key == name@ {
                                assert(listed.take(i + 1)[i as int] == key);
                            }
                        }
                    }
                },
                None => {},
            }
            i += 1;
        }
        assert(listed.take(i as int) =~= listed);
    }

    /// The number of bound names.
    pub fn len(&self) -> (r: usize)
        ensures
            r == self@.len(),
    {
        proof {
            use_type_invariant(self);
            self.lemma_names_are_domain();
        }
        self.names.len()
    }

    /// The bound names, each once, in no order that callers can rely on.
    pub fn names(&self) -> (r: Vec<String>)
        ensures
            texts(r@).no_duplicates(),
            texts(r@).to_set() == self@.dom(),
    {
        proof {
            use_type_invariant(self);
            self.lemma_names_are_domain();
        }
        self.names.clone()
    }

    proof fn lemma_names_are_domain(&self)
        requires
            self.well_formed(),
        ensures
            texts(self.names@).to_set() == self@.dom(),
            self@.len() == self.names@.len(),
            self@.dom().finite(),
    {
        texts(self.names@).unique_seq_to_set();
    }
}

impl Default for Bindings {
    /// No bindings at all.
    fn default() -> (r: Bindings)
        ensures
            r@ == Map::<Seq<char>, Value>::empty(),
    {
        Bindings::new()
    }
}

} // verus!
