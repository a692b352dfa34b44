//! Name-to-value binding tables: the per-invocation frames and the
//! process-wide heap.
//!
//! A table is a list of bindings where the latest binding for a name
//! wins; its mathematical value is the map that inserts the pairs in
//! order. Reads hand out deep copies, so no two tables ever share
//! mutable state (the language's value semantics).

use vstd::prelude::*;
use crate::value::Value;
use crate::value::ValueV;
use crate::value::obj_view;
use crate::valops::deep_clone;
use crate::valops::str_eq;

verus! {

broadcast use vstd::group_vstd_default, crate::value::group_value_views;

/// The map that a binding list stands for: later pairs override
/// earlier ones.
pub open spec fn assoc_map(s: Seq<(Seq<char>, ValueV)>) -> Map<Seq<char>, ValueV>
    decreases s.len(),
{
    if s.len() == 0 {
        Map::empty()
    } else {
        assoc_map(s.drop_last()).insert(s.last().0, s.last().1)
    }
}

/// Containment in the map a binding list stands for.
proof fn lemma_assoc_contains(s: Seq<(Seq<char>, ValueV)>, k: Seq<char>)
    ensures
        assoc_map(s).contains_key(k) <==> exists|j: int| 0 <= j < s.len() && s[j].0 == k,
    decreases s.len(),
{
    assert(assoc_map(s) == if s.len() == 0 {
        Map::<Seq<char>, ValueV>::empty()
    } else {
        assoc_map(s.drop_last()).insert(s.last().0, s.last().1)
    });
    if s.len() > 0 {
        lemma_assoc_contains(s.drop_last(), k);
        if assoc_map(s).contains_key(k) {
            if s.last().0 != k {
                let j = choose|j: int| 0 <= j < s.drop_last().len() && s.drop_last()[j].0 == k;
                assert(s[j].0 == k);
            }
        }
        if exists|j: int| 0 <= j < s.len() && s[j].0 == k {
            let j = choose|j: int| 0 <= j < s.len() && s[j].0 == k;
            if j < s.len() - 1 {
                assert(s.drop_last()[j].0 == k);
            }
        }
    }
}

/// The value the map holds for `k` is the latest binding of `k`.
proof fn lemma_assoc_lookup(s: Seq<(Seq<char>, ValueV)>, k: Seq<char>, j: int)
    requires
        0 <= j < s.len(),
        s[j].0 == k,
        forall|l: int| j < l < s.len() ==> s[l].0 != k,
    ensures
        assoc_map(s).contains_key(k),
        assoc_map(s)[k] == s[j].1,
    decreases s.len(),
{
    assert(assoc_map(s) == assoc_map(s.drop_last()).insert(s.last().0, s.last().1));
    if j == s.len() - 1 {
    } else {
        assert(s.drop_last()[j].0 == k);
        lemma_assoc_lookup(s.drop_last(), k, j);
        assert(s.last().0 != k);
    }
}

/// A binding table: frame or heap.
pub struct Bindings {
    entries: Vec<(String, Value)>,
}

impl View for Bindings {
    type V = Map<Seq<char>, ValueV>;

    closed spec fn view(&self) -> Map<Seq<char>, ValueV> {
        assoc_map(obj_view(self.entries@))
    }
}

impl Bindings {
    /// An empty table.
    pub fn new() -> (r: Bindings)
        ensures
            r@ == Map::<Seq<char>, ValueV>::empty(),
    {
        let r = Bindings { entries: Vec::new() };
        proof {
            assert(obj_view(r.entries@).len() == 0);
            assert(r@ =~= Map::<Seq<char>, ValueV>::empty());
        }
        r
    }

    /// Binds `name` to `v`, overriding any earlier binding.
    pub fn set(&mut self, name: String, v: Value)
        ensures
            final(self)@ == old(self)@.insert(name@, v@),
    {
        proof {
            let s = obj_view(self.entries@);
            assert(assoc_map(s) == self@);
        }
        self.entries.push((name, v));
        proof {
            let s2 = obj_view(self.entries@);
            assert(s2.drop_last() =~= obj_view(old(self).entries@));
            assert(assoc_map(s2) == assoc_map(s2.drop_last()).insert(s2.last().0, s2.last().1));
        }
    }

    /// A deep copy of what `name` is bound to; null if unbound. The
    /// frame-read rule of the language.
    pub fn read(&self, name: &str) -> (r: Value)
        ensures
            r@ == if self@.contains_key(name@) {
                self@[name@]
            } else {
                ValueV::Null
            },
    {
        match self.find(name) {
            Some(i) => deep_clone(&self.entries[i].1),
            None => Value::Null,
        }
    }

    /// A deep copy of what `name` is bound to, if anything.
    pub fn lookup(&self, name: &str) -> (r: Option<Value>)
        ensures
            match r {
                Some(v) => self@.contains_key(name@) && v@ == self@[name@],
                None => !self@.contains_key(name@),
            },
    {
        match self.find(name) {
            Some(i) => Some(deep_clone(&self.entries[i].1)),
            None => None,
        }
    }

    /// Whether `name` is bound.
    pub fn has(&self, name: &str) -> (r: bool)
        ensures
            r == self@.contains_key(name@),
    {
        self.find(name).is_some()
    }

    /// The position of the latest binding of `name`.
    #[verifier::loop_isolation(false)]
    fn find(&self, name: &str) -> (r: Option<usize>)
        ensures
            match r {
                Some(i) => {
                    &&& i < self.entries@.len()
                    &&& self.entries@[i as int].0@ == name@
                    &&& self@.contains_key(name@)
                    &&& self@[name@] == self.entries@[i as int].1@
                },
                None => !self@.contains_key(name@),
            },
    {
        let ghost s = obj_view(self.entries@);
        let mut i: usize = self.entries.len();
        while i > 0
            invariant
                i <= self.entries@.len(),
                forall|l: int| i <= l < self.entries@.len() ==> self.entries@[l].0@ != name@,
            decreases i,
        {
            i = i - 1;
            if str_eq(self.entries[i].0.as_str(), name) {
                proof {
                    assert(s[i as int].0 == name@ && forall|l: int|
                        i < l < s.len() ==> s[l].0 != name@);
                    lemma_assoc_lookup(s, name@, i as int);
                }
                return Some(i);
            }
        }
        proof {
            lemma_assoc_contains(s, name@);
        }
        None
    }
}

} // verus!
