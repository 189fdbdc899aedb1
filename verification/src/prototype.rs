//! Prototypes: named, composable descriptions of reusable component sets,
//! and the name-keyed lookup that resolution reads them from.

use vstd::prelude::*;

use crate::component::{unique_types, ComponentList, ComponentView};
use crate::strutil::str_eq;
use crate::template::TemplateList;

verus! {

/// A named, composable description of a reusable set of typed component
/// values. Identity is the name.
#[derive(Debug, PartialEq, Eq)]
pub struct Prototype {
    pub name: String,
    pub templates: TemplateList,
    pub components: ComponentList,
}

/// Abstract value of a [`Prototype`].
pub struct PrototypeView {
    pub name: Seq<char>,
    pub templates: Seq<Seq<char>>,
    pub components: Seq<ComponentView>,
}

impl View for Prototype {
    type V = PrototypeView;

    open spec fn view(&self) -> PrototypeView {
        PrototypeView { name: self.name@, templates: self.templates@, components: self.components@ }
    }
}

impl Clone for Prototype {
    fn clone(&self) -> (r: Self)
        ensures
            r@ == self@,
    {
        Prototype {
            name: self.name.clone(),
            templates: self.templates.clone(),
            components: self.components.clone(),
        }
    }
}

impl Prototype {
    /// A prototype is well formed when its component list keeps per-type
    /// uniqueness.
    pub open spec fn wf(&self) -> bool {
        unique_types(self@.components)
    }
}

/// Whether some prototype in `ps` is named `name`.
pub open spec fn lookup_has(ps: Seq<PrototypeView>, name: Seq<char>) -> bool {
    exists|i: int| 0 <= i < ps.len() && ps[i].name == name
}

/// The position of the first prototype in `ps` named `name`.
pub open spec fn lookup_index(ps: Seq<PrototypeView>, name: Seq<char>) -> int
    decreases ps.len(),
{
    if ps.len() == 0 {
        0
    } else if ps[0].name == name {
        0
    } else {
        1 + lookup_index(ps.drop_first(), name)
    }
}

/// The prototype that a lookup of `name` in `ps` yields.
pub open spec fn lookup_proto(ps: Seq<PrototypeView>, name: Seq<char>) -> PrototypeView {
    ps[lookup_index(ps, name)]
}

pub proof fn lemma_lookup_index_correct(ps: Seq<PrototypeView>, name: Seq<char>)
    requires
        lookup_has(ps, name),
    ensures
        0 <= lookup_index(ps, name) < ps.len(),
        ps[lookup_index(ps, name)].name == name,
        forall|i: int| 0 <= i < lookup_index(ps, name) ==> ps[i].name != name,
    decreases ps.len(),
{
    if ps.len() > 0 && ps[0].name != name {
        let ss = ps.drop_first();
        assert(lookup_has(ss, name)) by {
            let w = choose|i: int| 0 <= i < ps.len() && ps[i].name == name;
            assert(ss[w - 1].name == name);
        }
        lemma_lookup_index_correct(ss, name);
        let k = lookup_index(ss, name);
        assert(ps[1 + k] == ss[k]);
        assert forall|i: int| 0 <= i < 1 + k implies ps[i].name != name by {
            if i > 0 {
                assert(ps[i] == ss[i - 1]);
            }
        }
    }
}

/// The name-to-prototype lookup that resolution reads: an insertion-ordered
/// collection of prototypes with unique names.
#[derive(Debug, PartialEq, Eq)]
pub struct PrototypeLookup {
    protos: Vec<Prototype>,
}

impl View for PrototypeLookup {
    type V = Seq<PrototypeView>;

    closed spec fn view(&self) -> Seq<PrototypeView> {
        self.protos@.map_values(|p: Prototype| p@)
    }
}

impl PrototypeLookup {
    /// The lookup invariant: prototype names are unique.
    pub open spec fn wf(&self) -> bool {
        forall|i: int, j: int| 0 <= i < j < self@.len() ==> self@[i].name != self@[j].name
    }

    /// An empty lookup.
    pub fn new() -> (r: PrototypeLookup)
        ensures
            r@ == Seq::<PrototypeView>::empty(),
            r.wf(),
    {
        let r = PrototypeLookup { protos: Vec::new() };
        proof {
            assert(r@ =~= Seq::<PrototypeView>::empty());
        }
        r
    }

    /// How many prototypes the lookup holds.
    pub fn len(&self) -> (n: usize)
        ensures
            n == self@.len(),
    {
        self.protos.len()
    }

    /// The prototype at position `i`, in insertion order.
    pub fn at(&self, i: usize) -> (p: &Prototype)
        requires
            i < self@.len(),
        ensures
            p@ == self@[i as int],
    {
        &self.protos[i]
    }

    fn position_of(&self, name: &str) -> (r: Option<usize>)
        ensures
            match r {
                Some(i) => lookup_has(self@, name@) && i == lookup_index(self@, name@),
                None => !lookup_has(self@, name@),
            },
    {
        let n = self.protos.len();
        let mut i: usize = 0;
        while i < n
            invariant
                0 <= i <= n,
                n == self@.len(),
                forall|j: int| 0 <= j < i ==> self@[j].name != name@,
            decreases n - i,
        {
            if str_eq(self.protos[i].name.as_str(), name) {
                proof {
                    assert(self@[i as int].name == name@);
                    lemma_lookup_index_correct(self@, name@);
                }
                return Some(i);
            }
            i += 1;
        }
        None
    }

    /// The prototype named `name`, if the lookup holds one.
    pub fn get(&self, name: &str) -> (r: Option<&Prototype>)
        ensures
            match r {
                Some(p) => lookup_has(self@, name@) && p@ == lookup_proto(self@, name@),
                None => !lookup_has(self@, name@),
            },
    {
        match self.position_of(name) {
            Some(i) => {
                proof {
                    lemma_lookup_index_correct(self@, name@);
                }
                Some(&self.protos[i])
            },
            None => None,
        }
    }

    /// Stores `p`: an already-present prototype of the same name is replaced
    /// in place, otherwise `p` is appended.
    pub fn insert(&mut self, p: Prototype)
        ensures
            lookup_has(old(self)@, p@.name) ==> final(self)@ == old(self)@.update(
                lookup_index(old(self)@, p@.name),
                p@,
            ),
            !lookup_has(old(self)@, p@.name) ==> final(self)@ == old(self)@.push(p@),
            old(self).wf() ==> final(self).wf(),
    {
        let ghost prev = self@;
        let ghost pv = p@;
        match self.position_of(p.name.as_str()) {
            Some(i) => {
                proof {
                    lemma_lookup_index_correct(prev, pv.name);
                }
                self.protos.set(i, p);
                proof {
                    assert(self@ =~= prev.update(lookup_index(prev, pv.name), pv));
                    assert(pv.name == prev[i as int].name);
                    assert forall|x: int| 0 <= x < self@.len() implies self@[x].name
                        == prev[x].name by {}
                    if forall|a: int, b: int|
                        0 <= a < b < prev.len() ==> prev[a].name != prev[b].name {
                        assert forall|a: int, b: int|
                            0 <= a < b < self@.len() implies self@[a].name != self@[b].name by {
                            assert(prev[a].name != prev[b].name);
                        }
                    }
                }
            },
            None => {
                self.protos.push(p);
                proof {
                    assert(self@ =~= prev.push(pv));
                    if forall|a: int, b: int|
                        0 <= a < b < prev.len() ==> prev[a].name != prev[b].name {
                        assert forall|a: int, b: int|
                            0 <= a < b < self@.len() implies self@[a].name != self@[b].name by {
                            if b == prev.len() {
                                assert(!lookup_has(prev, pv.name));
                            }
                        }
                    }
                }
            },
        }
    }
}

} // verus!
