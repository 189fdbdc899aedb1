//! Typed component values and the ordered, type-keyed component list.
//!
//! A component is one unit of typed data that can later be applied to an
//! entity of the host simulation. The list that holds them preserves
//! insertion order and enforces at most one component per type identifier.
//!
//! A component's payload is a flat record of named scalar fields; nested
//! payloads are outside this model. A host with richer values flattens
//! them to scalars (for instance, to their authored text) when it
//! registers the component type.

use vstd::prelude::*;

use crate::error::ProtoError;
use crate::strutil::str_eq;

verus! {

/// One field of a component: a plain scalar value.
#[derive(Debug, PartialEq, Eq)]
pub enum FieldValue {
    Unsigned(u64),
    Signed(i64),
    Truth(bool),
    Text(String),
}

/// Abstract value of a [`FieldValue`].
pub enum FieldValueView {
    Unsigned(u64),
    Signed(i64),
    Truth(bool),
    Text(Seq<char>),
}

impl View for FieldValue {
    type V = FieldValueView;

    open spec fn view(&self) -> FieldValueView {
        match self {
            FieldValue::Unsigned(n) => FieldValueView::Unsigned(*n),
            FieldValue::Signed(n) => FieldValueView::Signed(*n),
            FieldValue::Truth(b) => FieldValueView::Truth(*b),
            FieldValue::Text(s) => FieldValueView::Text(s@),
        }
    }
}

impl Clone for FieldValue {
    fn clone(&self) -> (r: Self)
        ensures
            r == *self,
    {
        match self {
            FieldValue::Unsigned(n) => FieldValue::Unsigned(*n),
            FieldValue::Signed(n) => FieldValue::Signed(*n),
            FieldValue::Truth(b) => FieldValue::Truth(*b),
            FieldValue::Text(s) => FieldValue::Text(s.clone()),
        }
    }
}

/// One typed component value: a type identifier from the registry's
/// vocabulary, and the named fields that make up the value.
#[derive(Debug, PartialEq, Eq)]
pub struct Component {
    pub type_id: String,
    pub fields: Vec<(String, FieldValue)>,
}

/// Abstract value of a [`Component`].
pub struct ComponentView {
    pub type_id: Seq<char>,
    pub fields: Seq<(Seq<char>, FieldValueView)>,
}

/// Abstract value of a sequence of named fields.
pub open spec fn fields_view(fields: Seq<(String, FieldValue)>) -> Seq<(Seq<char>, FieldValueView)> {
    fields.map_values(|f: (String, FieldValue)| (f.0@, f.1@))
}

impl View for Component {
    type V = ComponentView;

    open spec fn view(&self) -> ComponentView {
        ComponentView { type_id: self.type_id@, fields: fields_view(self.fields@) }
    }
}

impl Clone for Component {
    fn clone(&self) -> (r: Self)
        ensures
            r@ == self@,
    {
        let mut fields: Vec<(String, FieldValue)> = Vec::new();
        let n = self.fields.len();
        let mut i: usize = 0;
        while i < n
            invariant
                0 <= i <= n,
                n == self.fields@.len(),
                fields@.len() == i,
                forall|j: int|
                    0 <= j < i ==> (fields@[j].0@, fields@[j].1) == (
                    self.fields@[j].0@,
                    self.fields@[j].1,
                    ),
            decreases n - i,
        {
            let f = &self.fields[i];
            fields.push((f.0.clone(), f.1.clone()));
            i += 1;
        }
        let r = Component { type_id: self.type_id.clone(), fields };
        proof {
            assert(r@.fields =~= self@.fields);
        }
        r
    }
}

/// Whether some component in `s` carries the type identifier `id`.
pub open spec fn has_type(s: Seq<ComponentView>, id: Seq<char>) -> bool {
    exists|i: int| 0 <= i < s.len() && s[i].type_id == id
}

/// The position of the first component in `s` whose type identifier is `id`.
pub open spec fn index_of_type(s: Seq<ComponentView>, id: Seq<char>) -> int
    decreases s.len(),
{
    if s.len() == 0 {
        0
    } else if s[0].type_id == id {
        0
    } else {
        1 + index_of_type(s.drop_first(), id)
    }
}

/// Per-type uniqueness: no two components of `s` share a type identifier.
pub open spec fn unique_types(s: Seq<ComponentView>) -> bool {
    forall|i: int, j: int|
        0 <= i < j < s.len() ==> s[i].type_id != s[j].type_id
}

/// Override-merge of a single component into `s`: a component of the same
/// type is replaced in place, otherwise the new component is appended.
pub open spec fn merge_one(s: Seq<ComponentView>, c: ComponentView) -> Seq<ComponentView> {
    if has_type(s, c.type_id) {
        s.update(index_of_type(s, c.type_id), c)
    } else {
        s.push(c)
    }
}

/// Override-merge of `other` into `s`, component by component, in order.
pub open spec fn merge_override(s: Seq<ComponentView>, other: Seq<ComponentView>) -> Seq<
    ComponentView,
>
    decreases other.len(),
{
    if other.len() == 0 {
        s
    } else {
        merge_override(merge_one(s, other[0]), other.drop_first())
    }
}

/// The component that a lookup of `id` in `s` yields.
pub open spec fn value_of(s: Seq<ComponentView>, id: Seq<char>) -> ComponentView {
    s[index_of_type(s, id)]
}

pub proof fn lemma_index_of_type_correct(s: Seq<ComponentView>, id: Seq<char>)
    requires
        has_type(s, id),
    ensures
        0 <= index_of_type(s, id) < s.len(),
        s[index_of_type(s, id)].type_id == id,
        forall|i: int| 0 <= i < index_of_type(s, id) ==> s[i].type_id != id,
    decreases s.len(),
{
    if s.len() > 0 && s[0].type_id != id {
        let ss = s.drop_first();
        assert(has_type(ss, id)) by {
            let w = choose|i: int| 0 <= i < s.len() && s[i].type_id == id;
            assert(ss[w - 1].type_id == id);
        }
        lemma_index_of_type_correct(ss, id);
        let k = index_of_type(ss, id);
        assert(s[1 + k] == ss[k]);
        assert forall|i: int| 0 <= i < 1 + k implies s[i].type_id != id by {
            if i > 0 {
                assert(s[i] == ss[i - 1]);
            }
        }
    }
}

/// An ordered sequence of typed component values with at most one component
/// per type identifier.
#[derive(Debug, PartialEq, Eq)]
pub struct ComponentList {
    comps: Vec<Component>,
}

/// Abstract value of a sequence of components.
pub open spec fn comps_view(s: Seq<Component>) -> Seq<ComponentView> {
    s.map_values(|c: Component| c@)
}

impl View for ComponentList {
    type V = Seq<ComponentView>;

    closed spec fn view(&self) -> Seq<ComponentView> {
        comps_view(self.comps@)
    }
}

impl Clone for ComponentList {
    fn clone(&self) -> (r: Self)
        ensures
            r@ == self@,
    {
        let mut comps: Vec<Component> = Vec::new();
        let n = self.comps.len();
        let mut i: usize = 0;
        while i < n
            invariant
                0 <= i <= n,
                n == self.comps@.len(),
                comps@.len() == i,
                forall|j: int| 0 <= j < i ==> comps@[j]@ == self.comps@[j]@,
            decreases n - i,
        {
            comps.push(self.comps[i].clone());
            i += 1;
        }
        let r = ComponentList { comps };
        proof {
            assert(r@ =~= self@);
        }
        r
    }
}

impl ComponentList {
    /// The per-type uniqueness invariant, stated of the abstract value.
    pub open spec fn wf(&self) -> bool {
        unique_types(self@)
    }

    /// An empty component list.
    pub fn new() -> (r: ComponentList)
        ensures
            r@ == Seq::<ComponentView>::empty(),
            r.wf(),
    {
        let r = ComponentList { comps: Vec::new() };
        proof {
            assert(r@ =~= Seq::<ComponentView>::empty());
        }
        r
    }

    /// How many components the list holds.
    pub fn len(&self) -> (n: usize)
        ensures
            n == self@.len(),
    {
        self.comps.len()
    }

    /// The components in insertion order, as a restartable ordered
    /// sequence.
    pub fn iter(&self) -> (r: &Vec<Component>)
        ensures
            comps_view(r@) == self@,
    {
        &self.comps
    }

    /// The component at position `i`, in insertion order.
    pub fn get(&self, i: usize) -> (c: &Component)
        requires
            i < self@.len(),
        ensures
            c@ == self@[i as int],
    {
        &self.comps[i]
    }

    /// The position of the component of type `id`, if the list has one.
    fn position_of(&self, id: &str) -> (r: Option<usize>)
        ensures
            match r {
                Some(i) => has_type(self@, id@) && i == index_of_type(self@, id@),
                None => !has_type(self@, id@),
            },
    {
        let n = self.comps.len();
        let mut i: usize = 0;
        while i < n
            invariant
                0 <= i <= n,
                n == self@.len(),
                forall|j: int| 0 <= j < i ==> self@[j].type_id != id@,
            decreases n - i,
        {
            if str_eq(self.comps[i].type_id.as_str(), id) {
                proof {
                    assert(self@[i as int].type_id == id@);
                    lemma_index_of_type_correct(self@, id@);
                }
                return Some(i);
            }
            i += 1;
        }
        None
    }

    /// The component of type `id`, if the list has one.
    pub fn lookup(&self, id: &str) -> (r: Option<&Component>)
        ensures
            match r {
                Some(c) => has_type(self@, id@) && c@ == self@[index_of_type(self@, id@)],
                None => !has_type(self@, id@),
            },
    {
        match self.position_of(id) {
            Some(i) => {
                proof {
                    lemma_index_of_type_correct(self@, id@);
                }
                Some(&self.comps[i])
            },
            None => None,
        }
    }

    /// Appends `c`, unless a component of the same type identifier is
    /// already present; that is rejected, never silently overwritten.
    pub fn insert(&mut self, c: Component) -> (r: Result<(), ProtoError>)
        ensures
            match r {
                Ok(()) => !has_type(old(self)@, c@.type_id) && final(self)@ == old(self)@.push(c@),
                Err(e) => has_type(old(self)@, c@.type_id) && final(self)@ == old(self)@ && (
                e@ matches crate::error::ErrorView::DuplicateComponent(id) && id == c@.type_id),
            },
            old(self).wf() ==> final(self).wf(),
    {
        match self.position_of(c.type_id.as_str()) {
            Some(_) => Err(ProtoError::DuplicateComponent(c.type_id.clone())),
            None => {
                let ghost prev = self@;
                self.comps.push(c);
                proof {
                    assert(self@ =~= prev.push(c@));
                    if unique_types(prev) {
                        assert forall|i: int, j: int|
                            0 <= i < j < self@.len() implies self@[i].type_id
                            != self@[j].type_id by {
                            if j == prev.len() {
                                assert(!has_type(prev, c@.type_id));
                            }
                        }
                    }
                }
                Ok(())
            },
        }
    }

    /// Override-merge of `other` into this list: for each component of
    /// `other`, an already-present component of the same type identifier is
    /// replaced in place (position preserved), otherwise the component is
    /// appended.
    pub fn merge_override(&mut self, other: &ComponentList)
        ensures
            final(self)@ == merge_override(old(self)@, other@),
            old(self).wf() ==> final(self).wf(),
    {
        let ghost orig = self@;
        proof {
            assert(other@.skip(0) =~= other@);
        }
        let n = other.len();
        let mut k: usize = 0;
        while k < n
            invariant
                0 <= k <= n,
                n == other@.len(),
                merge_override(orig, other@) == merge_override(self@, other@.skip(k as int)),
                unique_types(orig) ==> unique_types(self@),
            decreases n - k,
        {
            let ghost before = self@;
            let c = other.get(k);
            match self.position_of(c.type_id.as_str()) {
                Some(i) => {
                    proof {
                        lemma_index_of_type_correct(before, c@.type_id);
                    }
                    self.comps.set(i, c.clone());
                },
                None => {
                    self.comps.push(c.clone());
                },
            }
            proof {
                assert(self@ =~= merge_one(before, other@[k as int]));
                assert(other@.skip(k as int).drop_first() =~= other@.skip(k as int + 1));
                assert(other@.skip(k as int)[0] == other@[k as int]);
                if unique_types(orig) {
                    lemma_merge_one_unique(before, other@[k as int]);
                }
            }
            k += 1;
        }
        proof {
            assert(other@.skip(n as int) =~= Seq::<ComponentView>::empty());
        }
    }
}

/// If `s[k]` carries `id` and nothing before it does, `k` is where a lookup
/// of `id` lands.
proof fn lemma_index_of_type_at(s: Seq<ComponentView>, id: Seq<char>, k: int)
    requires
        0 <= k < s.len(),
        s[k].type_id == id,
        forall|j: int| 0 <= j < k ==> s[j].type_id != id,
    ensures
        index_of_type(s, id) == k,
{
    assert(has_type(s, id));
    lemma_index_of_type_correct(s, id);
    let f = index_of_type(s, id);
    if f < k {
        assert(s[f].type_id != id);
    }
}

/// How a single override-merge step answers lookups: the merged component is
/// found under its own type identifier, every other type identifier is
/// answered as before.
proof fn lemma_merge_one_lookup(s: Seq<ComponentView>, c: ComponentView, id: Seq<char>)
    ensures
        has_type(merge_one(s, c), id) == (has_type(s, id) || c.type_id == id),
        c.type_id == id ==> value_of(merge_one(s, c), id) == c,
        c.type_id != id && has_type(s, id) ==> value_of(merge_one(s, c), id) == value_of(s, id),
{
    let t = merge_one(s, c);
    if c.type_id == id {
        if has_type(s, c.type_id) {
            lemma_index_of_type_correct(s, c.type_id);
            let k = index_of_type(s, c.type_id);
            assert(t == s.update(k, c));
            assert(t[k] == c);
            assert(has_type(t, id)) by {
                assert(t[k].type_id == id);
            }
            assert forall|j: int| 0 <= j < k implies t[j].type_id != id by {
                assert(t[j] == s[j]);
            }
            lemma_index_of_type_at(t, id, k);
        } else {
            assert(t == s.push(c));
            assert(t[s.len() as int] == c);
            assert(has_type(t, id)) by {
                assert(t[s.len() as int].type_id == id);
            }
            assert forall|j: int| 0 <= j < s.len() implies t[j].type_id != id by {
                assert(t[j] == s[j]);
            }
            lemma_index_of_type_at(t, id, s.len() as int);
        }
    } else {
        if has_type(s, id) {
            lemma_index_of_type_correct(s, id);
            let m = index_of_type(s, id);
            if has_type(s, c.type_id) {
                lemma_index_of_type_correct(s, c.type_id);
                let k = index_of_type(s, c.type_id);
                assert(k != m);
                assert(t[m] == s[m]);
                assert forall|j: int| 0 <= j < m implies t[j].type_id != id by {
                    if j == k {
                        assert(t[j] == c);
                    } else {
                        assert(t[j] == s[j]);
                    }
                }
            } else {
                assert(t[m] == s[m]);
                assert forall|j: int| 0 <= j < m implies t[j].type_id != id by {
                    assert(t[j] == s[j]);
                }
            }
            assert(has_type(t, id)) by {
                assert(t[m].type_id == id);
            }
            lemma_index_of_type_at(t, id, m);
        } else {
            if has_type(s, c.type_id) {
                lemma_index_of_type_correct(s, c.type_id);
                let k = index_of_type(s, c.type_id);
                assert forall|i: int| 0 <= i < t.len() implies t[i].type_id != id by {
                    if i == k {
                        assert(t[i] == c);
                    } else {
                        assert(t[i] == s[i]);
                        assert(s[i].type_id != id);
                    }
                }
            } else {
                assert forall|i: int| 0 <= i < t.len() implies t[i].type_id != id by {
                    if i < s.len() {
                        assert(t[i] == s[i]);
                        assert(s[i].type_id != id);
                    } else {
                        assert(t[i] == c);
                    }
                }
            }
            assert(!has_type(t, id));
        }
    }
}

/// An override-merge leaves lookups of a type identifier that `other` does
/// not carry exactly as they were.
pub proof fn lemma_merge_lookup_absent(s: Seq<ComponentView>, other: Seq<ComponentView>, id: Seq<char>)
    requires
        !has_type(other, id),
    ensures
        has_type(merge_override(s, other), id) == has_type(s, id),
        has_type(s, id) ==> value_of(merge_override(s, other), id) == value_of(s, id),
    decreases other.len(),
{
    if other.len() > 0 {
        assert(other[0].type_id != id);
        lemma_merge_one_lookup(s, other[0], id);
        assert(!has_type(other.drop_first(), id)) by {
            assert forall|i: int| 0 <= i < other.drop_first().len()
                implies other.drop_first()[i].type_id != id by {
                assert(other.drop_first()[i] == other[i + 1]);
            }
        }
        lemma_merge_lookup_absent(merge_one(s, other[0]), other.drop_first(), id);
    }
}

/// After an override-merge, a lookup of any type identifier that `other`
/// carries yields `other`'s component of that type.
pub proof fn lemma_merge_lookup_present(
    s: Seq<ComponentView>,
    other: Seq<ComponentView>,
    id: Seq<char>,
)
    requires
        unique_types(other),
        has_type(other, id),
    ensures
        has_type(merge_override(s, other), id),
        value_of(merge_override(s, other), id) == value_of(other, id),
    decreases other.len(),
{
    lemma_index_of_type_correct(other, id);
    let rest = other.drop_first();
    assert(unique_types(rest)) by {
        assert forall|i: int, j: int| 0 <= i < j < rest.len() implies rest[i].type_id
            != rest[j].type_id by {
            assert(rest[i] == other[i + 1] && rest[j] == other[j + 1]);
        }
    }
    lemma_merge_one_lookup(s, other[0], id);
    if other[0].type_id == id {
        assert(index_of_type(other, id) == 0);
        assert(!has_type(rest, id)) by {
            assert forall|i: int| 0 <= i < rest.len() implies rest[i].type_id != id by {
                assert(rest[i] == other[i + 1]);
            }
        }
        lemma_merge_lookup_absent(merge_one(s, other[0]), rest, id);
    } else {
        assert(has_type(rest, id)) by {
            let w = choose|i: int| 0 <= i < other.len() && other[i].type_id == id;
            assert(rest[w - 1].type_id == id);
        }
        lemma_index_of_type_correct(rest, id);
        assert(value_of(rest, id) == value_of(other, id)) by {
            lemma_index_of_type_at(other, id, index_of_type(rest, id) + 1);
        }
        lemma_merge_lookup_present(merge_one(s, other[0]), rest, id);
    }
}

/// Override-merging preserves per-type uniqueness of the receiving list.
pub proof fn lemma_merge_override_unique(s: Seq<ComponentView>, other: Seq<ComponentView>)
    requires
        unique_types(s),
    ensures
        unique_types(merge_override(s, other)),
    decreases other.len(),
{
    if other.len() > 0 {
        lemma_merge_one_unique(s, other[0]);
        lemma_merge_override_unique(merge_one(s, other[0]), other.drop_first());
    }
}

/// After a successful insert, a lookup of the inserted component's type
/// identifier yields exactly the inserted value.
pub proof fn lemma_insert_then_lookup(s: Seq<ComponentView>, c: ComponentView)
    requires
        !has_type(s, c.type_id),
    ensures
        has_type(s.push(c), c.type_id),
        value_of(s.push(c), c.type_id) == c,
{
    let t = s.push(c);
    assert(t[s.len() as int] == c);
    assert forall|j: int| 0 <= j < s.len() implies t[j].type_id != c.type_id by {
        assert(t[j] == s[j]);
    }
    lemma_index_of_type_at(t, c.type_id, s.len() as int);
}


/// Override-merging a component set whose types are all new appends it
/// whole, in order: nothing is replaced.
pub proof fn lemma_merge_disjoint_append(s: Seq<ComponentView>, other: Seq<ComponentView>)
    requires
        unique_types(other),
        forall|i: int| 0 <= i < other.len() ==> !has_type(s, (#[trigger] other[i]).type_id),
    ensures
        merge_override(s, other) == s + other,
    decreases other.len(),
{
    if other.len() == 0 {
        assert(s + other =~= s);
    } else {
        let c0 = other[0];
        assert(!has_type(s, c0.type_id));
        assert(merge_one(s, c0) == s.push(c0));
        let grown = s.push(c0);
        let rest = other.drop_first();
        assert(unique_types(rest)) by {
            assert forall|i: int, j: int| 0 <= i < j < rest.len() implies rest[i].type_id
                != rest[j].type_id by {
                assert(rest[i] == other[i + 1] && rest[j] == other[j + 1]);
            }
        }
        assert forall|i: int| 0 <= i < rest.len() implies !has_type(
            grown,
            (#[trigger] rest[i]).type_id,
        ) by {
            assert(rest[i] == other[i + 1]);
            assert(!has_type(s, other[i + 1].type_id));
            assert(other[0].type_id != other[i + 1].type_id);
            if has_type(grown, rest[i].type_id) {
                let w = choose|w: int|
                    0 <= w < grown.len() && grown[w].type_id == rest[i].type_id;
                if w < s.len() {
                    assert(s[w].type_id == rest[i].type_id);
                } else {
                    assert(grown[w] == c0);
                }
            }
        }
        lemma_merge_disjoint_append(grown, rest);
        assert(grown + rest =~= s + other);
    }
}

/// `merge_one` preserves per-type uniqueness.
proof fn lemma_merge_one_unique(s: Seq<ComponentView>, c: ComponentView)
    requires
        unique_types(s),
    ensures
        unique_types(merge_one(s, c)),
{
    if has_type(s, c.type_id) {
        lemma_index_of_type_correct(s, c.type_id);
        let t = s.update(index_of_type(s, c.type_id), c);
        assert forall|i: int, j: int| 0 <= i < j < t.len() implies t[i].type_id
            != t[j].type_id by {
            assert(s[i].type_id != s[j].type_id);
        }
    } else {
        let t = s.push(c);
        assert forall|i: int, j: int| 0 <= i < j < t.len() implies t[i].type_id
            != t[j].type_id by {
            if j < s.len() {
                assert(s[i].type_id != s[j].type_id);
            }
        }
    }
}

} // verus!
