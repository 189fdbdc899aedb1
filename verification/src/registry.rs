//! The type registry: the directory that maps a stable type identifier to
//! the shape of a component of that type.
//!
//! The registry is consumed read-only while prototypes are resolved,
//! serialized and deserialized; registration is a rare, startup-time event.

use vstd::prelude::*;

use crate::strutil::str_eq;

verus! {

/// The kind of scalar a component field holds.
#[derive(Debug, Clone, Copy, PartialEq, Eq, Structural)]
pub enum FieldKind {
    Unsigned,
    Signed,
    Truth,
    Text,
}

/// The registered shape of one component type: its stable identifier and
/// its named fields, in declaration order.
#[derive(Debug, PartialEq, Eq)]
pub struct TypeSchema {
    pub type_id: String,
    pub fields: Vec<(String, FieldKind)>,
}

/// Abstract value of a [`TypeSchema`].
pub struct SchemaView {
    pub type_id: Seq<char>,
    pub fields: Seq<(Seq<char>, FieldKind)>,
}

impl View for TypeSchema {
    type V = SchemaView;

    open spec fn view(&self) -> SchemaView {
        SchemaView {
            type_id: self.type_id@,
            fields: self.fields@.map_values(|f: (String, FieldKind)| (f.0@, f.1)),
        }
    }
}

impl Clone for TypeSchema {
    fn clone(&self) -> (r: Self)
        ensures
            r@ == self@,
    {
        let mut fields: Vec<(String, FieldKind)> = Vec::new();
        let n = self.fields.len();
        let mut i: usize = 0;
        while i < n
            invariant
                0 <= i <= n,
                n == self.fields@.len(),
                fields@.len() == i,
                forall|j: int|
                    0 <= j < i ==> (fields@[j].0@, fields@[j].1) == (
                    self.fields@[j].0@,
                    self.fields@[j].1,
                    ),
            decreases n - i,
        {
            let f = &self.fields[i];
            fields.push((f.0.clone(), f.1));
            i += 1;
        }
        let r = TypeSchema { type_id: self.type_id.clone(), fields };
        proof {
            assert(r@.fields =~= self@.fields);
        }
        r
    }
}

/// Whether the field names of `s` are pairwise distinct.
pub open spec fn schema_fields_unique(s: SchemaView) -> bool {
    forall|i: int, j: int| 0 <= i < j < s.fields.len() ==> s.fields[i].0 != s.fields[j].0
}

/// Whether some schema in `rs` registers the type identifier `id`.
pub open spec fn registry_has(rs: Seq<SchemaView>, id: Seq<char>) -> bool {
    exists|i: int| 0 <= i < rs.len() && rs[i].type_id == id
}

/// The position of the first schema in `rs` registered under `id`.
pub open spec fn registry_index(rs: Seq<SchemaView>, id: Seq<char>) -> int
    decreases rs.len(),
{
    if rs.len() == 0 {
        0
    } else if rs[0].type_id == id {
        0
    } else {
        1 + registry_index(rs.drop_first(), id)
    }
}

/// The schema that a lookup of `id` in `rs` yields.
pub open spec fn registry_schema(rs: Seq<SchemaView>, id: Seq<char>) -> SchemaView {
    rs[registry_index(rs, id)]
}

/// Well-formedness of a registry: type identifiers are unique and every
/// schema has pairwise distinct field names.
pub open spec fn registry_wf(rs: Seq<SchemaView>) -> bool {
    &&& forall|i: int, j: int| 0 <= i < j < rs.len() ==> rs[i].type_id != rs[j].type_id
    &&& forall|i: int| 0 <= i < rs.len() ==> schema_fields_unique(#[trigger] rs[i])
}

pub proof fn lemma_registry_index_correct(rs: Seq<SchemaView>, id: Seq<char>)
    requires
        registry_has(rs, id),
    ensures
        0 <= registry_index(rs, id) < rs.len(),
        rs[registry_index(rs, id)].type_id == id,
        forall|i: int| 0 <= i < registry_index(rs, id) ==> rs[i].type_id != id,
    decreases rs.len(),
{
    if rs.len() > 0 && rs[0].type_id != id {
        let ss = rs.drop_first();
        assert(registry_has(ss, id)) by {
            let w = choose|i: int| 0 <= i < rs.len() && rs[i].type_id == id;
            assert(ss[w - 1].type_id == id);
        }
        lemma_registry_index_correct(ss, id);
        let k = registry_index(ss, id);
        assert(rs[1 + k] == ss[k]);
        assert forall|i: int| 0 <= i < 1 + k implies rs[i].type_id != id by {
            if i > 0 {
                assert(rs[i] == ss[i - 1]);
            }
        }
    }
}

/// The directory of known component types.
#[derive(Debug, PartialEq, Eq)]
pub struct Registry {
    schemas: Vec<TypeSchema>,
}

impl View for Registry {
    type V = Seq<SchemaView>;

    closed spec fn view(&self) -> Seq<SchemaView> {
        self.schemas@.map_values(|s: TypeSchema| s@)
    }
}

/// Whether the names in `fields` are pairwise distinct.
fn fields_unique(fields: &Vec<(String, FieldKind)>) -> (r: bool)
    ensures
        r == (forall|i: int, j: int|
            0 <= i < j < fields@.len() ==> fields@[i].0@ != fields@[j].0@),
{
    let n = fields.len();
    let mut i: usize = 0;
    while i < n
        invariant
            0 <= i <= n,
            n == fields@.len(),
            forall|a: int, b: int| 0 <= a < b < i ==> fields@[a].0@ != fields@[b].0@,
        decreases n - i,
    {
        let mut j: usize = 0;
        while j < i
            invariant
                0 <= j <= i < n,
                n == fields@.len(),
                forall|b: int| 0 <= b < j ==> fields@[b].0@ != fields@[i as int].0@,
            decreases i - j,
        {
            if str_eq(fields[j].0.as_str(), fields[i].0.as_str()) {
                return false;
            }
            j += 1;
        }
        i += 1;
    }
    true
}

impl Registry {
    /// The registry invariant.
    pub open spec fn wf(&self) -> bool {
        registry_wf(self@)
    }

    /// An empty registry.
    pub fn new() -> (r: Registry)
        ensures
            r@ == Seq::<SchemaView>::empty(),
            r.wf(),
    {
        let r = Registry { schemas: Vec::new() };
        proof {
            assert(r@ =~= Seq::<SchemaView>::empty());
        }
        r
    }

    /// How many component types are registered.
    pub fn len(&self) -> (n: usize)
        ensures
            n == self@.len(),
    {
        self.schemas.len()
    }

    fn position_of(&self, id: &str) -> (r: Option<usize>)
        ensures
            match r {
                Some(i) => registry_has(self@, id@) && i == registry_index(self@, id@),
                None => !registry_has(self@, id@),
            },
    {
        let n = self.schemas.len();
        let mut i: usize = 0;
        while i < n
            invariant
                0 <= i <= n,
                n == self@.len(),
                forall|j: int| 0 <= j < i ==> self@[j].type_id != id@,
            decreases n - i,
        {
            if str_eq(self.schemas[i].type_id.as_str(), id) {
                proof {
                    assert(self@[i as int].type_id == id@);
                    lemma_registry_index_correct(self@, id@);
                }
                return Some(i);
            }
            i += 1;
        }
        None
    }

    /// Whether `id` names a registered component type.
    pub fn contains(&self, id: &str) -> (r: bool)
        ensures
            r == registry_has(self@, id@),
    {
        self.position_of(id).is_some()
    }

    /// The schema registered under `id`, if any.
    pub fn get(&self, id: &str) -> (r: Option<&TypeSchema>)
        ensures
            match r {
                Some(s) => registry_has(self@, id@) && s@ == registry_schema(self@, id@),
                None => !registry_has(self@, id@),
            },
    {
        match self.position_of(id) {
            Some(i) => {
                proof {
                    lemma_registry_index_correct(self@, id@);
                }
                Some(&self.schemas[i])
            },
            None => None,
        }
    }

    /// Registers `schema` and reports whether it was added. A schema whose
    /// identifier is already taken, or whose field names collide, is
    /// rejected and the registry is left unchanged.
    pub fn register(&mut self, schema: TypeSchema) -> (added: bool)
        ensures
            added ==> !registry_has(old(self)@, schema@.type_id) && schema_fields_unique(schema@)
                && final(self)@ == old(self)@.push(schema@),
            !added ==> final(self)@ == old(self)@ && (registry_has(old(self)@, schema@.type_id)
                || !schema_fields_unique(schema@)),
            old(self).wf() ==> final(self).wf(),
    {
        if !fields_unique(&schema.fields) {
            proof {
                let s = schema@;
                let w = choose|i: int, j: int|
                    0 <= i < j < schema.fields@.len() && schema.fields@[i].0@
                        == schema.fields@[j].0@;
                assert(s.fields[w.0].0 == s.fields[w.1].0);
            }
            return false;
        }
        if self.position_of(schema.type_id.as_str()).is_some() {
            return false;
        }
        let ghost prev = self@;
        let ghost sv = schema@;
        proof {
            assert forall|i: int, j: int| 0 <= i < j < sv.fields.len() implies sv.fields[i].0
                != sv.fields[j].0 by {
                assert(schema.fields@[i].0@ != schema.fields@[j].0@);
            }
        }
        self.schemas.push(schema);
        proof {
            assert(self@ =~= prev.push(sv));
            if registry_wf(prev) {
                assert forall|i: int, j: int| 0 <= i < j < self@.len() implies self@[i].type_id
                    != self@[j].type_id by {
                    if j == prev.len() {
                        assert(!registry_has(prev, sv.type_id));
                    }
                }
            }
        }
        true
    }
}

} // verus!
