//! The generic serializer: renders a prototype into the structured document
//! tree.
//!
//! The rendered mapping has up to three keys: `name` (text), `templates`
//! (a list of text nodes, omitted entirely when the template list is
//! empty), and `components` (a list of self-describing component nodes).
//! Each component node carries its own type identifier next to its field
//! data, so no external schema is needed to parse it back.

use vstd::prelude::*;

use crate::component::{fields_view, Component, ComponentList, ComponentView, FieldValue, FieldValueView};
use crate::document::{
    entries_view, lemma_entries_view, lemma_nodes_view, node_view, nodes_view, Node, NodeView,
};
use crate::error::{ErrorView, ProtoError};
use crate::prototype::{Prototype, PrototypeView};
use crate::registry::{
    registry_has, registry_schema, FieldKind, Registry, SchemaView, TypeSchema,
};
use crate::strutil::str_eq;
use crate::template::TemplateList;

verus! {

/// The scalar kind a field value is.
pub open spec fn field_kind_of(v: FieldValueView) -> FieldKind {
    match v {
        FieldValueView::Unsigned(_) => FieldKind::Unsigned,
        FieldValueView::Signed(_) => FieldKind::Signed,
        FieldValueView::Truth(_) => FieldKind::Truth,
        FieldValueView::Text(_) => FieldKind::Text,
    }
}

/// The document node a field value is rendered into.
pub open spec fn field_node(v: FieldValueView) -> NodeView {
    match v {
        FieldValueView::Unsigned(x) => NodeView::Unsigned(x),
        FieldValueView::Signed(x) => NodeView::Signed(x),
        FieldValueView::Truth(b) => NodeView::Truth(b),
        FieldValueView::Text(s) => NodeView::Text(s),
    }
}

/// Whether `fields` match the registered shape `schema`: same field names
/// in the same order, each holding a value of the registered kind.
pub open spec fn fields_conform(
    fields: Seq<(Seq<char>, FieldValueView)>,
    schema: Seq<(Seq<char>, FieldKind)>,
) -> bool {
    &&& fields.len() == schema.len()
    &&& forall|i: int|
        0 <= i < fields.len() ==> (#[trigger] fields[i]).0 == schema[i].0 && field_kind_of(
            fields[i].1,
        ) == schema[i].1
}

/// What rendering one component yields: its self-describing node, or the
/// failure. A type identifier the registry does not know fails with
/// `UnknownComponentType`; fields that do not match the registered shape
/// fail with `MalformedFieldData`.
pub open spec fn spec_serialize_component(c: ComponentView, rs: Seq<SchemaView>) -> Result<
    NodeView,
    ErrorView,
> {
    if !registry_has(rs, c.type_id) {
        Err(ErrorView::UnknownComponentType(c.type_id))
    } else if !fields_conform(c.fields, registry_schema(rs, c.type_id).fields) {
        Err(ErrorView::MalformedFieldData(c.type_id))
    } else {
        Ok(
            NodeView::Mapping(
                seq![
                    ("type"@, NodeView::Text(c.type_id)),
                    (
                        "data"@,
                        NodeView::Mapping(
                            c.fields.map_values(
                                |f: (Seq<char>, FieldValueView)| (f.0, field_node(f.1)),
                            ),
                        ),
                    ),
                ],
            ),
        )
    }
}

/// Folds the renderings of `cs` onto `acc`, left to right; the first
/// failure wins.
pub open spec fn spec_serialize_components(
    cs: Seq<ComponentView>,
    acc: Seq<NodeView>,
    rs: Seq<SchemaView>,
) -> Result<Seq<NodeView>, ErrorView>
    decreases cs.len(),
{
    if cs.len() == 0 {
        Ok(acc)
    } else {
        match spec_serialize_component(cs[0], rs) {
            Ok(n) => spec_serialize_components(cs.drop_first(), acc.push(n), rs),
            Err(e) => Err(e),
        }
    }
}

/// The list of text nodes a template list is rendered into.
pub open spec fn template_nodes(ts: Seq<Seq<char>>) -> Seq<NodeView> {
    ts.map_values(|t: Seq<char>| NodeView::Text(t))
}

/// What rendering a whole prototype yields: a mapping with the `name`
/// entry, the `templates` entry if and only if the template list is not
/// empty, and the `components` entry, in that order.
pub open spec fn spec_serialize(p: PrototypeView, rs: Seq<SchemaView>) -> Result<
    NodeView,
    ErrorView,
> {
    match spec_serialize_components(p.components, Seq::empty(), rs) {
        Ok(ns) => {
            let head = seq![("name"@, NodeView::Text(p.name))];
            let mid = if p.templates.len() == 0 {
                Seq::<(Seq<char>, NodeView)>::empty()
            } else {
                seq![("templates"@, NodeView::List(template_nodes(p.templates)))]
            };
            let tail = seq![("components"@, NodeView::List(ns))];
            Ok(NodeView::Mapping(head + mid + tail))
        },
        Err(e) => Err(e),
    }
}

/// The scalar kind of a field value.
fn kind_of(v: &FieldValue) -> (k: FieldKind)
    ensures
        k == field_kind_of(v@),
{
    match v {
        FieldValue::Unsigned(_) => FieldKind::Unsigned,
        FieldValue::Signed(_) => FieldKind::Signed,
        FieldValue::Truth(_) => FieldKind::Truth,
        FieldValue::Text(_) => FieldKind::Text,
    }
}

/// The document node one field value is rendered into.
fn scalar_node(v: &FieldValue) -> (n: Node)
    ensures
        n@ == field_node(v@),
{
    match v {
        FieldValue::Unsigned(x) => Node::Unsigned(*x),
        FieldValue::Signed(x) => Node::Signed(*x),
        FieldValue::Truth(b) => Node::Truth(*b),
        FieldValue::Text(s) => Node::Text(s.clone()),
    }
}

/// Whether `fields` match the registered shape `schema`.
fn check_conform(fields: &Vec<(String, FieldValue)>, schema: &TypeSchema) -> (r: bool)
    ensures
        r == fields_conform(fields_view(fields@), schema@.fields),
{
    let n = fields.len();
    if n != schema.fields.len() {
        return false;
    }
    let mut i: usize = 0;
    while i < n
        invariant
            0 <= i <= n,
            n == fields@.len(),
            n == schema@.fields.len(),
            forall|j: int|
                0 <= j < i ==> (#[trigger] fields_view(fields@)[j]).0 == schema@.fields[j].0
                    && field_kind_of(fields_view(fields@)[j].1) == schema@.fields[j].1,
        decreases n - i,
    {
        let f = &fields[i];
        let s = &schema.fields[i];
        if !str_eq(f.0.as_str(), s.0.as_str()) {
            proof {
                assert(fields_view(fields@)[i as int].0 == fields@[i as int].0@);
                assert(schema@.fields[i as int].0 == schema.fields@[i as int].0@);
            }
            return false;
        }
        if kind_of(&f.1) != s.1 {
            proof {
                assert(fields_view(fields@)[i as int].1 == fields@[i as int].1@);
                assert(schema@.fields[i as int].1 == schema.fields@[i as int].1);
            }
            return false;
        }
        proof {
            assert(fields_view(fields@)[i as int] == (fields@[i as int].0@, fields@[i as int].1@));
            assert(schema@.fields[i as int] == (
                schema.fields@[i as int].0@,
                schema.fields@[i as int].1,
            ));
        }
        i += 1;
    }
    true
}

/// Renders one component into its self-describing node.
fn serialize_component(c: &Component, registry: &Registry) -> (r: Result<Node, ProtoError>)
    ensures
        match r {
            Ok(n) => spec_serialize_component(c@, registry@) == Ok::<NodeView, ErrorView>(n@),
            Err(e) => spec_serialize_component(c@, registry@) == Err::<NodeView, ErrorView>(e@),
        },
{
    match registry.get(c.type_id.as_str()) {
        None => Err(ProtoError::UnknownComponentType(c.type_id.clone())),
        Some(schema) => {
            if !check_conform(&c.fields, schema) {
                return Err(ProtoError::MalformedFieldData(c.type_id.clone()));
            }
            let mut data: Vec<(String, Node)> = Vec::new();
            let n = c.fields.len();
            let mut i: usize = 0;
            while i < n
                invariant
                    0 <= i <= n,
                    n == c.fields@.len(),
                    data@.len() == i,
                    forall|j: int|
                        0 <= j < i ==> (#[trigger] data@[j]).0@ == c@.fields[j].0 && node_view(
                            data@[j].1,
                        ) == field_node(c@.fields[j].1),
                decreases n - i,
            {
                let f = &c.fields[i];
                data.push((f.0.clone(), scalar_node(&f.1)));
                proof {
                    assert(c@.fields[i as int] == (
                        c.fields@[i as int].0@,
                        c.fields@[i as int].1@,
                    ));
                }
                i += 1;
            }
            let node = Node::Mapping(
                vec![
                    (String::from_str("type"), Node::Text(c.type_id.clone())),
                    (String::from_str("data"), Node::Mapping(data)),
                ],
            );
            proof {
                let dv = (node_view(node))->Mapping_0;
                let entries = match node {
                    Node::Mapping(ref e) => e@,
                    _ => arbitrary(),
                };
                lemma_entries_view(entries);
                let inner = match entries[1].1 {
                    Node::Mapping(ref e) => e@,
                    _ => arbitrary(),
                };
                lemma_entries_view(inner);
                assert(entries_view(inner) =~= c@.fields.map_values(
                    |f: (Seq<char>, FieldValueView)| (f.0, field_node(f.1)),
                ));
                assert(dv =~= seq![
                    ("type"@, NodeView::Text(c@.type_id)),
                    (
                        "data"@,
                        NodeView::Mapping(
                            c@.fields.map_values(
                                |f: (Seq<char>, FieldValueView)| (f.0, field_node(f.1)),
                            ),
                        ),
                    ),
                ]);
            }
            Ok(node)
        },
    }
}

/// A serializer for one prototype against one registry.
pub struct PrototypeSerializer<'a> {
    pub prototype: &'a Prototype,
    pub registry: &'a Registry,
}

impl<'a> PrototypeSerializer<'a> {
    pub fn new(prototype: &'a Prototype, registry: &'a Registry) -> (r: Self)
        ensures
            r.prototype == prototype,
            r.registry == registry,
    {
        Self { prototype, registry }
    }

    /// Renders the prototype into its document mapping; the component order
    /// of the prototype is preserved exactly, and the `templates` key is
    /// present if and only if the template list is not empty.
    pub fn serialize(&self) -> (r: Result<Node, ProtoError>)
        ensures
            match r {
                Ok(n) => spec_serialize(self.prototype@, self.registry@) == Ok::<
                    NodeView,
                    ErrorView,
                >(n@),
                Err(e) => spec_serialize(self.prototype@, self.registry@) == Err::<
                    NodeView,
                    ErrorView,
                >(e@),
            },
    {
        let comp_serializer = ComponentListSerializer::new(
            &self.prototype.components,
            self.registry,
        );
        let comp_node = match comp_serializer.serialize() {
            Ok(n) => n,
            Err(e) => {
                return Err(e);
            },
        };
        let mut entries: Vec<(String, Node)> = Vec::new();
        entries.push((String::from_str("name"), Node::Text(self.prototype.name.clone())));
        if !self.prototype.templates.is_empty() {
            let template_serializer = TemplateListSerializer::new(&self.prototype.templates);
            entries.push((String::from_str("templates"), template_serializer.serialize()));
        }
        entries.push((String::from_str("components"), comp_node));
        let node = Node::Mapping(entries);
        proof {
            let p = self.prototype@;
            let es = match node {
                Node::Mapping(ref e) => e@,
                _ => arbitrary(),
            };
            lemma_entries_view(es);
            let head = seq![("name"@, NodeView::Text(p.name))];
            let mid = if p.templates.len() == 0 {
                Seq::<(Seq<char>, NodeView)>::empty()
            } else {
                seq![("templates"@, NodeView::List(template_nodes(p.templates)))]
            };
            let tail = seq![("components"@, NodeView::List(comp_node@->List_0))];
            assert(entries_view(es) =~= head + mid + tail);
        }
        Ok(node)
    }
}

/// A serializer for a component list against one registry.
pub struct ComponentListSerializer<'a> {
    pub list: &'a ComponentList,
    pub registry: &'a Registry,
}

impl<'a> ComponentListSerializer<'a> {
    pub fn new(list: &'a ComponentList, registry: &'a Registry) -> (r: Self)
        ensures
            r.list == list,
            r.registry == registry,
    {
        Self { list, registry }
    }

    /// Renders the list into a list node of self-describing component
    /// nodes, in the list's own order.
    pub fn serialize(&self) -> (r: Result<Node, ProtoError>)
        ensures
            match r {
                Ok(n) => (n@ matches NodeView::List(ns) && spec_serialize_components(
                    self.list@,
                    Seq::empty(),
                    self.registry@,
                ) == Ok::<Seq<NodeView>, ErrorView>(ns)),
                Err(e) => spec_serialize_components(self.list@, Seq::empty(), self.registry@)
                    == Err::<Seq<NodeView>, ErrorView>(e@),
            },
    {
        let ghost cs = self.list@;
        let ghost rs = self.registry@;
        let mut nodes: Vec<Node> = Vec::new();
        let count = self.list.len();
        let mut i: usize = 0;
        proof {
            assert(cs.skip(0) =~= cs);
            assert(nodes_view(nodes@) =~= Seq::<NodeView>::empty());
        }
        while i < count
            invariant
                0 <= i <= count,
                count == cs.len(),
                cs == self.list@,
                rs == self.registry@,
                spec_serialize_components(cs, Seq::empty(), rs) == spec_serialize_components(
                    cs.skip(i as int),
                    nodes_view(nodes@),
                    rs,
                ),
            decreases count - i,
        {
            let ghost rest = cs.skip(i as int);
            proof {
                assert(rest[0] == cs[i as int]);
                assert(rest.drop_first() =~= cs.skip(i as int + 1));
            }
            let c = self.list.get(i);
            match serialize_component(c, self.registry) {
                Ok(n) => {
                    let ghost prev = nodes@;
                    nodes.push(n);
                    proof {
                        lemma_nodes_view(prev);
                        lemma_nodes_view(nodes@);
                        assert(nodes_view(nodes@) =~= nodes_view(prev).push(node_view(n)));
                    }
                },
                Err(e) => {
                    return Err(e);
                },
            }
            i += 1;
        }
        proof {
            assert(cs.skip(count as int) =~= Seq::<ComponentView>::empty());
        }
        Ok(Node::List(nodes))
    }
}

/// A serializer for a template list.
pub struct TemplateListSerializer<'a> {
    pub list: &'a TemplateList,
}

impl<'a> TemplateListSerializer<'a> {
    pub fn new(list: &'a TemplateList) -> (r: Self)
        ensures
            r.list == list,
    {
        Self { list }
    }

    /// Renders the names into a list of text nodes, in defined order.
    pub fn serialize(&self) -> (n: Node)
        ensures
            n@ == NodeView::List(template_nodes(self.list@)),
    {
        let mut nodes: Vec<Node> = Vec::new();
        let count = self.list.len();
        let mut i: usize = 0;
        while i < count
            invariant
                0 <= i <= count,
                count == self.list@.len(),
                nodes@.len() == i,
                forall|j: int| 0 <= j < i ==> node_view(nodes@[j]) == NodeView::Text(
                    self.list@[j],
                ),
            decreases count - i,
        {
            nodes.push(Node::Text(self.list.get(i).clone()));
            i += 1;
        }
        let node = Node::List(nodes);
        proof {
            let ns = match node {
                Node::List(ref v) => v@,
                _ => arbitrary(),
            };
            lemma_nodes_view(ns);
            assert(nodes_view(ns) =~= template_nodes(self.list@));
        }
        node
    }
}


/// Empty-template omission: the rendering of a prototype with no templates
/// has no `templates` key at all, only `name` and `components`.
pub proof fn lemma_empty_templates_omitted(p: PrototypeView, rs: Seq<SchemaView>, n: NodeView)
    requires
        p.templates.len() == 0,
        spec_serialize(p, rs) == Ok::<NodeView, ErrorView>(n),
    ensures
        (n matches NodeView::Mapping(entries) && entries.len() == 2 && entries[0].0 == "name"@
            && entries[1].0 == "components"@ && forall|i: int|
            0 <= i < entries.len() ==> (#[trigger] entries[i]).0 != "templates"@),
{
    reveal_strlit("name");
    reveal_strlit("templates");
    reveal_strlit("components");
    let head = seq![("name"@, NodeView::Text(p.name))];
    let mid = Seq::<(Seq<char>, NodeView)>::empty();
    let ns = spec_serialize_components(p.components, Seq::empty(), rs)->Ok_0;
    let tail = seq![("components"@, NodeView::List(ns))];
    let entries = head + mid + tail;
    assert(n == NodeView::Mapping(entries));
    assert(entries.len() == 2);
    assert(entries[0] == ("name"@, NodeView::Text(p.name)));
    assert(entries[1] == ("components"@, NodeView::List(ns)));
    assert("name"@.len() == 4 && "templates"@.len() == 9 && "components"@.len() == 10);
}

} // verus!
