//! The generic deserializer: parses the structured document tree back into
//! a prototype.
//!
//! The root mapping knows exactly three keys: `name` (required), `template`
//! or `templates` (optional; a list of text nodes, or one comma-delimited
//! string), and `components` (optional; a list of self-describing component
//! nodes). Any other key is rejected. Each component node announces its own
//! type identifier, which selects the registered shape that its field data
//! is read by, field for field in declaration order. A components array may
//! not declare the same type identifier twice.

use vstd::prelude::*;

use crate::component::{
    fields_view, has_type, Component, ComponentList, ComponentView, FieldValue, FieldValueView,
};
use crate::document::{entries_view, lemma_entries_view, lemma_nodes_view, node_view, nodes_view, Node, NodeView};
use crate::error::{ErrorView, ProtoError};
use crate::prototype::{Prototype, PrototypeView};
use crate::registry::{registry_has, registry_schema, FieldKind, Registry, SchemaView, TypeSchema};
use crate::strutil::str_eq;
use crate::template::{parse_template_names, TemplateList};

verus! {

/// The field value a scalar node is read as, when the node matches the
/// registered kind.
pub open spec fn node_value(n: NodeView, k: FieldKind) -> Option<FieldValueView> {
    match (n, k) {
        (NodeView::Unsigned(x), FieldKind::Unsigned) => Some(FieldValueView::Unsigned(x)),
        (NodeView::Signed(x), FieldKind::Signed) => Some(FieldValueView::Signed(x)),
        (NodeView::Truth(b), FieldKind::Truth) => Some(FieldValueView::Truth(b)),
        (NodeView::Text(s), FieldKind::Text) => Some(FieldValueView::Text(s)),
        _ => None,
    }
}

/// Reads field data against the registered shape `schema`, field for field
/// in declaration order, onto `acc`. Any disagreement in count, name or
/// kind is `MalformedFieldData` for the component type `id`.
pub open spec fn spec_parse_fields(
    data: Seq<(Seq<char>, NodeView)>,
    schema: Seq<(Seq<char>, FieldKind)>,
    acc: Seq<(Seq<char>, FieldValueView)>,
    id: Seq<char>,
) -> Result<Seq<(Seq<char>, FieldValueView)>, ErrorView>
    decreases data.len(),
{
    if data.len() != schema.len() {
        Err(ErrorView::MalformedFieldData(id))
    } else if data.len() == 0 {
        Ok(acc)
    } else if data[0].0 != schema[0].0 {
        Err(ErrorView::MalformedFieldData(id))
    } else {
        match node_value(data[0].1, schema[0].1) {
            Some(v) => spec_parse_fields(
                data.drop_first(),
                schema.drop_first(),
                acc.push((data[0].0, v)),
                id,
            ),
            None => Err(ErrorView::MalformedFieldData(id)),
        }
    }
}

/// Walks the entries of one component node, remembering the announced type
/// identifier and the field data; later entries overwrite earlier ones of
/// the same key, and any key other than `type` and `data` is rejected.
pub open spec fn spec_parse_component_entries(
    entries: Seq<(Seq<char>, NodeView)>,
    ty: Option<Seq<char>>,
    data: Option<Seq<(Seq<char>, NodeView)>>,
) -> Result<(Option<Seq<char>>, Option<Seq<(Seq<char>, NodeView)>>), ErrorView>
    decreases entries.len(),
{
    if entries.len() == 0 {
        Ok((ty, data))
    } else {
        let k = entries[0].0;
        let v = entries[0].1;
        if k == "type"@ {
            match v {
                NodeView::Text(s) => spec_parse_component_entries(
                    entries.drop_first(),
                    Some(s),
                    data,
                ),
                _ => Err(ErrorView::MalformedFieldData("type"@)),
            }
        } else if k == "data"@ {
            match v {
                NodeView::Mapping(d) => spec_parse_component_entries(
                    entries.drop_first(),
                    ty,
                    Some(d),
                ),
                _ => Err(ErrorView::MalformedFieldData("data"@)),
            }
        } else {
            Err(ErrorView::UnrecognizedField(k))
        }
    }
}

/// What parsing one self-describing component node yields. The node must
/// be a mapping of `type` and optional `data`; the announced identifier
/// must be registered, and the field data must match the registered shape.
pub open spec fn spec_parse_component(n: NodeView, rs: Seq<SchemaView>) -> Result<
    ComponentView,
    ErrorView,
> {
    match n {
        NodeView::Mapping(entries) => match spec_parse_component_entries(entries, None, None) {
            Ok((ty, data)) => match ty {
                None => Err(ErrorView::MissingField("type"@)),
                Some(id) => if !registry_has(rs, id) {
                    Err(ErrorView::UnknownComponentType(id))
                } else {
                    let d = match data {
                        Some(d) => d,
                        None => Seq::empty(),
                    };
                    match spec_parse_fields(
                        d,
                        registry_schema(rs, id).fields,
                        Seq::empty(),
                        id,
                    ) {
                        Ok(fs) => Ok(ComponentView { type_id: id, fields: fs }),
                        Err(e) => Err(e),
                    }
                },
            },
            Err(e) => Err(e),
        },
        _ => Err(ErrorView::MalformedFieldData("component"@)),
    }
}

/// Folds the parses of the component nodes `items` onto `acc` under the
/// plain insert contract: a type identifier already present is
/// `DuplicateComponent`, never overwritten.
pub open spec fn spec_parse_components(
    items: Seq<NodeView>,
    acc: Seq<ComponentView>,
    rs: Seq<SchemaView>,
) -> Result<Seq<ComponentView>, ErrorView>
    decreases items.len(),
{
    if items.len() == 0 {
        Ok(acc)
    } else {
        match spec_parse_component(items[0], rs) {
            Ok(c) => if has_type(acc, c.type_id) {
                Err(ErrorView::DuplicateComponent(c.type_id))
            } else {
                spec_parse_components(items.drop_first(), acc.push(c), rs)
            },
            Err(e) => Err(e),
        }
    }
}

/// What parsing a components entry yields: its node must be a list.
pub open spec fn spec_parse_components_node(n: NodeView, rs: Seq<SchemaView>) -> Result<
    Seq<ComponentView>,
    ErrorView,
> {
    match n {
        NodeView::List(items) => spec_parse_components(items, Seq::empty(), rs),
        _ => Err(ErrorView::MalformedFieldData("components"@)),
    }
}

/// Folds a list of template-name nodes onto `acc`; every item must be text.
pub open spec fn spec_parse_template_items(items: Seq<NodeView>, acc: Seq<Seq<char>>) -> Result<
    Seq<Seq<char>>,
    ErrorView,
>
    decreases items.len(),
{
    if items.len() == 0 {
        Ok(acc)
    } else {
        match items[0] {
            NodeView::Text(s) => spec_parse_template_items(items.drop_first(), acc.push(s)),
            _ => Err(ErrorView::MalformedFieldData("templates"@)),
        }
    }
}

/// What parsing a templates entry yields: a list of text nodes is taken as
/// is, one text node is split on commas with each segment trimmed, and any
/// other node is rejected.
pub open spec fn spec_parse_templates_node(n: NodeView) -> Result<Seq<Seq<char>>, ErrorView> {
    match n {
        NodeView::Text(s) => Ok(parse_template_names(s)),
        NodeView::List(items) => spec_parse_template_items(items, Seq::empty()),
        _ => Err(ErrorView::MalformedFieldData("templates"@)),
    }
}

/// What the walk over a prototype document's entries has gathered so far.
pub struct DeState {
    pub name: Option<Seq<char>>,
    pub templates: Option<Seq<Seq<char>>>,
    pub components: Option<Seq<ComponentView>>,
}

/// Walks the entries of a prototype document. Exactly the keys `name`,
/// `template`/`templates` and `components` are recognized; any other key
/// is `UnrecognizedField`. Later entries overwrite earlier ones of the
/// same key.
pub open spec fn spec_parse_proto_entries(
    entries: Seq<(Seq<char>, NodeView)>,
    st: DeState,
    rs: Seq<SchemaView>,
) -> Result<DeState, ErrorView>
    decreases entries.len(),
{
    if entries.len() == 0 {
        Ok(st)
    } else {
        let k = entries[0].0;
        let v = entries[0].1;
        if k == "name"@ {
            match v {
                NodeView::Text(s) => spec_parse_proto_entries(
                    entries.drop_first(),
                    DeState { name: Some(s), ..st },
                    rs,
                ),
                _ => Err(ErrorView::MalformedFieldData("name"@)),
            }
        } else if k == "template"@ || k == "templates"@ {
            match spec_parse_templates_node(v) {
                Ok(ts) => spec_parse_proto_entries(
                    entries.drop_first(),
                    DeState { templates: Some(ts), ..st },
                    rs,
                ),
                Err(e) => Err(e),
            }
        } else if k == "components"@ {
            match spec_parse_components_node(v, rs) {
                Ok(cs) => spec_parse_proto_entries(
                    entries.drop_first(),
                    DeState { components: Some(cs), ..st },
                    rs,
                ),
                Err(e) => Err(e),
            }
        } else {
            Err(ErrorView::UnrecognizedField(k))
        }
    }
}

/// What parsing a whole prototype document yields. The document must be a
/// mapping; `name` is required, and an absent `templates` or `components`
/// entry defaults to the empty list.
pub open spec fn spec_deserialize(n: NodeView, rs: Seq<SchemaView>) -> Result<
    PrototypeView,
    ErrorView,
> {
    match n {
        NodeView::Mapping(entries) => match spec_parse_proto_entries(
            entries,
            DeState { name: None, templates: None, components: None },
            rs,
        ) {
            Ok(st) => match st.name {
                None => Err(ErrorView::MissingField("name"@)),
                Some(nm) => Ok(
                    PrototypeView {
                        name: nm,
                        templates: match st.templates {
                            Some(ts) => ts,
                            None => Seq::empty(),
                        },
                        components: match st.components {
                            Some(cs) => cs,
                            None => Seq::empty(),
                        },
                    },
                ),
            },
            Err(e) => Err(e),
        },
        _ => Err(ErrorView::MalformedFieldData("prototype"@)),
    }
}

/// The field value one scalar node is read as, against the registered kind.
fn field_from_node(n: &Node, k: FieldKind) -> (r: Option<FieldValue>)
    ensures
        match r {
            Some(v) => node_value(n@, k) == Some(v@),
            None => node_value(n@, k) is None,
        },
{
    match (n, k) {
        (Node::Unsigned(x), FieldKind::Unsigned) => Some(FieldValue::Unsigned(*x)),
        (Node::Signed(x), FieldKind::Signed) => Some(FieldValue::Signed(*x)),
        (Node::Truth(b), FieldKind::Truth) => Some(FieldValue::Truth(*b)),
        (Node::Text(s), FieldKind::Text) => Some(FieldValue::Text(s.clone())),
        _ => None,
    }
}

/// Reads the field data of one component node against its registered shape.
#[verifier::loop_isolation(false)]
fn parse_fields(data: &Vec<(String, Node)>, schema: &TypeSchema, type_id: &str) -> (r: Result<
    Vec<(String, FieldValue)>,
    ProtoError,
>)
    ensures
        match r {
            Ok(fs) => spec_parse_fields(
                entries_view(data@),
                schema@.fields,
                Seq::empty(),
                type_id@,
            ) == Ok::<Seq<(Seq<char>, FieldValueView)>, ErrorView>(fields_view(fs@)),
            Err(e) => spec_parse_fields(
                entries_view(data@),
                schema@.fields,
                Seq::empty(),
                type_id@,
            ) == Err::<Seq<(Seq<char>, FieldValueView)>, ErrorView>(e@),
        },
{
    let ghost dv = entries_view(data@);
    let ghost sv = schema@.fields;
    proof {
        lemma_entries_view(data@);
    }
    let n = data.len();
    if n != schema.fields.len() {
        return Err(ProtoError::MalformedFieldData(type_id.to_owned()));
    }
    let mut out: Vec<(String, FieldValue)> = Vec::new();
    let mut i: usize = 0;
    proof {
        assert(dv.skip(0) =~= dv);
        assert(sv.skip(0) =~= sv);
        assert(fields_view(out@) =~= Seq::<(Seq<char>, FieldValueView)>::empty());
    }
    while i < n
        invariant
            0 <= i <= n,
            out@.len() == i,
            spec_parse_fields(dv, sv, Seq::empty(), type_id@) == spec_parse_fields(
                dv.skip(i as int),
                sv.skip(i as int),
                fields_view(out@),
                type_id@,
            ),
        decreases n - i,
    {
        proof {
            assert(dv.skip(i as int)[0] == dv[i as int]);
            assert(sv.skip(i as int)[0] == sv[i as int]);
            assert(dv.skip(i as int).drop_first() =~= dv.skip(i as int + 1));
            assert(sv.skip(i as int).drop_first() =~= sv.skip(i as int + 1));
            assert(dv[i as int] == (data@[i as int].0@, node_view(data@[i as int].1)));
            assert(sv[i as int] == (schema.fields@[i as int].0@, schema.fields@[i as int].1));
        }
        let entry = &data[i];
        let slot = &schema.fields[i];
        if !str_eq(entry.0.as_str(), slot.0.as_str()) {
            return Err(ProtoError::MalformedFieldData(type_id.to_owned()));
        }
        match field_from_node(&entry.1, slot.1) {
            Some(v) => {
                let ghost prev = fields_view(out@);
                out.push((entry.0.clone(), v));
                proof {
                    assert(fields_view(out@) =~= prev.push((dv[i as int].0, v@)));
                }
            },
            None => {
                return Err(ProtoError::MalformedFieldData(type_id.to_owned()));
            },
        }
        i += 1;
    }
    proof {
        assert(dv.skip(n as int) =~= Seq::<(Seq<char>, NodeView)>::empty());
        assert(sv.skip(n as int) =~= Seq::<(Seq<char>, FieldKind)>::empty());
    }
    Ok(out)
}

/// Parses one self-describing component node.
#[verifier::loop_isolation(false)]
fn parse_component(n: &Node, registry: &Registry) -> (r: Result<Component, ProtoError>)
    ensures
        match r {
            Ok(c) => spec_parse_component(n@, registry@) == Ok::<ComponentView, ErrorView>(c@),
            Err(e) => spec_parse_component(n@, registry@) == Err::<ComponentView, ErrorView>(e@),
        },
{
    let entries = match n {
        Node::Mapping(entries) => entries,
        _ => {
            return Err(ProtoError::MalformedFieldData(String::from_str("component")));
        },
    };
    let ghost ev = entries_view(entries@);
    proof {
        lemma_entries_view(entries@);
    }
    let mut ty: Option<String> = None;
    let mut data_at: Option<usize> = None;
    let ghost mut gty: Option<Seq<char>> = None;
    let ghost mut gdata: Option<Seq<(Seq<char>, NodeView)>> = None;
    let count = entries.len();
    let mut i: usize = 0;
    proof {
        assert(ev.skip(0) =~= ev);
    }
    while i < count
        invariant
            0 <= i <= count,
            count == entries@.len(),
            spec_parse_component_entries(ev, None, None) == spec_parse_component_entries(
                ev.skip(i as int),
                gty,
                gdata,
            ),
            match ty {
                Some(s) => gty == Some(s@),
                None => gty is None,
            },
            match data_at {
                Some(j) => j < i && (entries@[j as int].1 matches Node::Mapping(d) && gdata
                    == Some(entries_view(d@))),
                None => gdata is None,
            },
        decreases count - i,
    {
        proof {
            assert(ev.skip(i as int)[0] == ev[i as int]);
            assert(ev.skip(i as int).drop_first() =~= ev.skip(i as int + 1));
            assert(ev[i as int] == (entries@[i as int].0@, node_view(entries@[i as int].1)));
        }
        let entry = &entries[i];
        if str_eq(entry.0.as_str(), "type") {
            match &entry.1 {
                Node::Text(s) => {
                    ty = Some(s.clone());
                    proof {
                        gty = Some(s@);
                    }
                },
                _ => {
                    return Err(ProtoError::MalformedFieldData(String::from_str("type")));
                },
            }
        } else if str_eq(entry.0.as_str(), "data") {
            match &entry.1 {
                Node::Mapping(d) => {
                    data_at = Some(i);
                    proof {
                        gdata = Some(entries_view(d@));
                    }
                },
                _ => {
                    return Err(ProtoError::MalformedFieldData(String::from_str("data")));
                },
            }
        } else {
            return Err(ProtoError::UnrecognizedField(entry.0.clone()));
        }
        i += 1;
    }
    proof {
        assert(ev.skip(count as int) =~= Seq::<(Seq<char>, NodeView)>::empty());
    }
    let id = match ty {
        Some(id) => id,
        None => {
            return Err(ProtoError::MissingField(String::from_str("type")));
        },
    };
    let schema = match registry.get(id.as_str()) {
        Some(schema) => schema,
        None => {
            return Err(ProtoError::UnknownComponentType(id));
        },
    };
    let fields = match data_at {
        Some(j) => {
            let d = match &entries[j] {
                (_, Node::Mapping(d)) => d,
                _ => {
                    proof {
                        assert(false);
                    }
                    unreached()
                },
            };
            match parse_fields(d, schema, id.as_str()) {
                Ok(fs) => fs,
                Err(e) => {
                    return Err(e);
                },
            }
        },
        None => {
            proof {
                assert(Seq::<(Seq<char>, NodeView)>::empty().skip(0) =~= Seq::<
                    (Seq<char>, NodeView),
                >::empty());
            }
            if schema.fields.len() != 0 {
                return Err(ProtoError::MalformedFieldData(id));
            }
            Vec::new()
        },
    };
    let c = Component { type_id: id, fields };
    proof {
        assert(fields_view(Seq::<(String, FieldValue)>::empty()) =~= Seq::<
            (Seq<char>, FieldValueView),
        >::empty());
    }
    Ok(c)
}

/// A deserializer for component-list documents against one registry.
pub struct ComponentListDeserializer<'a> {
    pub registry: &'a Registry,
}

impl<'a> ComponentListDeserializer<'a> {
    pub fn new(registry: &'a Registry) -> (r: Self)
        ensures
            r.registry == registry,
    {
        Self { registry }
    }

    /// Parses a list of self-describing component nodes under the plain
    /// insert contract: declaring one type identifier twice is
    /// `DuplicateComponent`.
    pub fn deserialize(&self, node: &Node) -> (r: Result<ComponentList, ProtoError>)
        ensures
            match r {
                Ok(cl) => spec_parse_components_node(node@, self.registry@) == Ok::<
                    Seq<ComponentView>,
                    ErrorView,
                >(cl@) && cl.wf(),
                Err(e) => spec_parse_components_node(node@, self.registry@) == Err::<
                    Seq<ComponentView>,
                    ErrorView,
                >(e@),
            },
    {
        deserialize_component_items(node, self.registry)
    }
}

/// Parses a components list node by inserting each parsed component.
#[verifier::loop_isolation(false)]
fn deserialize_component_items(node: &Node, registry: &Registry) -> (r: Result<
    ComponentList,
    ProtoError,
>)
    ensures
        match r {
            Ok(cl) => spec_parse_components_node(node@, registry@) == Ok::<
                Seq<ComponentView>,
                ErrorView,
            >(cl@) && cl.wf(),
            Err(e) => spec_parse_components_node(node@, registry@) == Err::<
                Seq<ComponentView>,
                ErrorView,
            >(e@),
        },
{
    let items = match node {
        Node::List(items) => items,
        _ => {
            return Err(ProtoError::MalformedFieldData(String::from_str("components")));
        },
    };
    let ghost iv = nodes_view(items@);
    proof {
        lemma_nodes_view(items@);
    }
    let mut list = ComponentList::new();
    let count = items.len();
    let mut i: usize = 0;
    proof {
        assert(iv.skip(0) =~= iv);
    }
    while i < count
        invariant
            0 <= i <= count,
            count == items@.len(),
            list.wf(),
            spec_parse_components(iv, Seq::empty(), registry@) == spec_parse_components(
                iv.skip(i as int),
                list@,
                registry@,
            ),
        decreases count - i,
    {
        proof {
            assert(iv.skip(i as int)[0] == iv[i as int]);
            assert(iv.skip(i as int).drop_first() =~= iv.skip(i as int + 1));
            assert(iv[i as int] == node_view(items@[i as int]));
        }
        let c = match parse_component(&items[i], registry) {
            Ok(c) => c,
            Err(e) => {
                return Err(e);
            },
        };
        match list.insert(c) {
            Ok(()) => {},
            Err(e) => {
                return Err(e);
            },
        }
        i += 1;
    }
    proof {
        assert(iv.skip(count as int) =~= Seq::<NodeView>::empty());
    }
    Ok(list)
}

/// A deserializer for template-list documents.
pub struct TemplateListDeserializer;

impl TemplateListDeserializer {
    /// Parses a templates entry: a list of text nodes in order, or one
    /// comma-delimited string whose segments are trimmed.
    pub fn deserialize(&self, node: &Node) -> (r: Result<TemplateList, ProtoError>)
        ensures
            match r {
                Ok(tl) => spec_parse_templates_node(node@) == Ok::<Seq<Seq<char>>, ErrorView>(
                    tl@,
                ),
                Err(e) => spec_parse_templates_node(node@) == Err::<Seq<Seq<char>>, ErrorView>(
                    e@,
                ),
            },
    {
        deserialize_template_node(node)
    }
}

/// Parses a templates entry node.
#[verifier::loop_isolation(false)]
fn deserialize_template_node(node: &Node) -> (r: Result<TemplateList, ProtoError>)
    ensures
        match r {
            Ok(tl) => spec_parse_templates_node(node@) == Ok::<Seq<Seq<char>>, ErrorView>(tl@),
            Err(e) => spec_parse_templates_node(node@) == Err::<Seq<Seq<char>>, ErrorView>(e@),
        },
{
    match node {
        Node::Text(s) => Ok(TemplateList::from_comma_separated(s.as_str())),
        Node::List(items) => {
            let ghost iv = nodes_view(items@);
            proof {
                lemma_nodes_view(items@);
            }
            let mut names: Vec<String> = Vec::new();
            let count = items.len();
            let mut i: usize = 0;
            proof {
                assert(iv.skip(0) =~= iv);
                assert(names.deep_view() =~= Seq::<Seq<char>>::empty());
            }
            while i < count
                invariant
                    0 <= i <= count,
                    count == items@.len(),
                    spec_parse_template_items(iv, Seq::empty()) == spec_parse_template_items(
                        iv.skip(i as int),
                        names.deep_view(),
                    ),
                decreases count - i,
            {
                proof {
                    assert(iv.skip(i as int)[0] == iv[i as int]);
                    assert(iv.skip(i as int).drop_first() =~= iv.skip(i as int + 1));
                    assert(iv[i as int] == node_view(items@[i as int]));
                }
                match &items[i] {
                    Node::Text(s) => {
                        let ghost prev = names.deep_view();
                        names.push(s.clone());
                        proof {
                            assert(names.deep_view() =~= prev.push(s@));
                        }
                    },
                    _ => {
                        return Err(ProtoError::MalformedFieldData(String::from_str("templates")));
                    },
                }
                i += 1;
            }
            proof {
                assert(iv.skip(count as int) =~= Seq::<NodeView>::empty());
            }
            Ok(TemplateList::new(names))
        },
        _ => Err(ProtoError::MalformedFieldData(String::from_str("templates"))),
    }
}

/// A deserializer for prototype documents against one registry.
pub struct PrototypeDeserializer<'a> {
    pub registry: &'a Registry,
}

impl<'a> PrototypeDeserializer<'a> {
    pub fn new(registry: &'a Registry) -> (r: Self)
        ensures
            r.registry == registry,
    {
        Self { registry }
    }

    /// Parses a prototype document: a mapping whose recognized keys are
    /// `name` (required), `template`/`templates` and `components` (both
    /// optional, defaulting to empty); any other key is rejected.
    pub fn deserialize(&self, node: &Node) -> (r: Result<Prototype, ProtoError>)
        ensures
            match r {
                Ok(p) => spec_deserialize(node@, self.registry@) == Ok::<
                    PrototypeView,
                    ErrorView,
                >(p@) && p.wf(),
                Err(e) => spec_deserialize(node@, self.registry@) == Err::<
                    PrototypeView,
                    ErrorView,
                >(e@),
            },
    {
        deserialize_prototype(node, self.registry)
    }
}

/// Parses a prototype document node.
#[verifier::loop_isolation(false)]
fn deserialize_prototype(node: &Node, registry: &Registry) -> (r: Result<Prototype, ProtoError>)
    ensures
        match r {
            Ok(p) => spec_deserialize(node@, registry@) == Ok::<PrototypeView, ErrorView>(p@)
                && p.wf(),
            Err(e) => spec_deserialize(node@, registry@) == Err::<PrototypeView, ErrorView>(e@),
        },
{
    let entries = match node {
        Node::Mapping(entries) => entries,
        _ => {
            return Err(ProtoError::MalformedFieldData(String::from_str("prototype")));
        },
    };
    let ghost ev = entries_view(entries@);
    proof {
        lemma_entries_view(entries@);
    }
    let mut name: Option<String> = None;
    let mut templates: Option<TemplateList> = None;
    let mut components: Option<ComponentList> = None;
    let ghost st0 = DeState { name: None, templates: None, components: None };
    let ghost mut gst = st0;
    let count = entries.len();
    let mut i: usize = 0;
    proof {
        assert(ev.skip(0) =~= ev);
    }
    while i < count
        invariant
            0 <= i <= count,
            count == entries@.len(),
            spec_parse_proto_entries(ev, st0, registry@) == spec_parse_proto_entries(
                ev.skip(i as int),
                gst,
                registry@,
            ),
            match name {
                Some(s) => gst.name == Some(s@),
                None => gst.name is None,
            },
            match templates {
                Some(ref tl) => gst.templates == Some(tl@),
                None => gst.templates is None,
            },
            match components {
                Some(ref cl) => gst.components == Some(cl@) && cl.wf(),
                None => gst.components is None,
            },
        decreases count - i,
    {
        proof {
            assert(ev.skip(i as int)[0] == ev[i as int]);
            assert(ev.skip(i as int).drop_first() =~= ev.skip(i as int + 1));
            assert(ev[i as int] == (entries@[i as int].0@, node_view(entries@[i as int].1)));
        }
        let entry = &entries[i];
        if str_eq(entry.0.as_str(), "name") {
            match &entry.1 {
                Node::Text(s) => {
                    name = Some(s.clone());
                    proof {
                        gst = DeState { name: Some(s@), ..gst };
                    }
                },
                _ => {
                    return Err(ProtoError::MalformedFieldData(String::from_str("name")));
                },
            }
        } else if str_eq(entry.0.as_str(), "template") || str_eq(entry.0.as_str(), "templates") {
            match deserialize_template_node(&entry.1) {
                Ok(tl) => {
                    proof {
                        gst = DeState { templates: Some(tl@), ..gst };
                    }
                    templates = Some(tl);
                },
                Err(e) => {
                    return Err(e);
                },
            }
        } else if str_eq(entry.0.as_str(), "components") {
            match deserialize_component_items(&entry.1, registry) {
                Ok(cl) => {
                    proof {
                        gst = DeState { components: Some(cl@), ..gst };
                    }
                    components = Some(cl);
                },
                Err(e) => {
                    return Err(e);
                },
            }
        } else {
            return Err(ProtoError::UnrecognizedField(entry.0.clone()));
        }
        i += 1;
    }
    proof {
        assert(ev.skip(count as int) =~= Seq::<(Seq<char>, NodeView)>::empty());
    }
    let name = match name {
        Some(s) => s,
        None => {
            return Err(ProtoError::MissingField(String::from_str("name")));
        },
    };
    let templates = match templates {
        Some(tl) => tl,
        None => TemplateList::default(),
    };
    let components = match components {
        Some(cl) => cl,
        None => ComponentList::new(),
    };
    let p = Prototype { name, templates, components };
    Ok(p)
}

} // verus!
