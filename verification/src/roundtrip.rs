//! Laws relating the serializer and the deserializer.
//!
//! The central one: parsing the rendering of any well-formed prototype
//! gives the prototype back, name, template order, component order and
//! values all equal.

use vstd::prelude::*;

use crate::component::{has_type, unique_types, ComponentView, FieldValueView};
use crate::de::{
    node_value, spec_deserialize, spec_parse_component, spec_parse_component_entries,
    spec_parse_components, spec_parse_fields, spec_parse_proto_entries, spec_parse_template_items,
    DeState,
};
use crate::document::NodeView;
use crate::error::ErrorView;
use crate::prototype::PrototypeView;
use crate::registry::{registry_has, registry_schema, FieldKind, SchemaView};
use crate::ser::{
    field_kind_of, field_node, fields_conform, spec_serialize, spec_serialize_component,
    spec_serialize_components, template_nodes,
};

verus! {

/// Reading rendered field data back against the same shape recovers the
/// fields exactly.
proof fn lemma_fields_round(
    fields: Seq<(Seq<char>, FieldValueView)>,
    schema: Seq<(Seq<char>, FieldKind)>,
    acc: Seq<(Seq<char>, FieldValueView)>,
    id: Seq<char>,
)
    requires
        fields_conform(fields, schema),
    ensures
        spec_parse_fields(
            fields.map_values(|f: (Seq<char>, FieldValueView)| (f.0, field_node(f.1))),
            schema,
            acc,
            id,
        ) == Ok::<Seq<(Seq<char>, FieldValueView)>, ErrorView>(acc + fields),
    decreases fields.len(),
{
    let data = fields.map_values(|f: (Seq<char>, FieldValueView)| (f.0, field_node(f.1)));
    if fields.len() == 0 {
        assert(acc + fields =~= acc);
    } else {
        assert(data[0] == (fields[0].0, field_node(fields[0].1)));
        assert(fields[0].0 == schema[0].0 && field_kind_of(fields[0].1) == schema[0].1);
        assert(node_value(field_node(fields[0].1), schema[0].1) == Some(fields[0].1));
        let ftail = fields.drop_first();
        let stail = schema.drop_first();
        assert(fields_conform(ftail, stail)) by {
            assert forall|i: int| 0 <= i < ftail.len() implies (#[trigger] ftail[i]).0
                == stail[i].0 && field_kind_of(ftail[i].1) == stail[i].1 by {
                assert(ftail[i] == fields[i + 1] && stail[i] == schema[i + 1]);
            }
        }
        lemma_fields_round(ftail, stail, acc.push((fields[0].0, fields[0].1)), id);
        assert(data.drop_first() =~= ftail.map_values(
            |f: (Seq<char>, FieldValueView)| (f.0, field_node(f.1)),
        ));
        assert(acc.push((fields[0].0, fields[0].1)) + ftail =~= acc + fields);
    }
}

/// Parsing the rendering of one component recovers the component exactly.
proof fn lemma_component_round(c: ComponentView, rs: Seq<SchemaView>, n: NodeView)
    requires
        spec_serialize_component(c, rs) == Ok::<NodeView, ErrorView>(n),
    ensures
        spec_parse_component(n, rs) == Ok::<ComponentView, ErrorView>(c),
{
    reveal_strlit("type");
    reveal_strlit("data");
    assert(registry_has(rs, c.type_id));
    assert(fields_conform(c.fields, registry_schema(rs, c.type_id).fields));
    let dm = c.fields.map_values(|f: (Seq<char>, FieldValueView)| (f.0, field_node(f.1)));
    let entries = seq![
        ("type"@, NodeView::Text(c.type_id)),
        ("data"@, NodeView::Mapping(dm)),
    ];
    assert(n == NodeView::Mapping(entries));
    let e1 = entries.drop_first();
    assert(e1 =~= seq![("data"@, NodeView::Mapping(dm))]);
    assert(e1.drop_first() =~= Seq::<(Seq<char>, NodeView)>::empty());
    assert("data"@ != "type"@) by {
        assert("data"@[0] == 'd');
        assert("type"@[0] == 't');
    }
    assert(spec_parse_component_entries(e1.drop_first(), Some(c.type_id), Some(dm)) == Ok::<
        (Option<Seq<char>>, Option<Seq<(Seq<char>, NodeView)>>),
        ErrorView,
    >((Some(c.type_id), Some(dm))));
    assert(spec_parse_component_entries(e1, Some(c.type_id), None) == Ok::<
        (Option<Seq<char>>, Option<Seq<(Seq<char>, NodeView)>>),
        ErrorView,
    >((Some(c.type_id), Some(dm))));
    assert(spec_parse_component_entries(entries, None, None) == Ok::<
        (Option<Seq<char>>, Option<Seq<(Seq<char>, NodeView)>>),
        ErrorView,
    >((Some(c.type_id), Some(dm))));
    lemma_fields_round(
        c.fields,
        registry_schema(rs, c.type_id).fields,
        Seq::empty(),
        c.type_id,
    );
    assert(Seq::<(Seq<char>, FieldValueView)>::empty() + c.fields =~= c.fields);
    assert(spec_parse_component(n, rs) == Ok::<ComponentView, ErrorView>(
        ComponentView { type_id: c.type_id, fields: c.fields },
    ));
    assert(ComponentView { type_id: c.type_id, fields: c.fields } == c);
}

/// The rendering fold is the fold from an empty accumulator, appended.
proof fn lemma_ser_comps_acc(cs: Seq<ComponentView>, acc: Seq<NodeView>, rs: Seq<SchemaView>)
    ensures
        spec_serialize_components(cs, acc, rs) is Ok <==> spec_serialize_components(
            cs,
            Seq::empty(),
            rs,
        ) is Ok,
        spec_serialize_components(cs, acc, rs) is Ok ==> spec_serialize_components(
            cs,
            acc,
            rs,
        )->Ok_0 == acc + spec_serialize_components(cs, Seq::empty(), rs)->Ok_0,
    decreases cs.len(),
{
    if cs.len() == 0 {
        assert(acc + Seq::<NodeView>::empty() =~= acc);
    } else {
        match spec_serialize_component(cs[0], rs) {
            Ok(n0) => {
                let rest = cs.drop_first();
                assert(Seq::<NodeView>::empty().push(n0) =~= seq![n0]);
                lemma_ser_comps_acc(rest, acc.push(n0), rs);
                lemma_ser_comps_acc(rest, seq![n0], rs);
                if spec_serialize_components(cs, acc, rs) is Ok {
                    assert(acc.push(n0) + spec_serialize_components(rest, Seq::empty(), rs)->Ok_0
                        =~= acc + (seq![n0] + spec_serialize_components(
                        rest,
                        Seq::empty(),
                        rs,
                    )->Ok_0));
                }
            },
            Err(e) => {},
        }
    }
}

/// Parsing the rendered component nodes back, inserting onto `pre`,
/// recovers `pre` extended by the components, in order.
proof fn lemma_components_round(
    cs: Seq<ComponentView>,
    pre: Seq<ComponentView>,
    rs: Seq<SchemaView>,
)
    requires
        spec_serialize_components(cs, Seq::empty(), rs) is Ok,
        unique_types(pre + cs),
    ensures
        spec_parse_components(
            spec_serialize_components(cs, Seq::empty(), rs)->Ok_0,
            pre,
            rs,
        ) == Ok::<Seq<ComponentView>, ErrorView>(pre + cs),
    decreases cs.len(),
{
    let ns = spec_serialize_components(cs, Seq::empty(), rs)->Ok_0;
    if cs.len() == 0 {
        assert(ns =~= Seq::<NodeView>::empty());
        assert(pre + cs =~= pre);
    } else {
        let n0 = spec_serialize_component(cs[0], rs)->Ok_0;
        let rest = cs.drop_first();
        assert(Seq::<NodeView>::empty().push(n0) =~= seq![n0]);
        lemma_ser_comps_acc(rest, seq![n0], rs);
        let ns_rest = spec_serialize_components(rest, Seq::empty(), rs)->Ok_0;
        assert(ns == seq![n0] + ns_rest);
        assert(ns[0] == n0);
        lemma_component_round(cs[0], rs, n0);
        assert(!has_type(pre, cs[0].type_id)) by {
            let all = pre + cs;
            assert forall|j: int| 0 <= j < pre.len() implies pre[j].type_id
                != cs[0].type_id by {
                assert(all[j] == pre[j] && all[pre.len() as int] == cs[0]);
            }
        }
        assert(pre.push(cs[0]) + rest =~= pre + cs);
        lemma_components_round(rest, pre.push(cs[0]), rs);
        assert(ns.drop_first() =~= ns_rest);
    }
}

/// Parsing rendered template names back recovers them in order.
proof fn lemma_template_items_round(ts: Seq<Seq<char>>, acc: Seq<Seq<char>>)
    ensures
        spec_parse_template_items(template_nodes(ts), acc) == Ok::<Seq<Seq<char>>, ErrorView>(
            acc + ts,
        ),
    decreases ts.len(),
{
    let items = template_nodes(ts);
    if ts.len() == 0 {
        assert(acc + ts =~= acc);
    } else {
        assert(items[0] == NodeView::Text(ts[0]));
        lemma_template_items_round(ts.drop_first(), acc.push(ts[0]));
        assert(items.drop_first() =~= template_nodes(ts.drop_first()));
        assert(acc.push(ts[0]) + ts.drop_first() =~= acc + ts);
    }
}

/// Round-trip: for any well-formed prototype whose rendering succeeds,
/// parsing the rendering against the same registry gives the prototype
/// back — name, template order, component order and values all equal.
pub proof fn lemma_round_trip(p: PrototypeView, rs: Seq<SchemaView>)
    requires
        unique_types(p.components),
        spec_serialize(p, rs) is Ok,
    ensures
        spec_deserialize(spec_serialize(p, rs)->Ok_0, rs) == Ok::<PrototypeView, ErrorView>(p),
{
    reveal_strlit("name");
    reveal_strlit("template");
    reveal_strlit("templates");
    reveal_strlit("components");
    let ns = spec_serialize_components(p.components, Seq::empty(), rs)->Ok_0;
    let head = seq![("name"@, NodeView::Text(p.name))];
    let mid = if p.templates.len() == 0 {
        Seq::<(Seq<char>, NodeView)>::empty()
    } else {
        seq![("templates"@, NodeView::List(template_nodes(p.templates)))]
    };
    let tail = seq![("components"@, NodeView::List(ns))];
    let entries = head + mid + tail;
    assert(spec_serialize(p, rs)->Ok_0 == NodeView::Mapping(entries));

    assert("name"@.len() == 4 && "template"@.len() == 8 && "templates"@.len() == 9
        && "components"@.len() == 10);
    assert("name"@ != "templates"@ && "name"@ != "components"@ && "template"@ != "templates"@
        && "template"@ != "components"@ && "templates"@ != "components"@ && "name"@
        != "template"@);

    assert(Seq::<ComponentView>::empty() + p.components =~= p.components);
    lemma_components_round(p.components, Seq::<ComponentView>::empty(), rs);

    let st0 = DeState { name: None, templates: None, components: None };
    let st1 = DeState { name: Some(p.name), templates: None, components: None };
    assert(entries[0] == ("name"@, NodeView::Text(p.name)));

    if p.templates.len() == 0 {
        assert(entries =~= head + tail);
        assert(entries.len() == 2);
        assert(entries[1] == ("components"@, NodeView::List(ns)));
        let st2 = DeState { name: Some(p.name), templates: None, components: Some(p.components) };
        let e1 = entries.drop_first();
        assert(e1 =~= seq![("components"@, NodeView::List(ns))]);
        assert(e1.drop_first() =~= Seq::<(Seq<char>, NodeView)>::empty());
        assert(spec_parse_proto_entries(e1.drop_first(), st2, rs) == Ok::<DeState, ErrorView>(
            st2,
        ));
        assert(spec_parse_proto_entries(e1, st1, rs) == Ok::<DeState, ErrorView>(st2));
        assert(spec_parse_proto_entries(entries, st0, rs) == Ok::<DeState, ErrorView>(st2));
        assert(p.templates =~= Seq::<Seq<char>>::empty());
        assert(spec_deserialize(NodeView::Mapping(entries), rs) == Ok::<
            PrototypeView,
            ErrorView,
        >(PrototypeView { name: p.name, templates: p.templates, components: p.components }));
        assert(PrototypeView { name: p.name, templates: p.templates, components: p.components }
            == p);
    } else {
        assert(entries.len() == 3);
        assert(entries[1] == ("templates"@, NodeView::List(template_nodes(p.templates))));
        assert(entries[2] == ("components"@, NodeView::List(ns)));
        lemma_template_items_round(p.templates, Seq::<Seq<char>>::empty());
        assert(Seq::<Seq<char>>::empty() + p.templates =~= p.templates);
        let st2 = DeState { name: Some(p.name), templates: Some(p.templates), components: None };
        let st3 = DeState {
            name: Some(p.name),
            templates: Some(p.templates),
            components: Some(p.components),
        };
        let e1 = entries.drop_first();
        let e2 = e1.drop_first();
        assert(e1 =~= seq![
            ("templates"@, NodeView::List(template_nodes(p.templates))),
            ("components"@, NodeView::List(ns)),
        ]);
        assert(e2 =~= seq![("components"@, NodeView::List(ns))]);
        assert(e2.drop_first() =~= Seq::<(Seq<char>, NodeView)>::empty());
        assert(spec_parse_proto_entries(e2.drop_first(), st3, rs) == Ok::<DeState, ErrorView>(
            st3,
        ));
        assert(spec_parse_proto_entries(e2, st2, rs) == Ok::<DeState, ErrorView>(st3));
        assert(spec_parse_proto_entries(e1, st1, rs) == Ok::<DeState, ErrorView>(st3));
        assert(spec_parse_proto_entries(entries, st0, rs) == Ok::<DeState, ErrorView>(st3));
        assert(spec_deserialize(NodeView::Mapping(entries), rs) == Ok::<
            PrototypeView,
            ErrorView,
        >(PrototypeView { name: p.name, templates: p.templates, components: p.components }));
        assert(PrototypeView { name: p.name, templates: p.templates, components: p.components }
            == p);
    }
}

} // verus!
