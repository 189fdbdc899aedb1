use proto_core::component::{Component, ComponentList, FieldValue};
use proto_core::de::{ComponentListDeserializer, PrototypeDeserializer, TemplateListDeserializer};
use proto_core::document::Node;
use proto_core::error::ProtoError;
use proto_core::prototype::{Prototype, PrototypeLookup};
use proto_core::registry::{FieldKind, Registry, TypeSchema};
use proto_core::resolve::resolve;
use proto_core::ser::{ComponentListSerializer, PrototypeSerializer, TemplateListSerializer};
use proto_core::template::TemplateList;

fn component(type_id: &str, fields: Vec<(&str, FieldValue)>) -> Component {
    Component {
        type_id: type_id.to_string(),
        fields: fields.into_iter().map(|(n, v)| (n.to_string(), v)).collect(),
    }
}

fn component_list(comps: Vec<Component>) -> ComponentList {
    let mut list = ComponentList::new();
    for c in comps {
        list.insert(c).expect("building a list with unique component types");
    }
    list
}

fn schema(type_id: &str, fields: Vec<(&str, FieldKind)>) -> TypeSchema {
    TypeSchema {
        type_id: type_id.to_string(),
        fields: fields.into_iter().map(|(n, k)| (n.to_string(), k)).collect(),
    }
}

fn prototype(name: &str, templates: Vec<&str>, comps: Vec<Component>) -> Prototype {
    Prototype {
        name: name.to_string(),
        templates: TemplateList::new(templates.into_iter().map(|t| t.to_string()).collect()),
        components: component_list(comps),
    }
}

fn setup() -> (Prototype, Registry) {
    let proto = prototype(
        "Foo",
        vec!["IFoo", "IBar"],
        vec![component(
            "my_component",
            vec![
                ("foo", FieldValue::Unsigned(123)),
                ("bar", FieldValue::Text("hello".to_string())),
            ],
        )],
    );
    let mut registry = Registry::new();
    assert!(registry.register(schema(
        "my_component",
        vec![("foo", FieldKind::Unsigned), ("bar", FieldKind::Text)],
    )));
    (proto, registry)
}

fn expected_document() -> Node {
    Node::Mapping(vec![
        ("name".to_string(), Node::Text("Foo".to_string())),
        (
            "templates".to_string(),
            Node::List(vec![
                Node::Text("IFoo".to_string()),
                Node::Text("IBar".to_string()),
            ]),
        ),
        (
            "components".to_string(),
            Node::List(vec![Node::Mapping(vec![
                ("type".to_string(), Node::Text("my_component".to_string())),
                (
                    "data".to_string(),
                    Node::Mapping(vec![
                        ("foo".to_string(), Node::Unsigned(123)),
                        ("bar".to_string(), Node::Text("hello".to_string())),
                    ]),
                ),
            ])]),
        ),
    ])
}

#[test]
fn should_serialize() {
    let (proto, registry) = setup();
    let serializer = PrototypeSerializer::new(&proto, &registry);
    let output = serializer.serialize().expect("serialization succeeds");
    assert_eq!(expected_document(), output);
}

#[test]
fn should_deserialize() {
    let (expected, registry) = setup();
    let deserializer = PrototypeDeserializer::new(&registry);
    let output = deserializer
        .deserialize(&expected_document())
        .expect("deserialization succeeds");
    assert_eq!(expected, output);
}

#[test]
fn insert_rejects_duplicate_type() {
    let mut list = ComponentList::new();
    list.insert(component("position", vec![("x", FieldValue::Signed(1))]))
        .unwrap();
    let err = list
        .insert(component("position", vec![("x", FieldValue::Signed(2))]))
        .unwrap_err();
    assert_eq!(err, ProtoError::DuplicateComponent("position".to_string()));
    assert_eq!(list.len(), 1);
}

#[test]
fn lookup_returns_inserted_value() {
    let mut list = ComponentList::new();
    let c = component("position", vec![("x", FieldValue::Signed(7))]);
    list.insert(c.clone()).unwrap();
    assert_eq!(list.lookup("position"), Some(&c));
    assert_eq!(list.lookup("velocity"), None);
}

#[test]
fn merge_override_replaces_in_place() {
    let mut list = component_list(vec![
        component("a", vec![("v", FieldValue::Unsigned(1))]),
        component("b", vec![("v", FieldValue::Unsigned(2))]),
    ]);
    let other = component_list(vec![
        component("a", vec![("v", FieldValue::Unsigned(9))]),
        component("c", vec![("v", FieldValue::Unsigned(3))]),
    ]);
    list.merge_override(&other);
    assert_eq!(list.len(), 3);
    assert_eq!(
        list.get(0),
        &component("a", vec![("v", FieldValue::Unsigned(9))])
    );
    assert_eq!(
        list.get(1),
        &component("b", vec![("v", FieldValue::Unsigned(2))])
    );
    assert_eq!(
        list.get(2),
        &component("c", vec![("v", FieldValue::Unsigned(3))])
    );
}

#[test]
fn later_template_overrides_earlier() {
    let a = prototype("A", vec![], vec![component("t", vec![("v", FieldValue::Unsigned(1))])]);
    let b = prototype("B", vec![], vec![component("t", vec![("v", FieldValue::Unsigned(2))])]);
    let p = prototype("P", vec!["A", "B"], vec![]);
    let mut lookup = PrototypeLookup::new();
    lookup.insert(a);
    lookup.insert(b);
    let resolved = resolve(&p, &lookup).expect("resolution succeeds");
    assert_eq!(
        resolved.lookup("t"),
        Some(&component("t", vec![("v", FieldValue::Unsigned(2))]))
    );
}

#[test]
fn own_component_always_wins() {
    let a = prototype("A", vec![], vec![component("t", vec![("v", FieldValue::Unsigned(1))])]);
    let p = prototype(
        "P",
        vec!["A"],
        vec![component("t", vec![("v", FieldValue::Unsigned(2))])],
    );
    let mut lookup = PrototypeLookup::new();
    lookup.insert(a);
    let resolved = resolve(&p, &lookup).expect("resolution succeeds");
    assert_eq!(
        resolved.lookup("t"),
        Some(&component("t", vec![("v", FieldValue::Unsigned(2))]))
    );
}

#[test]
fn cycle_fails_resolution() {
    let x = prototype("X", vec!["Y"], vec![]);
    let y = prototype("Y", vec!["X"], vec![]);
    let mut lookup = PrototypeLookup::new();
    lookup.insert(x.clone());
    lookup.insert(y.clone());
    let err_x = resolve(&x, &lookup).unwrap_err();
    assert_eq!(
        err_x,
        ProtoError::CyclicTemplateReference(vec![
            "X".to_string(),
            "Y".to_string(),
            "X".to_string(),
        ])
    );
    let err_y = resolve(&y, &lookup).unwrap_err();
    assert_eq!(
        err_y,
        ProtoError::CyclicTemplateReference(vec![
            "Y".to_string(),
            "X".to_string(),
            "Y".to_string(),
        ])
    );
}

#[test]
fn self_reference_fails_resolution() {
    let p = prototype("P", vec!["P"], vec![]);
    let mut lookup = PrototypeLookup::new();
    lookup.insert(p.clone());
    let err = resolve(&p, &lookup).unwrap_err();
    assert_eq!(
        err,
        ProtoError::CyclicTemplateReference(vec!["P".to_string(), "P".to_string()])
    );
}

#[test]
fn diamond_is_not_a_cycle() {
    let c = prototype("C", vec![], vec![component("t", vec![("v", FieldValue::Unsigned(5))])]);
    let a = prototype("A", vec!["C"], vec![]);
    let b = prototype("B", vec!["C"], vec![]);
    let p = prototype("P", vec!["A", "B"], vec![]);
    let mut lookup = PrototypeLookup::new();
    lookup.insert(c);
    lookup.insert(a);
    lookup.insert(b);
    let resolved = resolve(&p, &lookup).expect("a diamond resolves");
    assert_eq!(
        resolved.lookup("t"),
        Some(&component("t", vec![("v", FieldValue::Unsigned(5))]))
    );
}

#[test]
fn unknown_template_fails_resolution() {
    let p = prototype("P", vec!["Missing"], vec![]);
    let lookup = PrototypeLookup::new();
    let err = resolve(&p, &lookup).unwrap_err();
    assert_eq!(err, ProtoError::UnknownTemplate("Missing".to_string()));
}

#[test]
fn round_trip_preserves_prototype() {
    let (proto, registry) = setup();
    let serializer = PrototypeSerializer::new(&proto, &registry);
    let rendered = serializer.serialize().expect("serialization succeeds");
    let deserializer = PrototypeDeserializer::new(&registry);
    let parsed = deserializer.deserialize(&rendered).expect("parsing back succeeds");
    assert_eq!(proto, parsed);
}

#[test]
fn round_trip_without_templates() {
    let (_, registry) = setup();
    let proto = prototype(
        "Plain",
        vec![],
        vec![component(
            "my_component",
            vec![
                ("foo", FieldValue::Unsigned(7)),
                ("bar", FieldValue::Text("x".to_string())),
            ],
        )],
    );
    let serializer = PrototypeSerializer::new(&proto, &registry);
    let rendered = serializer.serialize().expect("serialization succeeds");
    let deserializer = PrototypeDeserializer::new(&registry);
    let parsed = deserializer.deserialize(&rendered).expect("parsing back succeeds");
    assert_eq!(proto, parsed);
}

#[test]
fn template_parsing_equivalence() {
    let from_list = TemplateList::new(vec!["A".to_string(), "B".to_string()]);
    let from_string = TemplateList::from_comma_separated("A, B");
    assert_eq!(from_list, from_string);
}

#[test]
fn template_parsing_trims_whitespace() {
    let parsed = TemplateList::from_comma_separated("  A\t , B ,C");
    let expected = TemplateList::new(vec!["A".to_string(), "B".to_string(), "C".to_string()]);
    assert_eq!(parsed, expected);
}

#[test]
fn template_parsing_empty_string_is_one_empty_segment() {
    let parsed = TemplateList::from_comma_separated("");
    let expected = TemplateList::new(vec![String::new()]);
    assert_eq!(parsed, expected);
}

#[test]
fn template_list_node_forms_agree() {
    let de = TemplateListDeserializer;
    let from_text = de
        .deserialize(&Node::Text("A, B".to_string()))
        .expect("text form parses");
    let from_list = de
        .deserialize(&Node::List(vec![
            Node::Text("A".to_string()),
            Node::Text("B".to_string()),
        ]))
        .expect("list form parses");
    assert_eq!(from_text, from_list);
}

#[test]
fn template_serializer_renders_names_in_order() {
    let templates = TemplateList::new(vec!["A".to_string(), "B".to_string()]);
    let serializer = TemplateListSerializer::new(&templates);
    let node = serializer.serialize();
    assert_eq!(
        node,
        Node::List(vec![
            Node::Text("A".to_string()),
            Node::Text("B".to_string()),
        ])
    );
}

#[test]
fn empty_templates_key_is_omitted() {
    let (_, registry) = setup();
    let proto = prototype("Solo", vec![], vec![]);
    let serializer = PrototypeSerializer::new(&proto, &registry);
    let rendered = serializer.serialize().expect("serialization succeeds");
    match rendered {
        Node::Mapping(entries) => {
            let keys: Vec<&str> = entries.iter().map(|(k, _)| k.as_str()).collect();
            assert_eq!(keys, vec!["name", "components"]);
        }
        other => panic!("expected a mapping, got {:?}", other),
    }
}

#[test]
fn concrete_base_child_scenario() {
    // The registry knows a two-field record and a one-field record whose
    // value is authored as decimal text.
    let mut registry = Registry::new();
    assert!(registry.register(schema(
        "Foo",
        vec![("index", FieldKind::Unsigned), ("name", FieldKind::Text)],
    )));
    assert!(registry.register(schema("Bar", vec![("x", FieldKind::Text)])));

    let foo = component(
        "Foo",
        vec![
            ("index", FieldValue::Unsigned(1)),
            ("name", FieldValue::Text("a".to_string())),
        ],
    );
    let bar = component("Bar", vec![("x", FieldValue::Text("2.5".to_string()))]);

    let base = prototype("Base", vec![], vec![foo.clone()]);
    let child = prototype("Child", vec!["Base"], vec![bar.clone()]);
    let mut lookup = PrototypeLookup::new();
    lookup.insert(base);
    let resolved = resolve(&child, &lookup).expect("resolution succeeds");
    assert_eq!(resolved.len(), 2);
    assert_eq!(resolved.get(0), &foo);
    assert_eq!(resolved.get(1), &bar);
}

#[test]
fn missing_name_is_rejected() {
    let (_, registry) = setup();
    let de = PrototypeDeserializer::new(&registry);
    let err = de
        .deserialize(&Node::Mapping(vec![(
            "components".to_string(),
            Node::List(vec![]),
        )]))
        .unwrap_err();
    assert_eq!(err, ProtoError::MissingField("name".to_string()));
}

#[test]
fn unrecognized_key_is_rejected() {
    let (_, registry) = setup();
    let de = PrototypeDeserializer::new(&registry);
    let err = de
        .deserialize(&Node::Mapping(vec![
            ("name".to_string(), Node::Text("Foo".to_string())),
            ("extras".to_string(), Node::List(vec![])),
        ]))
        .unwrap_err();
    assert_eq!(err, ProtoError::UnrecognizedField("extras".to_string()));
}

#[test]
fn singular_template_key_is_accepted() {
    let (_, registry) = setup();
    let de = PrototypeDeserializer::new(&registry);
    let proto = de
        .deserialize(&Node::Mapping(vec![
            ("name".to_string(), Node::Text("Foo".to_string())),
            ("template".to_string(), Node::Text("A, B".to_string())),
        ]))
        .expect("the singular alias parses");
    assert_eq!(
        proto.templates,
        TemplateList::new(vec!["A".to_string(), "B".to_string()])
    );
}

#[test]
fn unknown_component_type_is_rejected() {
    let (_, registry) = setup();
    let de = ComponentListDeserializer::new(&registry);
    let err = de
        .deserialize(&Node::List(vec![Node::Mapping(vec![(
            "type".to_string(),
            Node::Text("nonsense".to_string()),
        )])]))
        .unwrap_err();
    assert_eq!(err, ProtoError::UnknownComponentType("nonsense".to_string()));
}

#[test]
fn missing_type_key_is_rejected() {
    let (_, registry) = setup();
    let de = ComponentListDeserializer::new(&registry);
    let err = de
        .deserialize(&Node::List(vec![Node::Mapping(vec![(
            "data".to_string(),
            Node::Mapping(vec![]),
        )])]))
        .unwrap_err();
    assert_eq!(err, ProtoError::MissingField("type".to_string()));
}

#[test]
fn malformed_field_data_is_rejected() {
    let (_, registry) = setup();
    let de = ComponentListDeserializer::new(&registry);
    // The `foo` field is registered as unsigned but authored as text.
    let err = de
        .deserialize(&Node::List(vec![Node::Mapping(vec![
            ("type".to_string(), Node::Text("my_component".to_string())),
            (
                "data".to_string(),
                Node::Mapping(vec![
                    ("foo".to_string(), Node::Text("not a number".to_string())),
                    ("bar".to_string(), Node::Text("hello".to_string())),
                ]),
            ),
        ])]))
        .unwrap_err();
    assert_eq!(
        err,
        ProtoError::MalformedFieldData("my_component".to_string())
    );
}

#[test]
fn duplicate_component_type_in_document_is_rejected() {
    let (_, registry) = setup();
    let de = ComponentListDeserializer::new(&registry);
    let one = Node::Mapping(vec![
        ("type".to_string(), Node::Text("my_component".to_string())),
        (
            "data".to_string(),
            Node::Mapping(vec![
                ("foo".to_string(), Node::Unsigned(1)),
                ("bar".to_string(), Node::Text("a".to_string())),
            ]),
        ),
    ]);
    let two = Node::Mapping(vec![
        ("type".to_string(), Node::Text("my_component".to_string())),
        (
            "data".to_string(),
            Node::Mapping(vec![
                ("foo".to_string(), Node::Unsigned(2)),
                ("bar".to_string(), Node::Text("b".to_string())),
            ]),
        ),
    ]);
    let err = de.deserialize(&Node::List(vec![one, two])).unwrap_err();
    assert_eq!(
        err,
        ProtoError::DuplicateComponent("my_component".to_string())
    );
}

#[test]
fn serializing_unregistered_component_fails() {
    let registry = Registry::new();
    let list = component_list(vec![component(
        "ghostly",
        vec![("v", FieldValue::Truth(true))],
    )]);
    let ser = ComponentListSerializer::new(&list, &registry);
    let err = ser.serialize().unwrap_err();
    assert_eq!(err, ProtoError::UnknownComponentType("ghostly".to_string()));
}

#[test]
fn components_key_is_present_even_when_empty() {
    let (_, registry) = setup();
    let proto = prototype("Solo", vec![], vec![]);
    let serializer = PrototypeSerializer::new(&proto, &registry);
    let rendered = serializer.serialize().expect("serialization succeeds");
    match rendered {
        Node::Mapping(entries) => {
            assert_eq!(entries[1].0, "components");
            assert_eq!(entries[1].1, Node::List(vec![]));
        }
        other => panic!("expected a mapping, got {:?}", other),
    }
}

#[test]
fn registry_rejects_duplicate_type_id() {
    let mut registry = Registry::new();
    assert!(registry.register(schema("a", vec![])));
    assert!(!registry.register(schema("a", vec![("v", FieldKind::Truth)])));
    assert_eq!(registry.len(), 1);
}

#[test]
fn registry_rejects_colliding_field_names() {
    let mut registry = Registry::new();
    assert!(!registry.register(schema(
        "a",
        vec![("v", FieldKind::Truth), ("v", FieldKind::Text)],
    )));
    assert_eq!(registry.len(), 0);
}

#[test]
fn lookup_insert_replaces_same_name() {
    let p1 = prototype("P", vec![], vec![component("a", vec![])]);
    let p2 = prototype("P", vec![], vec![component("b", vec![])]);
    let mut lookup = PrototypeLookup::new();
    lookup.insert(p1);
    lookup.insert(p2.clone());
    assert_eq!(lookup.len(), 1);
    assert_eq!(lookup.get("P"), Some(&p2));
}

#[test]
fn unrecognized_component_key_is_rejected() {
    let (_, registry) = setup();
    let de = ComponentListDeserializer::new(&registry);
    let err = de
        .deserialize(&Node::List(vec![Node::Mapping(vec![
            ("type".to_string(), Node::Text("my_component".to_string())),
            ("payload".to_string(), Node::Mapping(vec![])),
        ])]))
        .unwrap_err();
    assert_eq!(err, ProtoError::UnrecognizedField("payload".to_string()));
}

#[test]
fn non_text_name_is_rejected() {
    let (_, registry) = setup();
    let de = PrototypeDeserializer::new(&registry);
    let err = de
        .deserialize(&Node::Mapping(vec![(
            "name".to_string(),
            Node::Unsigned(3),
        )]))
        .unwrap_err();
    assert_eq!(err, ProtoError::MalformedFieldData("name".to_string()));
}

#[test]
fn non_list_non_text_templates_are_rejected() {
    let (_, registry) = setup();
    let de = PrototypeDeserializer::new(&registry);
    let err = de
        .deserialize(&Node::Mapping(vec![
            ("name".to_string(), Node::Text("Foo".to_string())),
            ("templates".to_string(), Node::Mapping(vec![])),
        ]))
        .unwrap_err();
    assert_eq!(err, ProtoError::MalformedFieldData("templates".to_string()));
}

#[test]
fn non_mapping_prototype_document_is_rejected() {
    let (_, registry) = setup();
    let de = PrototypeDeserializer::new(&registry);
    let err = de.deserialize(&Node::Text("Foo".to_string())).unwrap_err();
    assert_eq!(err, ProtoError::MalformedFieldData("prototype".to_string()));
}

#[test]
fn serializing_nonconforming_fields_fails() {
    let (_, registry) = setup();
    // The registered order is `foo` then `bar`; swapping them does not
    // conform to the registered shape.
    let list = component_list(vec![component(
        "my_component",
        vec![
            ("bar", FieldValue::Text("hello".to_string())),
            ("foo", FieldValue::Unsigned(1)),
        ],
    )]);
    let ser = ComponentListSerializer::new(&list, &registry);
    let err = ser.serialize().unwrap_err();
    assert_eq!(
        err,
        ProtoError::MalformedFieldData("my_component".to_string())
    );
}

#[test]
fn resolution_leaves_inputs_untouched() {
    let a = prototype("A", vec![], vec![component("t", vec![("v", FieldValue::Unsigned(1))])]);
    let p = prototype("P", vec!["A"], vec![component("u", vec![])]);
    let mut lookup = PrototypeLookup::new();
    lookup.insert(a.clone());
    let p_before = p.clone();
    let resolved = resolve(&p, &lookup).expect("resolution succeeds");
    assert_eq!(p, p_before);
    assert_eq!(lookup.get("A"), Some(&a));
    assert_eq!(resolved.len(), 2);
}

#[test]
fn template_parsing_trims_all_unicode_whitespace() {
    let parsed = TemplateList::from_comma_separated("\u{000B}A\u{000C},\u{00A0}B\u{2003},\u{3000}C\u{0085}");
    let expected = TemplateList::new(vec!["A".to_string(), "B".to_string(), "C".to_string()]);
    assert_eq!(parsed, expected);
}

#[test]
fn trimming_matches_std_whitespace() {
    let raw = "\u{0009}\u{000A}\u{000B}\u{000C}\u{000D}\u{0020}\u{0085}\u{00A0}\u{1680}\
               \u{2000}\u{2001}\u{2002}\u{2003}\u{2004}\u{2005}\u{2006}\u{2007}\u{2008}\
               \u{2009}\u{200A}\u{2028}\u{2029}\u{202F}\u{205F}\u{3000}name\u{3000}\u{0009}";
    let parsed = TemplateList::from_comma_separated(raw);
    let expected = TemplateList::new(vec![raw.trim().to_string()]);
    assert_eq!(parsed, expected);
    assert_eq!(raw.trim(), "name");
}
