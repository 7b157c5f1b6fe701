use colmenar::array::Array;
use colmenar::context::Context;
use colmenar::enumeration::Enumeration;
use colmenar::error::Error;
use colmenar::model::Model;
use colmenar::schema::{Schema, SchemaRef, SchemaShape};
use colmenar::typeref::TypeRef;

fn plain_text() -> Schema {
    Schema { description: None, nullable: false, shape: SchemaShape::Text { enumeration: vec![] } }
}

fn text_enum(values: &[&str]) -> Schema {
    Schema {
        description: None,
        nullable: false,
        shape: SchemaShape::Text {
            enumeration: values.iter().map(|v| Some(v.to_string())).collect(),
        },
    }
}

fn object(required: &[&str], properties: Vec<(&str, SchemaRef)>) -> Schema {
    Schema {
        description: None,
        nullable: false,
        shape: SchemaShape::Object {
            required: required.iter().map(|r| r.to_string()).collect(),
            properties: properties.into_iter().map(|(n, s)| (n.to_string(), s)).collect(),
        },
    }
}

fn inline(s: Schema) -> SchemaRef {
    SchemaRef::Item(Box::new(s))
}

fn reference(r: &str) -> SchemaRef {
    SchemaRef::Reference { reference: r.to_string() }
}

#[test]
fn registers_plain_string_alias() {
    let mut ctx = Context::new();
    Model::discover(&mut ctx, "Label", &plain_text()).unwrap();
    let m = Model::get(&ctx, "Label").unwrap();
    assert_eq!(m.name, "Label");
    assert_eq!(m.path, "label");
    assert!(matches!(m.ty, Some(TypeRef::Text)));
    assert!(m.enumeration.is_none());
    assert!(m.properties.is_empty());
}

#[test]
fn date_time_name_gets_timestamp_alias() {
    let mut ctx = Context::new();
    Model::discover(&mut ctx, "DateTime", &plain_text()).unwrap();
    let m = Model::get(&ctx, "DateTime").unwrap();
    assert!(matches!(m.ty, Some(TypeRef::DateTime)));
}

#[test]
fn integer_without_enumeration_is_integer_alias() {
    let mut ctx = Context::new();
    let s = Schema {
        description: None,
        nullable: false,
        shape: SchemaShape::Integer { enumeration: vec![] },
    };
    Model::discover(&mut ctx, "Count", &s).unwrap();
    let m = Model::get(&ctx, "Count").unwrap();
    assert!(matches!(m.ty, Some(TypeRef::Integer)));
}

#[test]
fn string_enumeration_keeps_wire_literals_in_order() {
    let mut ctx = Context::new();
    Model::discover(&mut ctx, "Capability", &text_enum(&["value-one", "value-two"])).unwrap();
    let m = Model::get(&ctx, "Capability").unwrap();
    assert!(m.ty.is_none());
    match &m.enumeration {
        Some(Enumeration::Text(vs)) => {
            assert_eq!(vs, &vec!["value-one".to_string(), "value-two".to_string()]);
        },
        _ => panic!("expected a string enumeration"),
    }
}

#[test]
fn absent_literals_are_filtered_out() {
    let mut ctx = Context::new();
    let s = Schema {
        description: None,
        nullable: false,
        shape: SchemaShape::Text {
            enumeration: vec![Some("a".to_string()), None, Some("b".to_string())],
        },
    };
    Model::discover(&mut ctx, "Letters", &s).unwrap();
    let m = Model::get(&ctx, "Letters").unwrap();
    match &m.enumeration {
        Some(Enumeration::Text(vs)) => assert_eq!(vs, &vec!["a".to_string(), "b".to_string()]),
        _ => panic!("expected a string enumeration"),
    }
}

#[test]
fn empty_enumeration_means_open_alias() {
    let e = Enumeration::discover(&plain_text());
    assert!(e.is_none());
}

#[test]
fn integer_enumeration_extracts_present_values() {
    let s = Schema {
        description: None,
        nullable: false,
        shape: SchemaShape::Integer { enumeration: vec![Some(3), None, Some(7)] },
    };
    match Enumeration::discover(&s) {
        Some(Enumeration::Integer(vs)) => assert_eq!(vs, vec![3, 7]),
        _ => panic!("expected an integer enumeration"),
    }
}

#[test]
fn duplicate_model_name_fails_and_keeps_first() {
    let mut ctx = Context::new();
    Model::discover(&mut ctx, "Thing", &plain_text()).unwrap();
    let r = Model::discover(&mut ctx, "Thing", &plain_text());
    assert!(matches!(r, Err(Error::DuplicateModel { .. })));
    assert_eq!(Model::all(&ctx).len(), 1);
}

#[test]
fn resolving_twice_yields_identical_models() {
    let schema = object(
        &["id"],
        vec![("id", inline(plain_text())), ("extras", inline(text_enum(&["x", "y"])))],
    );
    let mut first = Context::new();
    Model::discover(&mut first, "Widget", &schema).unwrap();
    let mut second = Context::new();
    Model::discover(&mut second, "Widget", &schema).unwrap();
    let a = Model::all(&first);
    let b = Model::all(&second);
    assert_eq!(a.len(), b.len());
    for (x, y) in a.iter().zip(b.iter()) {
        assert_eq!(x.name, y.name);
        assert_eq!(x.path, y.path);
        assert_eq!(x.properties.len(), y.properties.len());
        for (p, q) in x.properties.iter().zip(y.properties.iter()) {
            assert_eq!(p.name, q.name);
            assert_eq!(p.safe_name, q.safe_name);
            assert_eq!(p.required, q.required);
            assert_eq!(p.nullable, q.nullable);
        }
    }
}

#[test]
fn object_properties_keep_declaration_order_and_flags() {
    let schema = object(
        &["name"],
        vec![
            ("name", inline(plain_text())),
            (
                "stack",
                inline(Schema {
                    description: None,
                    nullable: true,
                    shape: SchemaShape::Text { enumeration: vec![] },
                }),
            ),
        ],
    );
    let mut ctx = Context::new();
    Model::discover(&mut ctx, "Environment", &schema).unwrap();
    let m = Model::get(&ctx, "Environment").unwrap();
    assert_eq!(m.properties.len(), 2);
    assert_eq!(m.properties[0].name, "name");
    assert!(m.properties[0].required);
    assert!(!m.properties[0].nullable);
    assert_eq!(m.properties[1].name, "stack");
    assert!(!m.properties[1].required);
    assert!(m.properties[1].nullable);
}

#[test]
fn inline_nested_object_synthesizes_child_model() {
    let schema = object(
        &[],
        vec![("about", inline(object(&[], vec![("description", inline(plain_text()))])))],
    );
    let mut ctx = Context::new();
    Model::discover(&mut ctx, "Request", &schema).unwrap();
    let child = Model::get(&ctx, "RequestAbout").unwrap();
    assert_eq!(child.properties.len(), 1);
    let parent = Model::get(&ctx, "Request").unwrap();
    match &parent.properties[0].ty {
        TypeRef::Named(n) => assert_eq!(n, "RequestAbout"),
        _ => panic!("expected a named property type"),
    }
}

#[test]
fn all_of_flattens_reference_then_inline_branch() {
    let mut ctx = Context::new();
    Model::discover(&mut ctx, "Base", &object(&["id"], vec![("id", inline(plain_text()))]))
        .unwrap();
    let derived = Schema {
        description: None,
        nullable: false,
        shape: SchemaShape::AllOf {
            branches: vec![
                reference("#/components/schemas/Base"),
                inline(object(&[], vec![("name", inline(plain_text()))])),
            ],
        },
    };
    Model::discover(&mut ctx, "Derived", &derived).unwrap();
    let m = Model::get(&ctx, "Derived").unwrap();
    assert_eq!(m.properties.len(), 2);
    assert_eq!(m.properties[0].name, "id");
    assert!(m.properties[0].required);
    assert_eq!(m.properties[1].name, "name");
    assert!(!m.properties[1].required);
}

#[test]
fn all_of_forward_reference_is_fatal() {
    let mut ctx = Context::new();
    let derived = Schema {
        description: None,
        nullable: false,
        shape: SchemaShape::AllOf {
            branches: vec![reference("#/components/schemas/Missing")],
        },
    };
    let r = Model::discover(&mut ctx, "Derived", &derived);
    assert!(matches!(r, Err(Error::UnresolvedReference { .. })));
}

#[test]
fn one_of_labels_skip_reference_branches() {
    let mut ctx = Context::new();
    Model::discover(&mut ctx, "Known", &plain_text()).unwrap();
    let union = Schema {
        description: None,
        nullable: false,
        shape: SchemaShape::OneOf {
            branches: vec![
                reference("#/components/schemas/Known"),
                inline(object(&[], vec![("a", inline(plain_text()))])),
                inline(object(&[], vec![("b", inline(plain_text()))])),
            ],
        },
    };
    Model::discover(&mut ctx, "Parent", &union).unwrap();
    let m = Model::get(&ctx, "Parent").unwrap();
    match &m.enumeration {
        Some(Enumeration::Union(members)) => {
            assert_eq!(
                members,
                &vec![
                    "Known".to_string(),
                    "ParentAlpha".to_string(),
                    "ParentBeta".to_string()
                ]
            );
        },
        _ => panic!("expected a tagged union"),
    }
    assert!(Model::get(&ctx, "ParentAlpha").is_some());
    assert!(Model::get(&ctx, "ParentBeta").is_some());
}

#[test]
fn one_of_label_counter_not_advanced_by_middle_reference() {
    let mut ctx = Context::new();
    Model::discover(&mut ctx, "Known", &plain_text()).unwrap();
    let union = Schema {
        description: None,
        nullable: false,
        shape: SchemaShape::OneOf {
            branches: vec![
                inline(object(&[], vec![("a", inline(plain_text()))])),
                reference("#/components/schemas/Known"),
                inline(object(&[], vec![("b", inline(plain_text()))])),
            ],
        },
    };
    Model::discover(&mut ctx, "Parent", &union).unwrap();
    let m = Model::get(&ctx, "Parent").unwrap();
    match &m.enumeration {
        Some(Enumeration::Union(members)) => {
            assert_eq!(
                members,
                &vec![
                    "ParentAlpha".to_string(),
                    "Known".to_string(),
                    "ParentBeta".to_string()
                ]
            );
        },
        _ => panic!("expected a tagged union"),
    }
}

#[test]
fn one_of_with_too_many_inline_branches_is_fatal() {
    let mut ctx = Context::new();
    let branches: Vec<SchemaRef> = (0..25)
        .map(|_| inline(object(&[], vec![("v", inline(plain_text()))])))
        .collect();
    let union = Schema {
        description: None,
        nullable: false,
        shape: SchemaShape::OneOf { branches },
    };
    let r = Model::discover(&mut ctx, "Big", &union);
    assert!(matches!(r, Err(Error::LabelsExhausted { .. })));
}

#[test]
fn array_of_reference_is_list_alias() {
    let mut ctx = Context::new();
    let s = Schema {
        description: None,
        nullable: false,
        shape: SchemaShape::Array {
            items: Some(Box::new(reference("#/components/schemas/Item"))),
        },
    };
    Model::discover(&mut ctx, "Items", &s).unwrap();
    let m = Model::get(&ctx, "Items").unwrap();
    match &m.ty {
        Some(TypeRef::List(e)) => match &**e {
            TypeRef::Named(n) => assert_eq!(n, "Item"),
            _ => panic!("expected a named element"),
        },
        _ => panic!("expected a list alias"),
    }
}

#[test]
fn array_of_inline_enum_registers_item_model() {
    let mut ctx = Context::new();
    let s = Schema {
        description: None,
        nullable: false,
        shape: SchemaShape::Array {
            items: Some(Box::new(inline(text_enum(&["on", "off"])))),
        },
    };
    Model::discover(&mut ctx, "Switches", &s).unwrap();
    let m = Model::get(&ctx, "Switches").unwrap();
    match &m.ty {
        Some(TypeRef::List(e)) => match &**e {
            TypeRef::Named(n) => assert_eq!(n, "SwitchesItem"),
            _ => panic!("expected a named element"),
        },
        _ => panic!("expected a list alias"),
    }
    let item = Model::get(&ctx, "SwitchesItem").unwrap();
    assert!(matches!(item.enumeration, Some(Enumeration::Text(_))));
}

#[test]
fn array_without_items_is_fatal() {
    let mut ctx = Context::new();
    let s = Schema {
        description: None,
        nullable: false,
        shape: SchemaShape::Array { items: None },
    };
    let r = Model::discover(&mut ctx, "Items", &s);
    assert!(matches!(r, Err(Error::MissingArrayItems { .. })));
}

#[test]
fn colliding_all_of_properties_are_kept_and_observable() {
    let mut ctx = Context::new();
    Model::discover(&mut ctx, "Base", &object(&["id"], vec![("id", inline(plain_text()))]))
        .unwrap();
    let derived = Schema {
        description: None,
        nullable: false,
        shape: SchemaShape::AllOf {
            branches: vec![
                reference("#/components/schemas/Base"),
                inline(object(&[], vec![("id", inline(plain_text()))])),
            ],
        },
    };
    Model::discover(&mut ctx, "Derived", &derived).unwrap();
    let m = Model::get(&ctx, "Derived").unwrap();
    assert_eq!(m.properties.len(), 2);
    assert!(m.has_conflicting_properties());
    let base = Model::get(&ctx, "Base").unwrap();
    assert!(!base.has_conflicting_properties());
}

#[test]
fn array_of_booleans_is_unhandled() {
    let mut ctx = Context::new();
    let s = Schema {
        description: None,
        nullable: false,
        shape: SchemaShape::Array {
            items: Some(Box::new(inline(Schema {
                description: None,
                nullable: false,
                shape: SchemaShape::Boolean,
            }))),
        },
    };
    match Model::discover(&mut ctx, "Flags", &s) {
        Err(Error::UnhandledArrayType { name, kind }) => {
            assert_eq!(name, "FlagsItem");
            assert_eq!(kind, "boolean");
        },
        _ => panic!("expected the boolean element kind to be fatal"),
    }
}

#[test]
fn array_resolver_refuses_non_array_schemas() {
    let mut ctx = Context::new();
    let r = Array::discover(&mut ctx, "NotList", &plain_text());
    assert!(matches!(r, Err(Error::NotAnArray { .. })));
}

#[test]
fn all_of_branch_of_unsupported_shape_is_fatal() {
    let mut ctx = Context::new();
    let s = Schema {
        description: None,
        nullable: false,
        shape: SchemaShape::AllOf { branches: vec![inline(plain_text())] },
    };
    match Model::discover(&mut ctx, "Derived", &s) {
        Err(Error::UnhandledAllOfType { name, kind }) => {
            assert_eq!(name, "Derived");
            assert_eq!(kind, "string");
        },
        _ => panic!("expected the unsupported branch shape to be fatal"),
    }
}

#[test]
fn all_of_branch_holding_an_inline_union_is_fatal() {
    let mut ctx = Context::new();
    let s = Schema {
        description: None,
        nullable: false,
        shape: SchemaShape::AllOf {
            branches: vec![inline(Schema {
                description: None,
                nullable: false,
                shape: SchemaShape::OneOf {
                    branches: vec![reference("#/components/schemas/Known")],
                },
            })],
        },
    };
    match Model::discover(&mut ctx, "Derived", &s) {
        Err(Error::UnhandledAllOfType { name, kind }) => {
            assert_eq!(name, "Derived");
            assert_eq!(kind, "oneOf");
        },
        _ => panic!("expected the inline union branch to be fatal"),
    }
}

#[test]
fn model_setting_none_of_the_three_forms_is_invalid() {
    let mut ctx = Context::new();
    let r = Model::discover(&mut ctx, "Empty", &object(&[], vec![]));
    assert!(matches!(r, Err(Error::InvalidModel { .. })));
    assert!(Model::all(&ctx).is_empty());
}

#[test]
fn bare_boolean_model_is_unhandled() {
    let mut ctx = Context::new();
    let s = Schema { description: None, nullable: false, shape: SchemaShape::Boolean };
    match Model::discover(&mut ctx, "Flag", &s) {
        Err(Error::UnhandledKind { name, kind }) => {
            assert_eq!(name, "Flag");
            assert_eq!(kind, "boolean");
        },
        _ => panic!("expected the boolean kind to be fatal"),
    }
}

#[test]
fn boolean_property_is_plain_bool() {
    let mut ctx = Context::new();
    let schema = object(
        &["legacy_networking"],
        vec![(
            "legacy_networking",
            inline(Schema { description: None, nullable: false, shape: SchemaShape::Boolean }),
        )],
    );
    Model::discover(&mut ctx, "Features", &schema).unwrap();
    let m = Model::get(&ctx, "Features").unwrap();
    assert!(matches!(m.properties[0].ty, TypeRef::Boolean));
}
