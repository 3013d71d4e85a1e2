use uniffi_grouping::{
    compute_types_without_obj_refs, contains_identifier, EnumMetadata, FieldMetadata,
    ItemIdentifier, Metadata, NamespaceMetadata, ObjectMetadata, RecordMetadata, Type,
    VariantMetadata,
};

fn field(name: &str, ty: Type) -> FieldMetadata {
    FieldMetadata { name: name.to_string(), ty }
}

fn record(mod_path: &str, name: &str, fields: Vec<FieldMetadata>) -> Metadata {
    Metadata::Record(RecordMetadata {
        mod_path: mod_path.to_string(),
        name: name.to_string(),
        fields,
    })
}

fn enumeration(mod_path: &str, name: &str, variants: Vec<Vec<FieldMetadata>>) -> Metadata {
    Metadata::Enum(EnumMetadata {
        mod_path: mod_path.to_string(),
        name: name.to_string(),
        variants: variants
            .into_iter()
            .map(|fields| VariantMetadata { name: "V".to_string(), fields })
            .collect(),
    })
}

fn record_type(mod_path: &str, name: &str) -> Type {
    Type::Record { mod_path: mod_path.to_string(), name: name.to_string() }
}

fn enum_type(mod_path: &str, name: &str) -> Type {
    Type::Enum { mod_path: mod_path.to_string(), name: name.to_string() }
}

fn object_type(mod_path: &str, name: &str) -> Type {
    Type::Object { mod_path: mod_path.to_string(), name: name.to_string() }
}

fn is_free(free: &Vec<ItemIdentifier>, mod_path: &str, name: &str) -> bool {
    contains_identifier(free, mod_path, name)
}

#[test]
fn mutually_referencing_records_contain_a_reference() {
    let items = vec![
        record("m", "A", vec![field("b", record_type("m", "B"))]),
        record("m", "B", vec![field("a", record_type("m", "A"))]),
    ];
    let free = compute_types_without_obj_refs(&items);
    assert!(!is_free(&free, "m", "A"));
    assert!(!is_free(&free, "m", "B"));
    assert!(free.is_empty());
}

#[test]
fn self_referencing_record_contains_a_reference() {
    let items = vec![record(
        "m",
        "Node",
        vec![field("next", Type::Optional { inner_type: Box::new(record_type("m", "Node")) })],
    )];
    let free = compute_types_without_obj_refs(&items);
    assert!(!is_free(&free, "m", "Node"));
}

#[test]
fn record_that_depends_on_a_cycle_contains_a_reference() {
    let items = vec![
        record("m", "Outer", vec![field("a", record_type("m", "A"))]),
        record("m", "A", vec![field("b", record_type("m", "B"))]),
        record("m", "B", vec![field("a", record_type("m", "A"))]),
        record("m", "Plain", vec![field("n", Type::UInt8)]),
    ];
    let free = compute_types_without_obj_refs(&items);
    assert!(!is_free(&free, "m", "Outer"));
    assert!(!is_free(&free, "m", "A"));
    assert!(!is_free(&free, "m", "B"));
    assert!(is_free(&free, "m", "Plain"));
}

#[test]
fn acyclic_records_are_classified() {
    let items = vec![
        record("m", "C", vec![field("n", Type::UInt32), field("s", Type::String)]),
        record("m", "D", vec![field("c", record_type("m", "C"))]),
        record("m", "E", vec![field("o", object_type("m", "Obj"))]),
    ];
    let free = compute_types_without_obj_refs(&items);
    assert!(is_free(&free, "m", "C"));
    assert!(is_free(&free, "m", "D"));
    assert!(!is_free(&free, "m", "E"));
    assert_eq!(2, free.len());
}

#[test]
fn records_are_classified_in_any_order() {
    let items = vec![
        record("m", "D", vec![field("c", record_type("m", "C"))]),
        record("m", "F", vec![field("d", record_type("m", "D")), field("e", record_type("m", "E"))]),
        record("m", "E", vec![field("o", object_type("m", "Obj"))]),
        record("m", "C", vec![]),
    ];
    let free = compute_types_without_obj_refs(&items);
    assert!(is_free(&free, "m", "C"));
    assert!(is_free(&free, "m", "D"));
    assert!(!is_free(&free, "m", "E"));
    assert!(!is_free(&free, "m", "F"));
}

#[test]
fn nested_objects_are_found() {
    let nested = Type::Mapping {
        key_type: Box::new(Type::String),
        value_type: Box::new(Type::Sequence {
            inner_type: Box::new(Type::Optional { inner_type: Box::new(object_type("m", "Obj")) }),
        }),
    };
    let items = vec![
        record("m", "Holder", vec![field("n", Type::UInt8), field("objects", nested)]),
        record(
            "m",
            "Harmless",
            vec![field(
                "numbers",
                Type::Mapping {
                    key_type: Box::new(Type::String),
                    value_type: Box::new(Type::Sequence { inner_type: Box::new(Type::Int64) }),
                },
            )],
        ),
    ];
    let free = compute_types_without_obj_refs(&items);
    assert!(!is_free(&free, "m", "Holder"));
    assert!(is_free(&free, "m", "Harmless"));
}

#[test]
fn builtin_of_a_custom_type_is_not_looked_at() {
    let custom = Type::Custom {
        mod_path: "m".to_string(),
        name: "Handle".to_string(),
        builtin: Box::new(object_type("m", "Obj")),
    };
    let items = vec![record("m", "R", vec![field("h", custom)])];
    let free = compute_types_without_obj_refs(&items);
    assert!(is_free(&free, "m", "R"));
}

#[test]
fn callback_interfaces_hold_no_reference() {
    let callback =
        Type::CallbackInterface { mod_path: "m".to_string(), name: "Callback".to_string() };
    let items = vec![record("m", "R", vec![field("c", callback)])];
    let free = compute_types_without_obj_refs(&items);
    assert!(is_free(&free, "m", "R"));
}

#[test]
fn undefined_items_count_as_holding_a_reference() {
    let items = vec![
        record("m", "R", vec![field("x", record_type("other", "Missing"))]),
        record("m", "S", vec![field("x", enum_type("m", "AlsoMissing"))]),
    ];
    let free = compute_types_without_obj_refs(&items);
    assert!(!is_free(&free, "m", "R"));
    assert!(!is_free(&free, "m", "S"));
    assert!(!is_free(&free, "other", "Missing"));
}

#[test]
fn external_types_are_followed() {
    let external = |name: &str| Type::External {
        namespace: String::new(),
        mod_path: "other".to_string(),
        name: name.to_string(),
        kind: uniffi_grouping::ExternalKind::DataClass,
        tagged: false,
        contains_object_references: false,
    };
    let items = vec![
        record("m", "R", vec![field("x", external("Plain"))]),
        record("m", "S", vec![field("x", external("Holder"))]),
        record("other", "Plain", vec![field("n", Type::Boolean)]),
        record("other", "Holder", vec![field("o", object_type("other", "Obj"))]),
    ];
    let free = compute_types_without_obj_refs(&items);
    assert!(is_free(&free, "m", "R"));
    assert!(!is_free(&free, "m", "S"));
}

#[test]
fn enum_variants_are_flattened() {
    let items = vec![
        enumeration(
            "m",
            "Plain",
            vec![vec![], vec![field("n", Type::UInt8)], vec![field("s", Type::String)]],
        ),
        enumeration(
            "m",
            "Holder",
            vec![vec![field("n", Type::UInt8)], vec![field("o", object_type("m", "Obj"))]],
        ),
        record("m", "R", vec![field("e", enum_type("m", "Plain"))]),
        record("m", "S", vec![field("e", enum_type("m", "Holder"))]),
    ];
    let free = compute_types_without_obj_refs(&items);
    assert!(is_free(&free, "m", "Plain"));
    assert!(!is_free(&free, "m", "Holder"));
    assert!(is_free(&free, "m", "R"));
    assert!(!is_free(&free, "m", "S"));
}

#[test]
fn last_definition_counts() {
    let items = vec![
        record("m", "R", vec![field("o", object_type("m", "Obj"))]),
        record("m", "User", vec![field("r", record_type("m", "R"))]),
        record("m", "R", vec![field("n", Type::UInt8)]),
    ];
    let free = compute_types_without_obj_refs(&items);
    assert!(is_free(&free, "m", "R"));
    assert!(is_free(&free, "m", "User"));
}

#[test]
fn items_of_the_same_name_in_other_modules_differ() {
    let items = vec![
        record("a", "R", vec![field("o", object_type("a", "Obj"))]),
        record("b", "R", vec![field("n", Type::UInt8)]),
    ];
    let free = compute_types_without_obj_refs(&items);
    assert!(!is_free(&free, "a", "R"));
    assert!(is_free(&free, "b", "R"));
}

#[test]
fn other_items_are_not_classified() {
    let items = vec![
        Metadata::Namespace(NamespaceMetadata {
            crate_name: "m".to_string(),
            name: "m_ns".to_string(),
        }),
        Metadata::Object(ObjectMetadata { mod_path: "m".to_string(), name: "Obj".to_string() }),
    ];
    let free = compute_types_without_obj_refs(&items);
    assert!(free.is_empty());
    assert!(compute_types_without_obj_refs(&[]).is_empty());
}

#[test]
fn identifier_gives_its_parts() {
    let id = ItemIdentifier::new("m::inner".to_string(), "R".to_string());
    assert_eq!("m::inner", id.mod_path());
    assert_eq!("R", id.name());
    assert!(id.is("m::inner", "R"));
    assert!(!id.is("m", "R"));
    assert!(!id.is("m::inner", "S"));
    assert_eq!(id, id.clone());
}

#[test]
fn iter_types_flattens_composites() {
    let inner = Type::Optional { inner_type: Box::new(Type::UInt8) };
    let mapping = Type::Mapping {
        key_type: Box::new(Type::String),
        value_type: Box::new(inner.clone()),
    };
    let types = mapping.iter_types();
    assert_eq!(vec![&mapping, &Type::String, &inner, &Type::UInt8], types);
    let custom = Type::Custom {
        mod_path: "m".to_string(),
        name: "C".to_string(),
        builtin: Box::new(Type::UInt8),
    };
    assert_eq!(vec![&custom], custom.iter_types());
}

#[test]
fn types_are_compared_structurally() {
    let a = Type::Sequence { inner_type: Box::new(record_type("m", "R")) };
    let b = Type::Sequence { inner_type: Box::new(record_type("m", "R")) };
    let c = Type::Sequence { inner_type: Box::new(enum_type("m", "R")) };
    assert!(a.equals(&b));
    assert!(!a.equals(&c));
    assert!(!Type::UInt8.equals(&Type::Int8));
    assert!(a.clone().equals(&a));
    assert_eq!(a, a.duplicate());
}
