use uniffi_grouping::{
    create_metadata_groups, group_metadata, ExternalKind, FieldMetadata, FnMetadata,
    FnParamMetadata, GroupError, Metadata, MetadataGroup, MetadataGroupMap, NamespaceMetadata,
    ObjectMetadata, RecordMetadata, Type, UdlFile,
};

fn namespace(crate_name: &str, name: &str) -> NamespaceMetadata {
    NamespaceMetadata { crate_name: crate_name.to_string(), name: name.to_string() }
}

fn namespace_item(crate_name: &str, name: &str) -> Metadata {
    Metadata::Namespace(namespace(crate_name, name))
}

fn udl_item(mod_path: &str, namespace: &str) -> Metadata {
    Metadata::UdlFile(UdlFile {
        mod_path: mod_path.to_string(),
        namespace: namespace.to_string(),
        file_stub: "stub".to_string(),
    })
}

fn field(name: &str, ty: Type) -> FieldMetadata {
    FieldMetadata { name: name.to_string(), ty }
}

fn record(mod_path: &str, name: &str, fields: Vec<FieldMetadata>) -> Metadata {
    Metadata::Record(RecordMetadata {
        mod_path: mod_path.to_string(),
        name: name.to_string(),
        fields,
    })
}

fn object(mod_path: &str, name: &str) -> Metadata {
    Metadata::Object(ObjectMetadata { mod_path: mod_path.to_string(), name: name.to_string() })
}

fn record_type(mod_path: &str, name: &str) -> Type {
    Type::Record { mod_path: mod_path.to_string(), name: name.to_string() }
}

fn object_type(mod_path: &str, name: &str) -> Type {
    Type::Object { mod_path: mod_path.to_string(), name: name.to_string() }
}

fn external(
    namespace: &str,
    mod_path: &str,
    name: &str,
    kind: ExternalKind,
    contains_object_references: bool,
) -> Type {
    Type::External {
        namespace: namespace.to_string(),
        mod_path: mod_path.to_string(),
        name: name.to_string(),
        kind,
        tagged: false,
        contains_object_references,
    }
}

fn snapshot(groups: &MetadataGroupMap) -> Vec<(NamespaceMetadata, Vec<Metadata>)> {
    groups
        .groups()
        .iter()
        .map(|group| (group.namespace().clone(), group.items().clone()))
        .collect()
}

#[test]
fn groups_are_created_for_declared_namespaces() {
    let groups = create_metadata_groups(&[
        record("foo", "R", vec![]),
        namespace_item("foo", "foo_ns"),
        udl_item("bar", "bar_ns"),
        object("baz", "Obj"),
    ]);
    assert_eq!(2, groups.len());
    let foo = groups.get("foo").unwrap();
    assert_eq!(&namespace("foo", "foo_ns"), foo.namespace());
    assert_eq!(&None, foo.namespace_docstring());
    assert_eq!(0, foo.len());
    assert!(foo.items().is_empty());
    let bar = groups.get("bar").unwrap();
    assert_eq!(&namespace("bar", "bar_ns"), bar.namespace());
    assert_eq!(0, bar.len());
    assert!(groups.get("baz").is_none());
    assert!(groups.get("foo_ns").is_none());
    assert!(groups.contains_key("foo"));
    assert!(!groups.contains_key("baz"));
}

#[test]
fn no_groups_without_declarations() {
    assert_eq!(0, create_metadata_groups(&[]).len());
    assert_eq!(0, create_metadata_groups(&[record("foo", "R", vec![])]).len());
    assert_eq!(0, MetadataGroupMap::new().len());
}

#[test]
fn later_declaration_of_a_library_counts() {
    let groups = create_metadata_groups(&[
        namespace_item("foo", "first"),
        namespace_item("bar", "bar_ns"),
        udl_item("foo", "second"),
    ]);
    assert_eq!(2, groups.len());
    assert_eq!(&namespace("foo", "second"), groups.get("foo").unwrap().namespace());
    assert_eq!(&namespace("bar", "bar_ns"), groups.get("bar").unwrap().namespace());
}

#[test]
fn libraries_may_share_a_public_name() {
    let groups =
        create_metadata_groups(&[namespace_item("foo", "shared"), namespace_item("bar", "shared")]);
    assert_eq!(2, groups.len());
    assert_eq!("shared", groups.get("foo").unwrap().namespace().name);
    assert_eq!("shared", groups.get("bar").unwrap().namespace().name);
}

#[test]
fn inserting_a_group_replaces_the_one_of_its_library() {
    let mut groups = create_metadata_groups(&[namespace_item("foo", "old")]);
    let mut group = MetadataGroup::new(namespace("foo", "new"));
    group.add_item(object("foo", "Obj")).unwrap();
    groups.insert(group);
    groups.insert(MetadataGroup::new(namespace("bar", "bar_ns")));
    assert_eq!(2, groups.len());
    assert_eq!("new", groups.get("foo").unwrap().namespace().name);
    assert_eq!(1, groups.get("foo").unwrap().len());
    let all = groups.into_groups();
    assert_eq!(2, all.len());
    assert_eq!("foo", all[0].namespace().crate_name);
    assert_eq!("bar", all[1].namespace().crate_name);
}

#[test]
fn items_are_assigned_to_the_group_of_their_library() {
    let items = vec![
        namespace_item("foo", "foo_ns"),
        namespace_item("bar", "bar_ns"),
        record("foo::records", "A", vec![field("n", Type::UInt8)]),
        record("bar", "B", vec![field("s", Type::String)]),
        object("foo", "Obj"),
        udl_item("bar", "bar_ns"),
    ];
    let mut groups = create_metadata_groups(&items);
    assert_eq!(Ok(()), group_metadata(&mut groups, items));
    assert_eq!(2, groups.len());
    let foo = groups.get("foo").unwrap();
    assert_eq!(
        &vec![record("foo::records", "A", vec![field("n", Type::UInt8)]), object("foo", "Obj")],
        foo.items()
    );
    let bar = groups.get("bar").unwrap();
    assert_eq!(
        &vec![record("bar", "B", vec![field("s", Type::String)]), udl_item("bar", "bar_ns")],
        bar.items()
    );
    assert!(!foo.contains(&namespace_item("foo", "foo_ns")));
}

#[test]
fn two_libraries_do_not_mix() {
    let foo_items = vec![
        record("foo", "A", vec![field("b", record_type("foo", "B"))]),
        record("foo", "B", vec![field("n", Type::UInt8)]),
    ];
    let bar_items = vec![
        record("bar", "A", vec![field("o", object_type("bar", "Obj"))]),
        object("bar", "Obj"),
        record("bar", "C", vec![field("a", record_type("bar", "A"))]),
    ];
    let mut items = vec![namespace_item("foo", "foo_ns"), namespace_item("bar", "bar_ns")];
    items.push(bar_items[0].clone());
    items.push(foo_items[0].clone());
    items.push(bar_items[1].clone());
    items.push(foo_items[1].clone());
    items.push(bar_items[2].clone());
    let mut groups = create_metadata_groups(&items);
    group_metadata(&mut groups, items).unwrap();
    assert_eq!(2, groups.len());
    assert_eq!(&foo_items, groups.get("foo").unwrap().items());
    assert_eq!(&bar_items, groups.get("bar").unwrap().items());
    for item in &foo_items {
        assert!(!groups.get("bar").unwrap().contains(item));
    }
    for item in &bar_items {
        assert!(!groups.get("foo").unwrap().contains(item));
    }
}

#[test]
fn types_of_other_libraries_are_resolved_while_grouping() {
    let items = vec![
        namespace_item("ffi_types", "ffi_types_ns"),
        namespace_item("base", "base_ns"),
        record("ffi_types", "Id", vec![field("value", Type::UInt32)]),
        object("ffi_types", "IdWrapper"),
        record(
            "ffi_types",
            "IdWrapperContainer",
            vec![field("wrapper", object_type("ffi_types", "IdWrapper"))],
        ),
        record("base", "MyCustomType", vec![field("id", record_type("ffi_types", "Id"))]),
        record(
            "base",
            "MyCustomTypeUser",
            vec![
                field("my_custom_type", record_type("base", "MyCustomType")),
                field("id_wrapper", object_type("ffi_types", "IdWrapper")),
            ],
        ),
        record(
            "base",
            "MyCustomTypeBidule",
            vec![
                field("my_custom_type", record_type("base", "MyCustomType")),
                field("id_wrapper", record_type("ffi_types", "IdWrapperContainer")),
            ],
        ),
    ];
    let mut groups = create_metadata_groups(&items);
    group_metadata(&mut groups, items.clone()).unwrap();
    assert_eq!(&items[2..5].to_vec(), groups.get("ffi_types").unwrap().items());
    let expected = vec![
        record(
            "base",
            "MyCustomType",
            vec![field(
                "id",
                external("ffi_types_ns", "ffi_types", "Id", ExternalKind::DataClass, false),
            )],
        ),
        record(
            "base",
            "MyCustomTypeUser",
            vec![
                field("my_custom_type", record_type("base", "MyCustomType")),
                field(
                    "id_wrapper",
                    external(
                        "ffi_types_ns",
                        "ffi_types",
                        "IdWrapper",
                        ExternalKind::Interface,
                        true,
                    ),
                ),
            ],
        ),
        record(
            "base",
            "MyCustomTypeBidule",
            vec![
                field("my_custom_type", record_type("base", "MyCustomType")),
                field(
                    "id_wrapper",
                    external(
                        "ffi_types_ns",
                        "ffi_types",
                        "IdWrapperContainer",
                        ExternalKind::DataClass,
                        true,
                    ),
                ),
            ],
        ),
    ];
    assert_eq!(&expected, groups.get("base").unwrap().items());
}

#[test]
fn item_of_an_undeclared_library_leaves_the_groups_unchanged() {
    let mut groups =
        create_metadata_groups(&[namespace_item("foo", "foo_ns"), namespace_item("bar", "bar_ns")]);
    group_metadata(&mut groups, vec![record("foo", "Kept", vec![])]).unwrap();
    let before = snapshot(&groups);
    let items = vec![
        record("foo", "A", vec![]),
        record("bar", "B", vec![]),
        record("missing::inner", "C", vec![]),
        record("foo", "D", vec![]),
    ];
    assert_eq!(
        Err(GroupError::UnknownNamespace { crate_name: "missing".to_string() }),
        group_metadata(&mut groups, items)
    );
    assert_eq!(before, snapshot(&groups));
    assert_eq!(1, groups.get("foo").unwrap().len());
    assert_eq!(0, groups.get("bar").unwrap().len());
}

#[test]
fn namespace_declarations_are_skipped_when_assigning() {
    let mut groups = create_metadata_groups(&[namespace_item("foo", "foo_ns")]);
    assert_eq!(Ok(()), group_metadata(&mut groups, vec![namespace_item("undeclared", "ns")]));
    assert_eq!(1, groups.len());
    assert_eq!(0, groups.get("foo").unwrap().len());
}

#[test]
fn duplicate_item_is_refused() {
    let mut groups = create_metadata_groups(&[namespace_item("foo", "foo_ns")]);
    let item = record("foo", "A", vec![field("n", Type::UInt8)]);
    assert_eq!(Ok(()), group_metadata(&mut groups, vec![item.clone()]));
    assert_eq!(1, groups.get("foo").unwrap().len());
    assert_eq!(
        Err(GroupError::DuplicateItem { item: item.clone() }),
        group_metadata(&mut groups, vec![record("foo", "Other", vec![]), item.clone()])
    );
    assert_eq!(1, groups.get("foo").unwrap().len());
    assert_eq!(&vec![item], groups.get("foo").unwrap().items());
}

#[test]
fn duplicate_within_one_call_is_refused() {
    let mut groups = create_metadata_groups(&[namespace_item("foo", "foo_ns")]);
    let item = object("foo", "Obj");
    assert_eq!(
        Err(GroupError::DuplicateItem { item: item.clone() }),
        group_metadata(&mut groups, vec![item.clone(), item])
    );
    assert_eq!(0, groups.get("foo").unwrap().len());
}

#[test]
fn items_that_differ_in_a_type_are_no_duplicates() {
    let mut groups = create_metadata_groups(&[namespace_item("foo", "foo_ns")]);
    let function = |ty: Type| {
        Metadata::Func(FnMetadata {
            mod_path: "foo".to_string(),
            name: "f".to_string(),
            inputs: vec![FnParamMetadata { name: "a".to_string(), ty }],
            return_type: None,
            throws: None,
        })
    };
    assert_eq!(
        Ok(()),
        group_metadata(&mut groups, vec![function(Type::UInt8), function(Type::Int8)])
    );
    assert_eq!(2, groups.get("foo").unwrap().len());
}

#[test]
fn duplicates_are_told_after_resolution() {
    let mut groups =
        create_metadata_groups(&[namespace_item("foo", "foo_ns"), namespace_item("bar", "bar_ns")]);
    let unresolved = record("foo", "A", vec![field("b", record_type("bar", "B"))]);
    let resolved = record(
        "foo",
        "A",
        vec![field("b", external("bar_ns", "bar", "B", ExternalKind::DataClass, true))],
    );
    group_metadata(&mut groups, vec![unresolved.clone()]).unwrap();
    assert_eq!(
        Err(GroupError::DuplicateItem { item: resolved.clone() }),
        group_metadata(&mut groups, vec![unresolved])
    );
    assert_eq!(&vec![resolved], groups.get("foo").unwrap().items());
}

#[test]
fn callback_interface_of_another_library_leaves_the_groups_unchanged() {
    let mut groups =
        create_metadata_groups(&[namespace_item("foo", "foo_ns"), namespace_item("bar", "bar_ns")]);
    let callback =
        Type::CallbackInterface { mod_path: "bar".to_string(), name: "Listener".to_string() };
    let items = vec![record("bar", "B", vec![]), record("foo", "A", vec![field("c", callback)])];
    assert_eq!(
        Err(GroupError::ExternalCallbackInterface {
            mod_path: "bar".to_string(),
            name: "Listener".to_string(),
        }),
        group_metadata(&mut groups, items)
    );
    assert_eq!(0, groups.get("foo").unwrap().len());
    assert_eq!(0, groups.get("bar").unwrap().len());
}

#[test]
fn reference_freedom_is_decided_over_all_items() {
    let items = vec![
        namespace_item("foo", "foo_ns"),
        namespace_item("bar", "bar_ns"),
        record("foo", "User", vec![field("p", record_type("bar", "Plain"))]),
        record("bar", "Plain", vec![field("n", Type::UInt8)]),
    ];
    let mut groups = create_metadata_groups(&items);
    group_metadata(&mut groups, items).unwrap();
    assert_eq!(
        &vec![record(
            "foo",
            "User",
            vec![field("p", external("bar_ns", "bar", "Plain", ExternalKind::DataClass, false))],
        )],
        groups.get("foo").unwrap().items()
    );
}

#[test]
fn adding_an_item_twice_is_refused() {
    let mut group = MetadataGroup::new(namespace("foo", "foo_ns"));
    let item = record("foo::inner", "A", vec![]);
    assert_eq!(Ok(()), group.add_item(item.clone()));
    assert_eq!(1, group.len());
    assert_eq!(Err(GroupError::DuplicateItem { item: item.clone() }), group.add_item(item.clone()));
    assert_eq!(1, group.len());
    assert!(group.contains(&item));
    assert_eq!(Ok(()), group.add_item(record("foo::inner", "B", vec![])));
    assert_eq!(2, group.len());
}

#[test]
fn adding_an_item_of_another_library_is_refused() {
    let mut group = MetadataGroup::new(namespace("foo", "foo_ns"));
    assert_eq!(
        Err(GroupError::ItemOutsideLibrary {
            crate_name: "bar".to_string(),
            library: "foo".to_string(),
        }),
        group.add_item(record("bar::inner", "A", vec![]))
    );
    assert_eq!(0, group.len());
    assert!(!group.contains(&record("bar::inner", "A", vec![])));
}

#[test]
fn namespace_docstring_can_be_set() {
    let mut group = MetadataGroup::new(namespace("foo", "foo_ns"));
    group.add_item(object("foo", "Obj")).unwrap();
    group.set_namespace_docstring(Some("All of foo.".to_string()));
    assert_eq!(&Some("All of foo.".to_string()), group.namespace_docstring());
    assert_eq!(1, group.len());
    assert_eq!(&namespace("foo", "foo_ns"), group.namespace());
}

#[test]
fn items_are_compared_structurally() {
    let a = record("foo", "A", vec![field("n", Type::UInt8)]);
    assert!(a.equals(&a.clone()));
    assert!(!a.equals(&record("foo", "A", vec![field("m", Type::UInt8)])));
    assert!(!a.equals(&record("foo", "A", vec![])));
    assert!(!a.equals(&object("foo", "A")));
    assert!(namespace_item("foo", "ns").equals(&namespace_item("foo", "ns")));
    assert!(!namespace_item("foo", "ns").equals(&udl_item("foo", "ns")));
    assert_eq!("foo", a.mod_path());
    assert_eq!("foo", namespace_item("foo", "ns").mod_path());
}
