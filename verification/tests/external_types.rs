use uniffi_grouping::{
    create_metadata_groups, fixup_external_type, ConstructorMetadata, EnumMetadata,
    ExternalKind, ExternalTypeConverter, FieldMetadata, FnMetadata, FnParamMetadata, GroupError,
    ItemIdentifier, Metadata, MetadataGroupMap, MethodMetadata, NamespaceMetadata,
    RecordMetadata, TraitMethodMetadata, Type, UdlFile, VariantMetadata,
};

fn namespace_item(crate_name: &str, name: &str) -> Metadata {
    Metadata::Namespace(NamespaceMetadata {
        crate_name: crate_name.to_string(),
        name: name.to_string(),
    })
}

fn groups() -> MetadataGroupMap {
    create_metadata_groups(&[
        namespace_item("foo", "foo_ns"),
        namespace_item("bar", "bar_ns"),
        namespace_item("anonymous", ""),
    ])
}

fn free() -> Vec<ItemIdentifier> {
    vec![ItemIdentifier::new("bar".to_string(), "Plain".to_string())]
}

fn named(mod_path: &str, name: &str) -> (String, String) {
    (mod_path.to_string(), name.to_string())
}

fn record_type(mod_path: &str, name: &str) -> Type {
    let (mod_path, name) = named(mod_path, name);
    Type::Record { mod_path, name }
}

fn external(
    namespace: &str,
    mod_path: &str,
    name: &str,
    kind: ExternalKind,
    contains_object_references: bool,
) -> Type {
    Type::External {
        namespace: namespace.to_string(),
        mod_path: mod_path.to_string(),
        name: name.to_string(),
        kind,
        tagged: false,
        contains_object_references,
    }
}

fn field(name: &str, ty: Type) -> FieldMetadata {
    FieldMetadata { name: name.to_string(), ty }
}

fn foo_record(fields: Vec<FieldMetadata>) -> Metadata {
    Metadata::Record(RecordMetadata {
        mod_path: "foo::inner".to_string(),
        name: "Item".to_string(),
        fields,
    })
}

fn resolve_field(ty: Type) -> Result<Type, GroupError> {
    match fixup_external_type(foo_record(vec![field("f", ty)]), &groups(), &free())? {
        Metadata::Record(mut meta) => Ok(meta.fields.remove(0).ty),
        other => panic!("not a record: {other:?}"),
    }
}

#[test]
fn record_of_another_library_is_stamped() {
    assert_eq!(
        Ok(external("bar_ns", "bar::inner", "Holder", ExternalKind::DataClass, true)),
        resolve_field(record_type("bar::inner", "Holder"))
    );
}

#[test]
fn reference_free_record_of_another_library() {
    assert_eq!(
        Ok(external("bar_ns", "bar", "Plain", ExternalKind::DataClass, false)),
        resolve_field(record_type("bar", "Plain"))
    );
}

#[test]
fn enum_of_another_library_is_stamped() {
    let (mod_path, name) = named("bar", "Plain");
    assert_eq!(
        Ok(external("bar_ns", "bar", "Plain", ExternalKind::DataClass, false)),
        resolve_field(Type::Enum { mod_path, name })
    );
    let (mod_path, name) = named("bar", "Choice");
    assert_eq!(
        Ok(external("bar_ns", "bar", "Choice", ExternalKind::DataClass, true)),
        resolve_field(Type::Enum { mod_path, name })
    );
}

#[test]
fn types_of_the_same_library_stay() {
    let (mod_path, name) = named("foo", "Obj");
    let types = vec![
        record_type("foo", "Own"),
        record_type("foo::other", "Own"),
        Type::Object { mod_path: mod_path.clone(), name: name.clone() },
        Type::CallbackInterface { mod_path: mod_path.clone(), name: name.clone() },
        Type::Enum { mod_path, name },
        Type::UInt8,
        Type::Float64,
        Type::String,
        Type::Bytes,
        Type::Timestamp,
        Type::Duration,
    ];
    for ty in types {
        assert_eq!(Ok(ty.clone()), resolve_field(ty));
    }
}

#[test]
fn custom_type_of_another_library_loses_its_builtin() {
    let (mod_path, name) = named("bar", "Url");
    assert_eq!(
        Ok(external("bar_ns", "bar", "Url", ExternalKind::DataClass, true)),
        resolve_field(Type::Custom { mod_path, name, builtin: Box::new(Type::String) })
    );
}

#[test]
fn builtin_of_an_own_custom_type_is_resolved() {
    let (mod_path, name) = named("foo", "Wrapper");
    let custom = |builtin: Type| Type::Custom {
        mod_path: mod_path.clone(),
        name: name.clone(),
        builtin: Box::new(builtin),
    };
    assert_eq!(
        Ok(custom(external("bar_ns", "bar", "Plain", ExternalKind::DataClass, false))),
        resolve_field(custom(record_type("bar", "Plain")))
    );
}

#[test]
fn object_of_another_library_becomes_an_interface() {
    let (mod_path, name) = named("bar", "Obj");
    assert_eq!(
        Ok(external("bar_ns", "bar", "Obj", ExternalKind::Interface, true)),
        resolve_field(Type::Object { mod_path, name })
    );
}

#[test]
fn callback_interface_of_another_library_is_refused() {
    let (mod_path, name) = named("bar::callbacks", "Listener");
    assert_eq!(
        Err(GroupError::ExternalCallbackInterface {
            mod_path: "bar::callbacks".to_string(),
            name: "Listener".to_string(),
        }),
        resolve_field(Type::CallbackInterface { mod_path, name })
    );
}

#[test]
fn type_of_an_unknown_library_is_refused() {
    assert_eq!(
        Err(GroupError::UnknownNamespace { crate_name: "missing".to_string() }),
        resolve_field(record_type("missing::inner", "R"))
    );
    let (mod_path, name) = named("missing", "Obj");
    assert_eq!(
        Err(GroupError::UnknownNamespace { crate_name: "missing".to_string() }),
        resolve_field(Type::Object { mod_path, name })
    );
}

#[test]
fn external_type_gets_its_namespace() {
    let unresolved = Type::External {
        namespace: String::new(),
        mod_path: "bar".to_string(),
        name: "T".to_string(),
        kind: ExternalKind::Interface,
        tagged: true,
        contains_object_references: false,
    };
    let resolved = Type::External {
        namespace: "bar_ns".to_string(),
        mod_path: "bar".to_string(),
        name: "T".to_string(),
        kind: ExternalKind::Interface,
        tagged: true,
        contains_object_references: false,
    };
    assert_eq!(Ok(resolved), resolve_field(unresolved));
    assert_eq!(
        Ok(external("foo_ns", "foo", "T", ExternalKind::DataClass, true)),
        resolve_field(external("", "foo", "T", ExternalKind::DataClass, true))
    );
}

#[test]
fn external_type_with_a_namespace_is_refused() {
    assert_eq!(
        Err(GroupError::ExternalAlreadyResolved {
            mod_path: "bar".to_string(),
            name: "T".to_string(),
        }),
        resolve_field(external("bar_ns", "bar", "T", ExternalKind::DataClass, true))
    );
}

#[test]
fn external_type_of_an_unknown_library_is_refused() {
    assert_eq!(
        Err(GroupError::UnknownNamespace { crate_name: "missing".to_string() }),
        resolve_field(external("", "missing", "T", ExternalKind::DataClass, true))
    );
}

#[test]
fn nested_types_are_resolved() {
    let nested = |inner: Type, value: Type| Type::Mapping {
        key_type: Box::new(Type::Optional { inner_type: Box::new(inner) }),
        value_type: Box::new(Type::Sequence { inner_type: Box::new(value) }),
    };
    let (mod_path, name) = named("bar", "Obj");
    assert_eq!(
        Ok(nested(
            external("bar_ns", "bar", "Plain", ExternalKind::DataClass, false),
            external("bar_ns", "bar", "Obj", ExternalKind::Interface, true),
        )),
        resolve_field(nested(record_type("bar", "Plain"), Type::Object { mod_path, name }))
    );
}

#[test]
fn first_error_among_nested_types_is_reported() {
    let (mod_path, name) = named("bar", "Listener");
    let mapping = Type::Mapping {
        key_type: Box::new(Type::CallbackInterface { mod_path, name }),
        value_type: Box::new(record_type("missing", "R")),
    };
    assert_eq!(
        Err(GroupError::ExternalCallbackInterface {
            mod_path: "bar".to_string(),
            name: "Listener".to_string(),
        }),
        resolve_field(mapping)
    );
}

#[test]
fn first_error_among_fields_is_reported() {
    let item = foo_record(vec![
        field("a", record_type("bar", "Plain")),
        field("b", record_type("missing", "R")),
        field("c", external("set", "bar", "T", ExternalKind::DataClass, true)),
    ]);
    assert_eq!(
        Err(GroupError::UnknownNamespace { crate_name: "missing".to_string() }),
        fixup_external_type(item, &groups(), &free())
    );
}

#[test]
fn function_types_are_resolved() {
    let function = |input: Type, return_type: Type, throws: Type| FnMetadata {
        mod_path: "foo".to_string(),
        name: "f".to_string(),
        inputs: vec![
            FnParamMetadata { name: "a".to_string(), ty: Type::UInt8 },
            FnParamMetadata { name: "b".to_string(), ty: input },
        ],
        return_type: Some(return_type),
        throws: Some(throws),
    };
    let (mod_path, name) = named("bar", "Error");
    assert_eq!(
        Ok(Metadata::Func(function(
            external("bar_ns", "bar", "Plain", ExternalKind::DataClass, false),
            external("bar_ns", "bar", "Holder", ExternalKind::DataClass, true),
            external("bar_ns", "bar", "Error", ExternalKind::DataClass, true),
        ))),
        fixup_external_type(
            Metadata::Func(function(
                record_type("bar", "Plain"),
                record_type("bar", "Holder"),
                Type::Enum { mod_path, name },
            )),
            &groups(),
            &free()
        )
    );
}

#[test]
fn method_and_constructor_types_are_resolved() {
    let inputs = |ty: Type| vec![FnParamMetadata { name: "a".to_string(), ty }];
    let resolved = external("bar_ns", "bar", "Plain", ExternalKind::DataClass, false);
    let method = |ty: Type| {
        Metadata::Method(MethodMetadata {
            mod_path: "foo".to_string(),
            self_name: "Obj".to_string(),
            name: "m".to_string(),
            inputs: inputs(ty.clone()),
            return_type: Some(ty.clone()),
            throws: None,
        })
    };
    let trait_method = |ty: Type| {
        Metadata::TraitMethod(TraitMethodMetadata {
            mod_path: "foo".to_string(),
            trait_name: "Tr".to_string(),
            name: "m".to_string(),
            inputs: inputs(ty.clone()),
            return_type: None,
            throws: Some(ty.clone()),
        })
    };
    let constructor = |ty: Type| {
        Metadata::Constructor(ConstructorMetadata {
            mod_path: "foo".to_string(),
            self_name: "Obj".to_string(),
            name: "new".to_string(),
            inputs: inputs(ty.clone()),
            return_type: None,
            throws: Some(ty.clone()),
        })
    };
    let unresolved = record_type("bar", "Plain");
    assert_eq!(
        Ok(method(resolved.clone())),
        fixup_external_type(method(unresolved.clone()), &groups(), &free())
    );
    assert_eq!(
        Ok(trait_method(resolved.clone())),
        fixup_external_type(trait_method(unresolved.clone()), &groups(), &free())
    );
    assert_eq!(
        Ok(constructor(resolved)),
        fixup_external_type(constructor(unresolved), &groups(), &free())
    );
}

#[test]
fn enum_variant_fields_are_resolved() {
    let enumeration = |ty: Type| {
        Metadata::Enum(EnumMetadata {
            mod_path: "foo".to_string(),
            name: "E".to_string(),
            variants: vec![
                VariantMetadata { name: "Empty".to_string(), fields: vec![] },
                VariantMetadata { name: "Full".to_string(), fields: vec![field("f", ty)] },
            ],
        })
    };
    assert_eq!(
        Ok(enumeration(external("bar_ns", "bar", "Holder", ExternalKind::DataClass, true))),
        fixup_external_type(enumeration(record_type("bar", "Holder")), &groups(), &free())
    );
}

#[test]
fn items_without_types_stay() {
    let udl = Metadata::UdlFile(UdlFile {
        mod_path: "foo".to_string(),
        namespace: "foo_ns".to_string(),
        file_stub: "foo".to_string(),
    });
    assert_eq!(Ok(udl.clone()), fixup_external_type(udl, &groups(), &free()));
    let namespace = namespace_item("unknown", "ns");
    assert_eq!(Ok(namespace.clone()), fixup_external_type(namespace, &groups(), &free()));
}

#[test]
fn item_is_resolved_as_an_item_of_its_own_library() {
    let item = |ty: Type| {
        Metadata::Record(RecordMetadata {
            mod_path: "bar::records".to_string(),
            name: "R".to_string(),
            fields: vec![field("a", ty)],
        })
    };
    assert_eq!(
        Ok(item(record_type("bar", "Plain"))),
        fixup_external_type(item(record_type("bar", "Plain")), &groups(), &free())
    );
    assert_eq!(
        Ok(item(external("foo_ns", "foo", "Own", ExternalKind::DataClass, true))),
        fixup_external_type(item(record_type("foo", "Own")), &groups(), &free())
    );
}

#[test]
fn resolving_twice_changes_nothing() {
    let (mod_path, name) = named("foo", "Obj");
    let item = foo_record(vec![
        field("a", record_type("foo", "Own")),
        field("b", Type::Optional { inner_type: Box::new(Type::Object { mod_path, name }) }),
        field("c", record_type("anonymous", "R")),
    ]);
    let once = fixup_external_type(item, &groups(), &free()).unwrap();
    let twice = fixup_external_type(once.clone(), &groups(), &free()).unwrap();
    assert_eq!(once, twice);
    assert_eq!(
        foo_record(vec![
            field("a", record_type("foo", "Own")),
            field(
                "b",
                Type::Optional {
                    inner_type: Box::new(Type::Object {
                        mod_path: "foo".to_string(),
                        name: "Obj".to_string(),
                    }),
                },
            ),
            field("c", external("", "anonymous", "R", ExternalKind::DataClass, true)),
        ]),
        twice
    );
}

#[test]
fn resolving_a_stamped_item_again_is_refused() {
    let item = foo_record(vec![field("a", record_type("bar", "Plain"))]);
    let once = fixup_external_type(item, &groups(), &free()).unwrap();
    assert_eq!(
        Err(GroupError::ExternalAlreadyResolved {
            mod_path: "bar".to_string(),
            name: "Plain".to_string(),
        }),
        fixup_external_type(once, &groups(), &free())
    );
}

#[test]
fn converter_resolves_for_the_library_it_is_given() {
    let group_map = groups();
    let types_without_obj_refs = free();
    let converter = ExternalTypeConverter {
        crate_name: "bar",
        crate_to_namespace: &group_map,
        types_without_obj_refs: &types_without_obj_refs,
    };
    assert!(converter.is_mod_path_external("foo::inner"));
    assert!(!converter.is_mod_path_external("bar::inner"));
    assert_eq!(Ok("foo_ns".to_string()), converter.crate_to_namespace("foo"));
    assert_eq!(
        Err(GroupError::UnknownNamespace { crate_name: "missing".to_string() }),
        converter.crate_to_namespace("missing")
    );
    assert_eq!(Ok(record_type("bar", "R")), converter.convert_type(record_type("bar", "R")));
    assert_eq!(
        Ok(Some(external("foo_ns", "foo", "R", ExternalKind::DataClass, true))),
        converter.convert_optional(Some(record_type("foo", "R")))
    );
    assert_eq!(Ok(None), converter.convert_optional(None));
    assert_eq!(Ok(vec![]), converter.convert_params(vec![]));
    assert_eq!(
        Ok(vec![field("f", external("foo_ns", "foo", "R", ExternalKind::DataClass, true))]),
        converter.convert_fields(vec![field("f", record_type("foo", "R"))])
    );
}
