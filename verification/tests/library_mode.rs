use uniffi_grouping::{
    calc_cdylib_name, calc_crate_name, cdylib_name_from_file_name, find_package_by_crate_name,
    find_udl_file, group_library_items, GroupError, LibraryModeError, Metadata, MetadataGroup,
    NamespaceMetadata, RecordMetadata, Source, UdlFile,
};

fn namespace(crate_name: &str, name: &str) -> NamespaceMetadata {
    NamespaceMetadata { crate_name: crate_name.to_string(), name: name.to_string() }
}

fn udl(mod_path: &str, namespace: &str, file_stub: &str) -> UdlFile {
    UdlFile {
        mod_path: mod_path.to_string(),
        namespace: namespace.to_string(),
        file_stub: file_stub.to_string(),
    }
}

fn record(mod_path: &str, name: &str) -> Metadata {
    Metadata::Record(RecordMetadata {
        mod_path: mod_path.to_string(),
        name: name.to_string(),
        fields: vec![],
    })
}

#[test]
fn calc_cdylib_name_is_correct() {
    assert_eq!(
        "uniffi",
        calc_cdylib_name("/path/to/libuniffi.so".into()).unwrap()
    );
    assert_eq!(
        "uniffi",
        calc_cdylib_name("/path/to/libuniffi.dylib".into()).unwrap()
    );
    assert_eq!(
        "uniffi",
        calc_cdylib_name("/path/to/uniffi.dll".into()).unwrap()
    );
}

#[test]
fn calc_cdylib_name_takes_the_final_component() {
    assert_eq!(Some("b"), calc_cdylib_name("liba.so/libb.so"));
    assert_eq!(Some("uniffi"), calc_cdylib_name("libuniffi.so"));
    assert_eq!(Some("uniffi"), calc_cdylib_name("/path/to/libuniffi.so/"));
}

#[test]
fn calc_cdylib_name_without_a_file_name() {
    assert_eq!(None, calc_cdylib_name("/"));
    assert_eq!(None, calc_cdylib_name(""));
    assert_eq!(None, calc_cdylib_name("/path/to/.."));
}

#[test]
fn calc_cdylib_name_of_other_files() {
    assert_eq!(None, calc_cdylib_name("/path/to/libuniffi.a"));
    assert_eq!(None, calc_cdylib_name("/path/to/uniffi"));
    assert_eq!(None, calc_cdylib_name("/path/to/uniffi.so.1"));
}

#[test]
fn cdylib_name_strips_prefix_and_extension() {
    assert_eq!(Some("uniffi"), cdylib_name_from_file_name("libuniffi.so"));
    assert_eq!(Some("uniffi"), cdylib_name_from_file_name("libuniffi.dylib"));
    assert_eq!(Some("uniffi"), cdylib_name_from_file_name("uniffi.dll"));
    assert_eq!(Some("uniffi"), cdylib_name_from_file_name("uniffi.so"));
}

#[test]
fn cdylib_name_strips_the_lib_prefix_of_a_dll_too() {
    assert_eq!(Some("uniffi"), cdylib_name_from_file_name("libuniffi.dll"));
}

#[test]
fn cdylib_name_strips_one_prefix_and_one_extension() {
    assert_eq!(Some("libuniffi"), cdylib_name_from_file_name("liblibuniffi.so"));
    assert_eq!(Some("uniffi.so"), cdylib_name_from_file_name("uniffi.so.dll"));
    assert_eq!(Some(""), cdylib_name_from_file_name("lib.so"));
    assert_eq!(Some(""), cdylib_name_from_file_name(".dylib"));
}

#[test]
fn cdylib_name_of_other_file_names() {
    assert_eq!(None, cdylib_name_from_file_name("libuniffi.a"));
    assert_eq!(None, cdylib_name_from_file_name("libuniffi"));
    assert_eq!(None, cdylib_name_from_file_name(""));
    assert_eq!(None, cdylib_name_from_file_name("lib"));
    assert_eq!(None, cdylib_name_from_file_name("so"));
    assert_eq!(None, cdylib_name_from_file_name("uniffi.SO"));
}

#[test]
fn crate_name_is_the_leading_segment() {
    assert_eq!("foo", calc_crate_name("foo::bar::baz"));
    assert_eq!("foo", calc_crate_name("foo::bar"));
    assert_eq!("foo", calc_crate_name("foo"));
    assert_eq!("", calc_crate_name(""));
    assert_eq!("", calc_crate_name("::foo"));
    assert_eq!("foo", calc_crate_name("foo:::bar"));
    assert_eq!("foo:bar", calc_crate_name("foo:bar::baz"));
    assert_eq!("foo:bar", calc_crate_name("foo:bar"));
}

#[test]
fn package_is_found_by_crate_name() {
    let packages = vec![
        vec!["other".to_string()],
        vec!["build-script".to_string(), "my-crate".to_string()],
        vec![],
    ];
    assert_eq!(Ok(1), find_package_by_crate_name(&packages, "my_crate"));
    assert_eq!(Ok(0), find_package_by_crate_name(&packages, "other"));
}

#[test]
fn package_target_names_are_compared_with_underscores() {
    let packages = vec![vec!["a-b-c".to_string()], vec!["a_b-d".to_string()]];
    assert_eq!(Ok(0), find_package_by_crate_name(&packages, "a_b_c"));
    assert_eq!(Ok(1), find_package_by_crate_name(&packages, "a_b_d"));
    assert_eq!(
        Err(LibraryModeError::PackagesFound { count: 0, crate_name: "a-b-c".to_string() }),
        find_package_by_crate_name(&packages, "a-b-c")
    );
}

#[test]
fn package_must_be_the_only_one() {
    let packages = vec![
        vec!["my_crate".to_string()],
        vec!["other".to_string()],
        vec!["my-crate".to_string(), "my_crate".to_string()],
    ];
    assert_eq!(
        Err(LibraryModeError::PackagesFound { count: 2, crate_name: "my_crate".to_string() }),
        find_package_by_crate_name(&packages, "my_crate")
    );
    assert_eq!(
        Err(LibraryModeError::PackagesFound { count: 0, crate_name: "missing".to_string() }),
        find_package_by_crate_name(&packages, "missing")
    );
    assert_eq!(
        Err(LibraryModeError::PackagesFound { count: 0, crate_name: "any".to_string() }),
        find_package_by_crate_name(&vec![], "any")
    );
}

#[test]
fn group_without_udl_file() {
    let mut group = MetadataGroup::new(namespace("foo", "foo_ns"));
    group.add_item(record("foo", "R")).unwrap();
    assert_eq!(Ok(None), find_udl_file(&group, "foo"));
}

#[test]
fn group_with_one_udl_file() {
    let mut group = MetadataGroup::new(namespace("foo", "foo_ns"));
    group.add_item(record("foo", "R")).unwrap();
    group.add_item(Metadata::UdlFile(udl("foo", "foo_ns", "foo_stub"))).unwrap();
    let expected = udl("foo", "foo_ns", "foo_stub");
    assert_eq!(Ok(Some(&expected)), find_udl_file(&group, "foo"));
}

#[test]
fn group_with_udl_file_of_another_crate() {
    let mut group = MetadataGroup::new(namespace("foo", "foo_ns"));
    group.add_item(Metadata::UdlFile(udl("foo", "foo_ns", "foo_stub"))).unwrap();
    assert_eq!(
        Err(LibraryModeError::UdlCrateMismatch {
            udl_crate: "foo".to_string(),
            crate_name: "bar".to_string(),
        }),
        find_udl_file(&group, "bar")
    );
}

#[test]
fn group_with_several_udl_files() {
    let mut group = MetadataGroup::new(namespace("foo", "foo_ns"));
    group.add_item(Metadata::UdlFile(udl("foo", "foo_ns", "one"))).unwrap();
    group.add_item(record("foo", "R")).unwrap();
    group.add_item(Metadata::UdlFile(udl("foo", "foo_ns", "two"))).unwrap();
    assert_eq!(
        Err(LibraryModeError::UdlFilesFound { count: 2, crate_name: "foo".to_string() }),
        find_udl_file(&group, "foo")
    );
}

#[test]
fn library_items_are_grouped_by_library() {
    let items = vec![
        record("foo", "A"),
        Metadata::Namespace(namespace("foo", "foo_ns")),
        Metadata::Namespace(namespace("bar", "bar_ns")),
        record("bar::inner", "B"),
    ];
    let groups = group_library_items(items).unwrap();
    assert_eq!(2, groups.len());
    assert!(groups.get("foo").unwrap().contains(&record("foo", "A")));
    assert!(groups.get("bar").unwrap().contains(&record("bar::inner", "B")));
    assert_eq!(1, groups.get("foo").unwrap().len());
    assert_eq!(1, groups.get("bar").unwrap().len());
}

#[test]
fn library_items_of_an_undeclared_library() {
    let items = vec![Metadata::Namespace(namespace("foo", "foo_ns")), record("bar", "B")];
    assert_eq!(
        Err(GroupError::UnknownNamespace { crate_name: "bar".to_string() }),
        group_library_items(items).map(|groups| groups.len())
    );
}

#[test]
fn source_holds_its_parts() {
    let source = Source { crate_name: "foo".to_string(), ci: 7u8, config: "config" };
    assert_eq!("foo", source.crate_name);
    assert_eq!(7, source.ci);
    assert_eq!("config", source.config);
}
