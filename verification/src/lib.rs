pub mod error;
pub mod external_types;
pub mod group;
pub mod library_mode;
pub mod metadata;
pub mod object_refs;
pub mod sequences;
pub mod strings;
pub mod types;

pub use error::{GroupError, LibraryModeError};
pub use external_types::{fixup_external_type, ExternalTypeConverter};
pub use group::{create_metadata_groups, group_metadata, MetadataGroup, MetadataGroupMap};
pub use library_mode::{
    calc_cdylib_name, cdylib_name_from_file_name, find_package_by_crate_name, find_udl_file,
    group_library_items, Source,
};
pub use metadata::{
    CallbackInterfaceMetadata, ConstructorMetadata, EnumMetadata, FieldMetadata, FnMetadata,
    FnParamMetadata, Metadata, MethodMetadata, NamespaceMetadata, ObjectMetadata, RecordMetadata,
    TraitMethodMetadata, UdlFile, VariantMetadata,
};
pub use object_refs::{compute_types_without_obj_refs, contains_identifier, ItemIdentifier};
pub use strings::calc_crate_name;
pub use types::{ExternalKind, Type};
