//! Resolution of external types: every type that an item refers to and that
//! another library owns becomes an explicit external type, stamped with the
//! namespace of the library that owns it.

use crate::error::{GroupError, GroupErrorView};
use crate::group::{MetadataGroupMap, MetadataGroupView};
use crate::metadata::{
    field_views, optional_type_view, param_views, variant_views, ConstructorMetadata,
    ConstructorView, EnumMetadata, EnumView, FieldMetadata, FieldView, FnMetadata,
    FnParamMetadata, FnParamView, FnView, Metadata, MetadataView, MethodMetadata, MethodView,
    RecordMetadata, RecordView, TraitMethodMetadata, TraitMethodView, VariantMetadata,
    VariantView,
};
use crate::object_refs::{contains_identifier, identifier_set, ItemIdView, ItemIdentifier};
use crate::strings::{calc_crate_name, crate_name_of, str_eq};
use crate::types::{ExternalKind, Type, TypeView};
use vstd::prelude::*;

verus! {

/// What a resolution goes by: the library that owns the item being resolved,
/// the groups of all libraries, and the records and enums known to hold no
/// object reference.
pub struct Resolution {
    pub crate_name: Seq<char>,
    pub groups: Map<Seq<char>, MetadataGroupView>,
    pub free: Set<ItemIdView>,
}

impl Resolution {
    /// Whether a module path belongs to another library than the one being
    /// resolved.
    pub open spec fn is_external(self, mod_path: Seq<char>) -> bool {
        crate_name_of(mod_path) != self.crate_name
    }

    /// The external type for the item `name` under `mod_path`, stamped with
    /// the namespace of the library that owns it; an error where that
    /// library is unknown.
    pub open spec fn external(
        self,
        mod_path: Seq<char>,
        name: Seq<char>,
        kind: ExternalKind,
        tagged: bool,
        contains_object_references: bool,
    ) -> Result<TypeView, GroupErrorView> {
        let owner = crate_name_of(mod_path);
        if self.groups.contains_key(owner) {
            Ok(
                TypeView::External {
                    namespace: self.groups[owner].namespace.name,
                    mod_path,
                    name,
                    kind,
                    tagged,
                    contains_object_references,
                },
            )
        } else {
            Err(GroupErrorView::UnknownNamespace { crate_name: owner })
        }
    }

    /// The resolved form of a type.
    ///
    /// A record or enum of another library becomes an external data class
    /// that holds object references unless it is known to hold none. A
    /// custom type of another library becomes an external data class, an
    /// object one an external interface; both count as holding object
    /// references. A callback interface of another library is an error. An
    /// external type gets its namespace stamped; one that has a namespace
    /// already is an error. Types nested in a custom type of this library,
    /// an optional, a sequence or a mapping are resolved in turn, and the
    /// first error among them is the result. Everything else stays.
    pub open spec fn resolve_type(self, t: TypeView) -> Result<TypeView, GroupErrorView>
        decreases t,
    {
        match t {
            TypeView::Record { mod_path, name } => if self.is_external(mod_path) {
                self.external(
                    mod_path,
                    name,
                    ExternalKind::DataClass,
                    false,
                    !self.free.contains(ItemIdView { mod_path, name }),
                )
            } else {
                Ok(t)
            },
            TypeView::Enum { mod_path, name } => if self.is_external(mod_path) {
                self.external(
                    mod_path,
                    name,
                    ExternalKind::DataClass,
                    false,
                    !self.free.contains(ItemIdView { mod_path, name }),
                )
            } else {
                Ok(t)
            },
            TypeView::Custom { mod_path, name, builtin } => if self.is_external(mod_path) {
                self.external(mod_path, name, ExternalKind::DataClass, false, true)
            } else {
                match self.resolve_type(*builtin) {
                    Ok(resolved) => Ok(
                        TypeView::Custom { mod_path, name, builtin: Box::new(resolved) },
                    ),
                    Err(e) => Err(e),
                }
            },
            TypeView::Object { mod_path, name } => if self.is_external(mod_path) {
                self.external(mod_path, name, ExternalKind::Interface, false, true)
            } else {
                Ok(t)
            },
            TypeView::CallbackInterface { mod_path, name } => if self.is_external(mod_path) {
                Err(GroupErrorView::ExternalCallbackInterface { mod_path, name })
            } else {
                Ok(t)
            },
            TypeView::Optional { inner_type } => match self.resolve_type(*inner_type) {
                Ok(resolved) => Ok(TypeView::Optional { inner_type: Box::new(resolved) }),
                Err(e) => Err(e),
            },
            TypeView::Sequence { inner_type } => match self.resolve_type(*inner_type) {
                Ok(resolved) => Ok(TypeView::Sequence { inner_type: Box::new(resolved) }),
                Err(e) => Err(e),
            },
            TypeView::Mapping { key_type, value_type } => match self.resolve_type(*key_type) {
                Ok(key) => match self.resolve_type(*value_type) {
                    Ok(value) => Ok(
                        TypeView::Mapping { key_type: Box::new(key), value_type: Box::new(value) },
                    ),
                    Err(e) => Err(e),
                },
                Err(e) => Err(e),
            },
            TypeView::External {
                namespace,
                mod_path,
                name,
                kind,
                tagged,
                contains_object_references,
            } => if namespace.len() != 0 {
                Err(GroupErrorView::ExternalAlreadyResolved { mod_path, name })
            } else {
                self.external(mod_path, name, kind, tagged, contains_object_references)
            },
            _ => Ok(t),
        }
    }

    /// The resolved form of a type that may be absent.
    pub open spec fn resolve_optional(self, t: Option<TypeView>) -> Result<
        Option<TypeView>,
        GroupErrorView,
    > {
        match t {
            Some(ty) => match self.resolve_type(ty) {
                Ok(resolved) => Ok(Some(resolved)),
                Err(e) => Err(e),
            },
            None => Ok(None),
        }
    }

    /// The parameters with their types resolved, or the error of the first
    /// parameter whose type has one.
    pub open spec fn resolve_params(self, params: Seq<FnParamView>) -> Result<
        Seq<FnParamView>,
        GroupErrorView,
    >
        decreases params.len(),
    {
        if params.len() == 0 {
            Ok(Seq::empty())
        } else {
            match self.resolve_params(params.drop_last()) {
                Ok(resolved) => match self.resolve_type(params.last().ty) {
                    Ok(ty) => Ok(resolved.push(FnParamView { ty, ..params.last() })),
                    Err(e) => Err(e),
                },
                Err(e) => Err(e),
            }
        }
    }

    /// The fields with their types resolved, or the error of the first field
    /// whose type has one.
    pub open spec fn resolve_fields(self, fields: Seq<FieldView>) -> Result<
        Seq<FieldView>,
        GroupErrorView,
    >
        decreases fields.len(),
    {
        if fields.len() == 0 {
            Ok(Seq::empty())
        } else {
            match self.resolve_fields(fields.drop_last()) {
                Ok(resolved) => match self.resolve_type(fields.last().ty) {
                    Ok(ty) => Ok(resolved.push(FieldView { ty, ..fields.last() })),
                    Err(e) => Err(e),
                },
                Err(e) => Err(e),
            }
        }
    }

    /// The variants with the types of their fields resolved, or the error of
    /// the first variant that has one.
    pub open spec fn resolve_variants(self, variants: Seq<VariantView>) -> Result<
        Seq<VariantView>,
        GroupErrorView,
    >
        decreases variants.len(),
    {
        if variants.len() == 0 {
            Ok(Seq::empty())
        } else {
            match self.resolve_variants(variants.drop_last()) {
                Ok(resolved) => match self.resolve_fields(variants.last().fields) {
                    Ok(fields) => Ok(resolved.push(VariantView { fields, ..variants.last() })),
                    Err(e) => Err(e),
                },
                Err(e) => Err(e),
            }
        }
    }

    /// The resolved form of an item: its parameter types, then its return
    /// type, then its error type, and the types of its fields are resolved;
    /// the first error is the result. Items without types stay.
    pub open spec fn resolve_item(self, item: MetadataView) -> Result<MetadataView, GroupErrorView> {
        match item {
            MetadataView::Func(meta) => match self.resolve_params(meta.inputs) {
                Ok(inputs) => match self.resolve_optional(meta.return_type) {
                    Ok(return_type) => match self.resolve_optional(meta.throws) {
                        Ok(throws) => Ok(
                            MetadataView::Func(FnView { inputs, return_type, throws, ..meta }),
                        ),
                        Err(e) => Err(e),
                    },
                    Err(e) => Err(e),
                },
                Err(e) => Err(e),
            },
            MetadataView::Method(meta) => match self.resolve_params(meta.inputs) {
                Ok(inputs) => match self.resolve_optional(meta.return_type) {
                    Ok(return_type) => match self.resolve_optional(meta.throws) {
                        Ok(throws) => Ok(
                            MetadataView::Method(
                                MethodView { inputs, return_type, throws, ..meta },
                            ),
                        ),
                        Err(e) => Err(e),
                    },
                    Err(e) => Err(e),
                },
                Err(e) => Err(e),
            },
            MetadataView::TraitMethod(meta) => match self.resolve_params(meta.inputs) {
                Ok(inputs) => match self.resolve_optional(meta.return_type) {
                    Ok(return_type) => match self.resolve_optional(meta.throws) {
                        Ok(throws) => Ok(
                            MetadataView::TraitMethod(
                                TraitMethodView { inputs, return_type, throws, ..meta },
                            ),
                        ),
                        Err(e) => Err(e),
                    },
                    Err(e) => Err(e),
                },
                Err(e) => Err(e),
            },
            MetadataView::Constructor(meta) => match self.resolve_params(meta.inputs) {
                Ok(inputs) => match self.resolve_optional(meta.return_type) {
                    Ok(return_type) => match self.resolve_optional(meta.throws) {
                        Ok(throws) => Ok(
                            MetadataView::Constructor(
                                ConstructorView { inputs, return_type, throws, ..meta },
                            ),
                        ),
                        Err(e) => Err(e),
                    },
                    Err(e) => Err(e),
                },
                Err(e) => Err(e),
            },
            MetadataView::Record(meta) => match self.resolve_fields(meta.fields) {
                Ok(fields) => Ok(MetadataView::Record(RecordView { fields, ..meta })),
                Err(e) => Err(e),
            },
            MetadataView::Enum(meta) => match self.resolve_variants(meta.variants) {
                Ok(variants) => Ok(MetadataView::Enum(EnumView { variants, ..meta })),
                Err(e) => Err(e),
            },
            _ => Ok(item),
        }
    }
}

/// The resolved form of `item` as an item of the library that owns it.
pub open spec fn resolve_external_types(
    item: MetadataView,
    groups: Map<Seq<char>, MetadataGroupView>,
    free: Set<ItemIdView>,
) -> Result<MetadataView, GroupErrorView> {
    (Resolution { crate_name: item.crate_name(), groups, free }).resolve_item(item)
}

/// The view of the outcome of resolving a type.
pub open spec fn type_result_view(r: Result<Type, GroupError>) -> Result<TypeView, GroupErrorView> {
    match r {
        Ok(t) => Ok(t@),
        Err(e) => Err(e@),
    }
}

/// The view of the outcome of resolving an optional type.
pub open spec fn optional_result_view(r: Result<Option<Type>, GroupError>) -> Result<
    Option<TypeView>,
    GroupErrorView,
> {
    match r {
        Ok(t) => Ok(optional_type_view(t)),
        Err(e) => Err(e@),
    }
}

/// The view of the outcome of resolving parameters.
pub open spec fn params_result_view(r: Result<Vec<FnParamMetadata>, GroupError>) -> Result<
    Seq<FnParamView>,
    GroupErrorView,
> {
    match r {
        Ok(params) => Ok(param_views(params@)),
        Err(e) => Err(e@),
    }
}

/// The view of the outcome of resolving fields.
pub open spec fn fields_result_view(r: Result<Vec<FieldMetadata>, GroupError>) -> Result<
    Seq<FieldView>,
    GroupErrorView,
> {
    match r {
        Ok(fields) => Ok(field_views(fields@)),
        Err(e) => Err(e@),
    }
}

/// The view of the outcome of resolving variants.
pub open spec fn variants_result_view(r: Result<Vec<VariantMetadata>, GroupError>) -> Result<
    Seq<VariantView>,
    GroupErrorView,
> {
    match r {
        Ok(variants) => Ok(variant_views(variants@)),
        Err(e) => Err(e@),
    }
}

/// The view of the outcome of resolving an item.
pub open spec fn item_result_view(r: Result<Metadata, GroupError>) -> Result<
    MetadataView,
    GroupErrorView,
> {
    match r {
        Ok(item) => Ok(item@),
        Err(e) => Err(e@),
    }
}

/// An error among the first `n` parameters is the error of all of them.
proof fn lemma_params_error_stays(ctx: Resolution, params: Seq<FnParamView>, n: int)
    requires
        0 <= n <= params.len(),
        ctx.resolve_params(params.take(n)) is Err,
    ensures
        ctx.resolve_params(params) == ctx.resolve_params(params.take(n)),
    decreases params.len() - n,
{
    if n == params.len() {
        assert(params.take(n) == params);
    } else {
        assert(params.take(n + 1).drop_last() == params.take(n));
        lemma_params_error_stays(ctx, params, n + 1);
    }
}

/// An error among the first `n` fields is the error of all of them.
proof fn lemma_fields_error_stays(ctx: Resolution, fields: Seq<FieldView>, n: int)
    requires
        0 <= n <= fields.len(),
        ctx.resolve_fields(fields.take(n)) is Err,
    ensures
        ctx.resolve_fields(fields) == ctx.resolve_fields(fields.take(n)),
    decreases fields.len() - n,
{
    if n == fields.len() {
        assert(fields.take(n) == fields);
    } else {
        assert(fields.take(n + 1).drop_last() == fields.take(n));
        lemma_fields_error_stays(ctx, fields, n + 1);
    }
}

/// An error among the first `n` variants is the error of all of them.
proof fn lemma_variants_error_stays(ctx: Resolution, variants: Seq<VariantView>, n: int)
    requires
        0 <= n <= variants.len(),
        ctx.resolve_variants(variants.take(n)) is Err,
    ensures
        ctx.resolve_variants(variants) == ctx.resolve_variants(variants.take(n)),
    decreases variants.len() - n,
{
    if n == variants.len() {
        assert(variants.take(n) == variants);
    } else {
        assert(variants.take(n + 1).drop_last() == variants.take(n));
        lemma_variants_error_stays(ctx, variants, n + 1);
    }
}

impl Resolution {
    /// Whether a type is in resolved form: it names no record, enum, object,
    /// custom type or callback interface of another library, and each of its
    /// external types carries the namespace of the library that owns it.
    pub open spec fn is_resolved(self, t: TypeView) -> bool
        decreases t,
    {
        match t {
            TypeView::Record { mod_path, .. } => !self.is_external(mod_path),
            TypeView::Enum { mod_path, .. } => !self.is_external(mod_path),
            TypeView::Object { mod_path, .. } => !self.is_external(mod_path),
            TypeView::CallbackInterface { mod_path, .. } => !self.is_external(mod_path),
            TypeView::Custom { mod_path, builtin, .. } => !self.is_external(mod_path)
                && self.is_resolved(*builtin),
            TypeView::Optional { inner_type } => self.is_resolved(*inner_type),
            TypeView::Sequence { inner_type } => self.is_resolved(*inner_type),
            TypeView::Mapping { key_type, value_type } => self.is_resolved(*key_type)
                && self.is_resolved(*value_type),
            TypeView::External { namespace, mod_path, .. } => self.groups.contains_key(
                crate_name_of(mod_path),
            ) && namespace == self.groups[crate_name_of(mod_path)].namespace.name,
            _ => true,
        }
    }

    /// A record of another library resolves to an external data class that
    /// carries the namespace of that library.
    pub proof fn lemma_external_record(self, mod_path: Seq<char>, name: Seq<char>)
        requires
            self.is_external(mod_path),
            self.groups.contains_key(crate_name_of(mod_path)),
        ensures
            self.resolve_type(TypeView::Record { mod_path, name }) == Ok::<
                TypeView,
                GroupErrorView,
            >(
                TypeView::External {
                    namespace: self.groups[crate_name_of(mod_path)].namespace.name,
                    mod_path,
                    name,
                    kind: ExternalKind::DataClass,
                    tagged: false,
                    contains_object_references: !self.free.contains(ItemIdView { mod_path, name }),
                },
            ),
    {
    }

    /// What a resolution yields is in resolved form. In particular no
    /// external type is left with an empty namespace, unless the library
    /// that owns it has an empty name.
    pub proof fn lemma_resolved_type(self, t: TypeView)
        requires
            self.resolve_type(t) is Ok,
        ensures
            self.is_resolved(self.resolve_type(t)->Ok_0),
        decreases t,
    {
        match t {
            TypeView::Custom { mod_path, name, builtin } => {
                if !self.is_external(mod_path) {
                    self.lemma_resolved_type(*builtin);
                }
            },
            TypeView::Optional { inner_type } => {
                self.lemma_resolved_type(*inner_type);
            },
            TypeView::Sequence { inner_type } => {
                self.lemma_resolved_type(*inner_type);
            },
            TypeView::Mapping { key_type, value_type } => {
                self.lemma_resolved_type(*key_type);
                self.lemma_resolved_type(*value_type);
            },
            _ => {},
        }
    }

    /// Resolving a type in resolved form again changes nothing, where it
    /// succeeds: it fails on an external type whose namespace is filled in.
    pub proof fn lemma_resolved_type_stays(self, t: TypeView)
        requires
            self.is_resolved(t),
            self.resolve_type(t) is Ok,
        ensures
            self.resolve_type(t) == Ok::<TypeView, GroupErrorView>(t),
        decreases t,
    {
        match t {
            TypeView::Custom { mod_path, name, builtin } => {
                self.lemma_resolved_type_stays(*builtin);
            },
            TypeView::Optional { inner_type } => {
                self.lemma_resolved_type_stays(*inner_type);
            },
            TypeView::Sequence { inner_type } => {
                self.lemma_resolved_type_stays(*inner_type);
            },
            TypeView::Mapping { key_type, value_type } => {
                self.lemma_resolved_type_stays(*key_type);
                self.lemma_resolved_type_stays(*value_type);
            },
            _ => {},
        }
    }

    /// Resolution is idempotent on types: resolving the result of a
    /// resolution changes nothing, where it succeeds.
    pub proof fn lemma_resolve_type_idempotent(self, t: TypeView)
        requires
            self.resolve_type(t) is Ok,
            self.resolve_type(self.resolve_type(t)->Ok_0) is Ok,
        ensures
            self.resolve_type(self.resolve_type(t)->Ok_0) == self.resolve_type(t),
    {
        self.lemma_resolved_type(t);
        self.lemma_resolved_type_stays(self.resolve_type(t)->Ok_0);
    }

    /// Resolution is idempotent on optional types.
    pub proof fn lemma_resolve_optional_idempotent(self, t: Option<TypeView>)
        requires
            self.resolve_optional(t) is Ok,
            self.resolve_optional(self.resolve_optional(t)->Ok_0) is Ok,
        ensures
            self.resolve_optional(self.resolve_optional(t)->Ok_0) == self.resolve_optional(t),
    {
        if let Some(ty) = t {
            self.lemma_resolve_type_idempotent(ty);
        }
    }

    /// Resolution is idempotent on parameters.
    pub proof fn lemma_resolve_params_idempotent(self, params: Seq<FnParamView>)
        requires
            self.resolve_params(params) is Ok,
            self.resolve_params(self.resolve_params(params)->Ok_0) is Ok,
        ensures
            self.resolve_params(self.resolve_params(params)->Ok_0) == self.resolve_params(params),
        decreases params.len(),
    {
        if params.len() > 0 {
            let resolved = self.resolve_params(params)->Ok_0;
            let before = self.resolve_params(params.drop_last())->Ok_0;
            let ty = self.resolve_type(params.last().ty)->Ok_0;
            assert(resolved == before.push(FnParamView { ty, ..params.last() }));
            assert(resolved.drop_last() == before);
            self.lemma_resolve_params_idempotent(params.drop_last());
            self.lemma_resolve_type_idempotent(params.last().ty);
        }
    }

    /// Resolution is idempotent on fields.
    pub proof fn lemma_resolve_fields_idempotent(self, fields: Seq<FieldView>)
        requires
            self.resolve_fields(fields) is Ok,
            self.resolve_fields(self.resolve_fields(fields)->Ok_0) is Ok,
        ensures
            self.resolve_fields(self.resolve_fields(fields)->Ok_0) == self.resolve_fields(fields),
        decreases fields.len(),
    {
        if fields.len() > 0 {
            let resolved = self.resolve_fields(fields)->Ok_0;
            let before = self.resolve_fields(fields.drop_last())->Ok_0;
            let ty = self.resolve_type(fields.last().ty)->Ok_0;
            assert(resolved == before.push(FieldView { ty, ..fields.last() }));
            assert(resolved.drop_last() == before);
            self.lemma_resolve_fields_idempotent(fields.drop_last());
            self.lemma_resolve_type_idempotent(fields.last().ty);
        }
    }

    /// Resolution is idempotent on variants.
    pub proof fn lemma_resolve_variants_idempotent(self, variants: Seq<VariantView>)
        requires
            self.resolve_variants(variants) is Ok,
            self.resolve_variants(self.resolve_variants(variants)->Ok_0) is Ok,
        ensures
            self.resolve_variants(self.resolve_variants(variants)->Ok_0) == self.resolve_variants(
                variants,
            ),
        decreases variants.len(),
    {
        if variants.len() > 0 {
            let resolved = self.resolve_variants(variants)->Ok_0;
            let before = self.resolve_variants(variants.drop_last())->Ok_0;
            let fields = self.resolve_fields(variants.last().fields)->Ok_0;
            assert(resolved == before.push(VariantView { fields, ..variants.last() }));
            assert(resolved.drop_last() == before);
            self.lemma_resolve_variants_idempotent(variants.drop_last());
            self.lemma_resolve_fields_idempotent(variants.last().fields);
        }
    }

    /// Resolution is idempotent on items: resolving a resolved item again
    /// changes nothing, where it succeeds.
    pub proof fn lemma_resolve_item_idempotent(self, item: MetadataView)
        requires
            self.resolve_item(item) is Ok,
            self.resolve_item(self.resolve_item(item)->Ok_0) is Ok,
        ensures
            self.resolve_item(self.resolve_item(item)->Ok_0) == self.resolve_item(item),
    {
        match item {
            MetadataView::Func(meta) => {
                self.lemma_resolve_params_idempotent(meta.inputs);
                self.lemma_resolve_optional_idempotent(meta.return_type);
                self.lemma_resolve_optional_idempotent(meta.throws);
            },
            MetadataView::Method(meta) => {
                self.lemma_resolve_params_idempotent(meta.inputs);
                self.lemma_resolve_optional_idempotent(meta.return_type);
                self.lemma_resolve_optional_idempotent(meta.throws);
            },
            MetadataView::TraitMethod(meta) => {
                self.lemma_resolve_params_idempotent(meta.inputs);
                self.lemma_resolve_optional_idempotent(meta.return_type);
                self.lemma_resolve_optional_idempotent(meta.throws);
            },
            MetadataView::Constructor(meta) => {
                self.lemma_resolve_params_idempotent(meta.inputs);
                self.lemma_resolve_optional_idempotent(meta.return_type);
                self.lemma_resolve_optional_idempotent(meta.throws);
            },
            MetadataView::Record(meta) => {
                self.lemma_resolve_fields_idempotent(meta.fields);
            },
            MetadataView::Enum(meta) => {
                self.lemma_resolve_variants_idempotent(meta.variants);
            },
            _ => {},
        }
    }

    /// A resolved item is declared under the module path of the item that
    /// it came from.
    pub proof fn lemma_resolve_item_keeps_path(self, item: MetadataView)
        requires
            self.resolve_item(item) is Ok,
        ensures
            (self.resolve_item(item)->Ok_0).mod_path() == item.mod_path(),
            (self.resolve_item(item)->Ok_0) is Namespace == item is Namespace,
    {
    }
}

/// Idempotent resolution: resolving the external types of an item that is
/// resolved already changes nothing, where it succeeds. It fails where the
/// resolved item holds an external type with a namespace.
pub proof fn lemma_resolution_idempotent(
    item: MetadataView,
    groups: Map<Seq<char>, MetadataGroupView>,
    free: Set<ItemIdView>,
)
    requires
        resolve_external_types(item, groups, free) is Ok,
        resolve_external_types(resolve_external_types(item, groups, free)->Ok_0, groups, free) is Ok,
    ensures
        resolve_external_types(resolve_external_types(item, groups, free)->Ok_0, groups, free)
            == resolve_external_types(item, groups, free),
{
    let ctx = Resolution { crate_name: item.crate_name(), groups, free };
    ctx.lemma_resolve_item_keeps_path(item);
    ctx.lemma_resolve_item_idempotent(item);
}

/// Converts metadata items by replacing the types of other libraries with
/// external types.
pub struct ExternalTypeConverter<'a> {
    pub crate_name: &'a str,
    pub crate_to_namespace: &'a MetadataGroupMap,
    pub types_without_obj_refs: &'a Vec<ItemIdentifier>,
}

impl<'a> View for ExternalTypeConverter<'a> {
    type V = Resolution;

    open spec fn view(&self) -> Resolution {
        Resolution {
            crate_name: self.crate_name@,
            groups: self.crate_to_namespace@,
            free: identifier_set(self.types_without_obj_refs@),
        }
    }
}

impl<'a> ExternalTypeConverter<'a> {
    /// The groups that the converter looks namespaces up in are well-formed.
    pub open spec fn wf(&self) -> bool {
        self.crate_to_namespace.wf()
    }

    /// The name that the library `crate_name` shows to generated bindings.
    pub fn crate_to_namespace(&self, crate_name: &str) -> (r: Result<String, GroupError>)
        requires
            self.wf(),
        ensures
            match r {
                Ok(namespace) => self@.groups.contains_key(crate_name@) && namespace@
                    == self@.groups[crate_name@].namespace.name,
                Err(e) => !self@.groups.contains_key(crate_name@) && e@
                    == (GroupErrorView::UnknownNamespace { crate_name: crate_name@ }),
            },
    {
        match self.crate_to_namespace.get(crate_name) {
            Some(group) => Ok(group.namespace().name.clone()),
            None => Err(GroupError::UnknownNamespace { crate_name: crate_name.to_owned() }),
        }
    }

    /// Whether a module path belongs to another library than the one being
    /// converted for.
    pub fn is_mod_path_external(&self, mod_path: &str) -> (r: bool)
        ensures
            r == self@.is_external(mod_path@),
    {
        !str_eq(calc_crate_name(mod_path), self.crate_name)
    }

    /// The external type for the item `name` under `mod_path`.
    fn external(
        &self,
        mod_path: String,
        name: String,
        kind: ExternalKind,
        tagged: bool,
        contains_object_references: bool,
    ) -> (r: Result<Type, GroupError>)
        requires
            self.wf(),
        ensures
            type_result_view(r) == self@.external(
                mod_path@,
                name@,
                kind,
                tagged,
                contains_object_references,
            ),
    {
        match self.crate_to_namespace(calc_crate_name(mod_path.as_str())) {
            Ok(namespace) => Ok(
                Type::External { namespace, mod_path, name, kind, tagged, contains_object_references },
            ),
            Err(e) => Err(e),
        }
    }

    /// Whether the record or enum `name` under `mod_path` counts as holding
    /// an object reference.
    fn contains_object_references(&self, mod_path: &str, name: &str) -> (r: bool)
        ensures
            r == !self@.free.contains(ItemIdView { mod_path: mod_path@, name: name@ }),
    {
        !contains_identifier(self.types_without_obj_refs, mod_path, name)
    }

    /// Resolves a type: see [`Resolution::resolve_type`].
    pub fn convert_type(&self, ty: Type) -> (r: Result<Type, GroupError>)
        requires
            self.wf(),
        ensures
            type_result_view(r) == self@.resolve_type(ty@),
        decreases ty,
    {
        match ty {
            Type::Enum { mod_path, name } => {
                if self.is_mod_path_external(mod_path.as_str()) {
                    let contains = self.contains_object_references(mod_path.as_str(), name.as_str());
                    self.external(mod_path, name, ExternalKind::DataClass, false, contains)
                } else {
                    Ok(Type::Enum { mod_path, name })
                }
            },
            Type::Record { mod_path, name } => {
                if self.is_mod_path_external(mod_path.as_str()) {
                    let contains = self.contains_object_references(mod_path.as_str(), name.as_str());
                    self.external(mod_path, name, ExternalKind::DataClass, false, contains)
                } else {
                    Ok(Type::Record { mod_path, name })
                }
            },
            Type::Custom { mod_path, name, builtin } => {
                if self.is_mod_path_external(mod_path.as_str()) {
                    self.external(mod_path, name, ExternalKind::DataClass, false, true)
                } else {
                    match self.convert_type(*builtin) {
                        Ok(resolved) => Ok(
                            Type::Custom { mod_path, name, builtin: Box::new(resolved) },
                        ),
                        Err(e) => Err(e),
                    }
                }
            },
            Type::Object { mod_path, name } => {
                if self.is_mod_path_external(mod_path.as_str()) {
                    self.external(mod_path, name, ExternalKind::Interface, false, true)
                } else {
                    Ok(Type::Object { mod_path, name })
                }
            },
            Type::CallbackInterface { mod_path, name } => {
                if self.is_mod_path_external(mod_path.as_str()) {
                    Err(GroupError::ExternalCallbackInterface { mod_path, name })
                } else {
                    Ok(Type::CallbackInterface { mod_path, name })
                }
            },
            Type::Optional { inner_type } => match self.convert_type(*inner_type) {
                Ok(resolved) => Ok(Type::Optional { inner_type: Box::new(resolved) }),
                Err(e) => Err(e),
            },
            Type::Sequence { inner_type } => match self.convert_type(*inner_type) {
                Ok(resolved) => Ok(Type::Sequence { inner_type: Box::new(resolved) }),
                Err(e) => Err(e),
            },
            Type::Mapping { key_type, value_type } => match self.convert_type(*key_type) {
                Ok(key) => match self.convert_type(*value_type) {
                    Ok(value) => Ok(
                        Type::Mapping { key_type: Box::new(key), value_type: Box::new(value) },
                    ),
                    Err(e) => Err(e),
                },
                Err(e) => Err(e),
            },
            Type::External {
                namespace,
                mod_path,
                name,
                kind,
                tagged,
                contains_object_references,
            } => {
                if !namespace.as_str().is_empty() {
                    Err(GroupError::ExternalAlreadyResolved { mod_path, name })
                } else {
                    self.external(mod_path, name, kind, tagged, contains_object_references)
                }
            },
            other => Ok(other),
        }
    }

    /// Resolves a type that may be absent.
    pub fn convert_optional(&self, ty: Option<Type>) -> (r: Result<Option<Type>, GroupError>)
        requires
            self.wf(),
        ensures
            optional_result_view(r) == self@.resolve_optional(optional_type_view(ty)),
    {
        match ty {
            Some(t) => match self.convert_type(t) {
                Ok(resolved) => Ok(Some(resolved)),
                Err(e) => Err(e),
            },
            None => Ok(None),
        }
    }

    /// Resolves the types of parameters, in order, up to the first error.
    pub fn convert_params(&self, params: Vec<FnParamMetadata>) -> (r: Result<
        Vec<FnParamMetadata>,
        GroupError,
    >)
        requires
            self.wf(),
        ensures
            params_result_view(r) == self@.resolve_params(param_views(params@)),
    {
        let ghost views = param_views(params@);
        let ghost given = params@;
        let mut resolved: Vec<FnParamMetadata> = Vec::new();
        assert(views.take(0) == Seq::<FnParamView>::empty());
        assert(param_views(resolved@) == Seq::<FnParamView>::empty());
        for param in it: params.into_iter()
            invariant
                self.wf(),
                it.seq() == given,
                views == param_views(given),
                self@.resolve_params(views.take(it.index() as int)) == Ok::<
                    Seq<FnParamView>,
                    GroupErrorView,
                >(param_views(resolved@)),
        {
            let ghost n = it.index() as int;
            let ghost before = param_views(resolved@);
            assert(views.take(n + 1).drop_last() == views.take(n));
            assert(views.take(n + 1).last() == param@);
            let FnParamMetadata { name, ty } = param;
            match self.convert_type(ty) {
                Ok(ty) => {
                    resolved.push(FnParamMetadata { name, ty });
                    assert(param_views(resolved@) == before.push(
                        FnParamView { ty: ty@, ..param@ },
                    ));
                },
                Err(e) => {
                    proof {
                        lemma_params_error_stays(self@, views, n + 1);
                    }
                    return Err(e);
                },
            }
        }
        assert(views.take(given.len() as int) == views);
        Ok(resolved)
    }

    /// Resolves the types of fields, in order, up to the first error.
    pub fn convert_fields(&self, fields: Vec<FieldMetadata>) -> (r: Result<
        Vec<FieldMetadata>,
        GroupError,
    >)
        requires
            self.wf(),
        ensures
            fields_result_view(r) == self@.resolve_fields(field_views(fields@)),
    {
        let ghost views = field_views(fields@);
        let ghost given = fields@;
        let mut resolved: Vec<FieldMetadata> = Vec::new();
        assert(views.take(0) == Seq::<FieldView>::empty());
        assert(field_views(resolved@) == Seq::<FieldView>::empty());
        for field in it: fields.into_iter()
            invariant
                self.wf(),
                it.seq() == given,
                views == field_views(given),
                self@.resolve_fields(views.take(it.index() as int)) == Ok::<
                    Seq<FieldView>,
                    GroupErrorView,
                >(field_views(resolved@)),
        {
            let ghost n = it.index() as int;
            let ghost before = field_views(resolved@);
            assert(views.take(n + 1).drop_last() == views.take(n));
            assert(views.take(n + 1).last() == field@);
            let FieldMetadata { name, ty } = field;
            match self.convert_type(ty) {
                Ok(ty) => {
                    resolved.push(FieldMetadata { name, ty });
                    assert(field_views(resolved@) == before.push(FieldView { ty: ty@, ..field@ }));
                },
                Err(e) => {
                    proof {
                        lemma_fields_error_stays(self@, views, n + 1);
                    }
                    return Err(e);
                },
            }
        }
        assert(views.take(given.len() as int) == views);
        Ok(resolved)
    }

    fn convert_variants(&self, variants: Vec<VariantMetadata>) -> (r: Result<
        Vec<VariantMetadata>,
        GroupError,
    >)
        requires
            self.wf(),
        ensures
            variants_result_view(r) == self@.resolve_variants(variant_views(variants@)),
    {
        let ghost views = variant_views(variants@);
        let ghost given = variants@;
        let mut resolved: Vec<VariantMetadata> = Vec::new();
        assert(views.take(0) == Seq::<VariantView>::empty());
        assert(variant_views(resolved@) == Seq::<VariantView>::empty());
        for variant in it: variants.into_iter()
            invariant
                self.wf(),
                it.seq() == given,
                views == variant_views(given),
                self@.resolve_variants(views.take(it.index() as int)) == Ok::<
                    Seq<VariantView>,
                    GroupErrorView,
                >(variant_views(resolved@)),
        {
            let ghost n = it.index() as int;
            let ghost before = variant_views(resolved@);
            assert(views.take(n + 1).drop_last() == views.take(n));
            assert(views.take(n + 1).last() == variant@);
            let VariantMetadata { name, fields } = variant;
            match self.convert_fields(fields) {
                Ok(fields) => {
                    resolved.push(VariantMetadata { name, fields });
                    assert(variant_views(resolved@) == before.push(
                        VariantView { fields: field_views(fields@), ..variant@ },
                    ));
                },
                Err(e) => {
                    proof {
                        lemma_variants_error_stays(self@, views, n + 1);
                    }
                    return Err(e);
                },
            }
        }
        assert(views.take(given.len() as int) == views);
        Ok(resolved)
    }

    /// Resolves the types of the fields of all variants of an enum.
    pub fn convert_enum(&self, enum_: EnumMetadata) -> (r: Result<EnumMetadata, GroupError>)
        requires
            self.wf(),
        ensures
            match r {
                Ok(resolved) => self@.resolve_variants(enum_@.variants) == Ok::<
                    Seq<VariantView>,
                    GroupErrorView,
                >(resolved@.variants) && resolved@ == (EnumView {
                    variants: resolved@.variants,
                    ..enum_@
                }),
                Err(e) => self@.resolve_variants(enum_@.variants) == Err::<
                    Seq<VariantView>,
                    GroupErrorView,
                >(e@),
            },
    {
        let EnumMetadata { mod_path, name, variants } = enum_;
        match self.convert_variants(variants) {
            Ok(variants) => Ok(EnumMetadata { mod_path, name, variants }),
            Err(e) => Err(e),
        }
    }

    /// Resolves the types of an item: see [`Resolution::resolve_item`].
    pub fn convert_item(&self, item: Metadata) -> (r: Result<Metadata, GroupError>)
        requires
            self.wf(),
        ensures
            item_result_view(r) == self@.resolve_item(item@),
    {
        match item {
            Metadata::Func(meta) => {
                let FnMetadata { mod_path, name, inputs, return_type, throws } = meta;
                let inputs = match self.convert_params(inputs) {
                    Ok(inputs) => inputs,
                    Err(e) => {
                        return Err(e);
                    },
                };
                let return_type = match self.convert_optional(return_type) {
                    Ok(return_type) => return_type,
                    Err(e) => {
                        return Err(e);
                    },
                };
                let throws = match self.convert_optional(throws) {
                    Ok(throws) => throws,
                    Err(e) => {
                        return Err(e);
                    },
                };
                Ok(Metadata::Func(FnMetadata { mod_path, name, inputs, return_type, throws }))
            },
            Metadata::Method(meta) => {
                let MethodMetadata { mod_path, self_name, name, inputs, return_type, throws } = meta;
                let inputs = match self.convert_params(inputs) {
                    Ok(inputs) => inputs,
                    Err(e) => {
                        return Err(e);
                    },
                };
                let return_type = match self.convert_optional(return_type) {
                    Ok(return_type) => return_type,
                    Err(e) => {
                        return Err(e);
                    },
                };
                let throws = match self.convert_optional(throws) {
                    Ok(throws) => throws,
                    Err(e) => {
                        return Err(e);
                    },
                };
                Ok(
                    Metadata::Method(
                        MethodMetadata { mod_path, self_name, name, inputs, return_type, throws },
                    ),
                )
            },
            Metadata::TraitMethod(meta) => {
                let TraitMethodMetadata {
                    mod_path,
                    trait_name,
                    name,
                    inputs,
                    return_type,
                    throws,
                } = meta;
                let inputs = match self.convert_params(inputs) {
                    Ok(inputs) => inputs,
                    Err(e) => {
                        return Err(e);
                    },
                };
                let return_type = match self.convert_optional(return_type) {
                    Ok(return_type) => return_type,
                    Err(e) => {
                        return Err(e);
                    },
                };
                let throws = match self.convert_optional(throws) {
                    Ok(throws) => throws,
                    Err(e) => {
                        return Err(e);
                    },
                };
                Ok(
                    Metadata::TraitMethod(
                        TraitMethodMetadata { mod_path, trait_name, name, inputs, return_type, throws },
                    ),
                )
            },
            Metadata::Constructor(meta) => {
                let ConstructorMetadata {
                    mod_path,
                    self_name,
                    name,
                    inputs,
                    return_type,
                    throws,
                } = meta;
                let inputs = match self.convert_params(inputs) {
                    Ok(inputs) => inputs,
                    Err(e) => {
                        return Err(e);
                    },
                };
                let return_type = match self.convert_optional(return_type) {
                    Ok(return_type) => return_type,
                    Err(e) => {
                        return Err(e);
                    },
                };
                let throws = match self.convert_optional(throws) {
                    Ok(throws) => throws,
                    Err(e) => {
                        return Err(e);
                    },
                };
                Ok(
                    Metadata::Constructor(
                        ConstructorMetadata { mod_path, self_name, name, inputs, return_type, throws },
                    ),
                )
            },
            Metadata::Record(meta) => {
                let RecordMetadata { mod_path, name, fields } = meta;
                match self.convert_fields(fields) {
                    Ok(fields) => Ok(Metadata::Record(RecordMetadata { mod_path, name, fields })),
                    Err(e) => Err(e),
                }
            },
            Metadata::Enum(meta) => match self.convert_enum(meta) {
                Ok(resolved) => Ok(Metadata::Enum(resolved)),
                Err(e) => Err(e),
            },
            other => Ok(other),
        }
    }
}

/// Resolves the types of `item` that other libraries own: see
/// [`Resolution::resolve_type`].
pub fn fixup_external_type(
    item: Metadata,
    group_map: &MetadataGroupMap,
    types_without_obj_refs: &Vec<ItemIdentifier>,
) -> (r: Result<Metadata, GroupError>)
    requires
        group_map.wf(),
    ensures
        item_result_view(r) == resolve_external_types(
            item@,
            group_map@,
            identifier_set(types_without_obj_refs@),
        ),
{
    let crate_name = calc_crate_name(item.mod_path()).to_owned();
    let converter = ExternalTypeConverter {
        crate_name: crate_name.as_str(),
        crate_to_namespace: group_map,
        types_without_obj_refs,
    };
    converter.convert_item(item)
}

} // verus!
