//! The metadata items that a library emits about its interface, and their
//! mathematical views.

use crate::strings::crate_name_of;
use crate::types::{Type, TypeView};
use vstd::prelude::*;

verus! {

/// The declaration of a library: its internal identifier and the name that
/// it shows to generated bindings.
#[derive(Debug, Clone, PartialEq, Eq)]
pub struct NamespaceMetadata {
    pub crate_name: String,
    pub name: String,
}

/// The view of [`NamespaceMetadata`].
pub struct NamespaceView {
    pub crate_name: Seq<char>,
    pub name: Seq<char>,
}

impl View for NamespaceMetadata {
    type V = NamespaceView;

    open spec fn view(&self) -> NamespaceView {
        NamespaceView { crate_name: self.crate_name@, name: self.name@ }
    }
}

/// The marker of a separately written interface definition file.
#[derive(Debug, Clone, PartialEq, Eq)]
pub struct UdlFile {
    pub mod_path: String,
    pub namespace: String,
    pub file_stub: String,
}

/// The view of [`UdlFile`].
pub struct UdlFileView {
    pub mod_path: Seq<char>,
    pub namespace: Seq<char>,
    pub file_stub: Seq<char>,
}

impl View for UdlFile {
    type V = UdlFileView;

    open spec fn view(&self) -> UdlFileView {
        UdlFileView {
            mod_path: self.mod_path@,
            namespace: self.namespace@,
            file_stub: self.file_stub@,
        }
    }
}

/// A parameter of a function, method or constructor.
#[derive(Debug, Clone, PartialEq, Eq)]
pub struct FnParamMetadata {
    pub name: String,
    pub ty: Type,
}

/// The view of [`FnParamMetadata`].
pub struct FnParamView {
    pub name: Seq<char>,
    pub ty: TypeView,
}

impl View for FnParamMetadata {
    type V = FnParamView;

    open spec fn view(&self) -> FnParamView {
        FnParamView { name: self.name@, ty: self.ty@ }
    }
}

/// A function.
#[derive(Debug, Clone, PartialEq, Eq)]
pub struct FnMetadata {
    pub mod_path: String,
    pub name: String,
    pub inputs: Vec<FnParamMetadata>,
    pub return_type: Option<Type>,
    pub throws: Option<Type>,
}

/// The view of [`FnMetadata`].
pub struct FnView {
    pub mod_path: Seq<char>,
    pub name: Seq<char>,
    pub inputs: Seq<FnParamView>,
    pub return_type: Option<TypeView>,
    pub throws: Option<TypeView>,
}

impl View for FnMetadata {
    type V = FnView;

    open spec fn view(&self) -> FnView {
        FnView {
            mod_path: self.mod_path@,
            name: self.name@,
            inputs: param_views(self.inputs@),
            return_type: optional_type_view(self.return_type),
            throws: optional_type_view(self.throws),
        }
    }
}

/// A constructor of the object `self_name`.
#[derive(Debug, Clone, PartialEq, Eq)]
pub struct ConstructorMetadata {
    pub mod_path: String,
    pub self_name: String,
    pub name: String,
    pub inputs: Vec<FnParamMetadata>,
    pub return_type: Option<Type>,
    pub throws: Option<Type>,
}

/// The view of [`ConstructorMetadata`].
pub struct ConstructorView {
    pub mod_path: Seq<char>,
    pub self_name: Seq<char>,
    pub name: Seq<char>,
    pub inputs: Seq<FnParamView>,
    pub return_type: Option<TypeView>,
    pub throws: Option<TypeView>,
}

impl View for ConstructorMetadata {
    type V = ConstructorView;

    open spec fn view(&self) -> ConstructorView {
        ConstructorView {
            mod_path: self.mod_path@,
            self_name: self.self_name@,
            name: self.name@,
            inputs: param_views(self.inputs@),
            return_type: optional_type_view(self.return_type),
            throws: optional_type_view(self.throws),
        }
    }
}

/// A method of the object `self_name`.
#[derive(Debug, Clone, PartialEq, Eq)]
pub struct MethodMetadata {
    pub mod_path: String,
    pub self_name: String,
    pub name: String,
    pub inputs: Vec<FnParamMetadata>,
    pub return_type: Option<Type>,
    pub throws: Option<Type>,
}

/// The view of [`MethodMetadata`].
pub struct MethodView {
    pub mod_path: Seq<char>,
    pub self_name: Seq<char>,
    pub name: Seq<char>,
    pub inputs: Seq<FnParamView>,
    pub return_type: Option<TypeView>,
    pub throws: Option<TypeView>,
}

impl View for MethodMetadata {
    type V = MethodView;

    open spec fn view(&self) -> MethodView {
        MethodView {
            mod_path: self.mod_path@,
            self_name: self.self_name@,
            name: self.name@,
            inputs: param_views(self.inputs@),
            return_type: optional_type_view(self.return_type),
            throws: optional_type_view(self.throws),
        }
    }
}

/// A method of the trait `trait_name`.
#[derive(Debug, Clone, PartialEq, Eq)]
pub struct TraitMethodMetadata {
    pub mod_path: String,
    pub trait_name: String,
    pub name: String,
    pub inputs: Vec<FnParamMetadata>,
    pub return_type: Option<Type>,
    pub throws: Option<Type>,
}

/// The view of [`TraitMethodMetadata`].
pub struct TraitMethodView {
    pub mod_path: Seq<char>,
    pub trait_name: Seq<char>,
    pub name: Seq<char>,
    pub inputs: Seq<FnParamView>,
    pub return_type: Option<TypeView>,
    pub throws: Option<TypeView>,
}

impl View for TraitMethodMetadata {
    type V = TraitMethodView;

    open spec fn view(&self) -> TraitMethodView {
        TraitMethodView {
            mod_path: self.mod_path@,
            trait_name: self.trait_name@,
            name: self.name@,
            inputs: param_views(self.inputs@),
            return_type: optional_type_view(self.return_type),
            throws: optional_type_view(self.throws),
        }
    }
}

/// A field of a record or of an enum variant.
#[derive(Debug, Clone, PartialEq, Eq)]
pub struct FieldMetadata {
    pub name: String,
    pub ty: Type,
}

/// The view of [`FieldMetadata`].
pub struct FieldView {
    pub name: Seq<char>,
    pub ty: TypeView,
}

impl View for FieldMetadata {
    type V = FieldView;

    open spec fn view(&self) -> FieldView {
        FieldView { name: self.name@, ty: self.ty@ }
    }
}

/// A record: a type with named fields, passed by value.
#[derive(Debug, Clone, PartialEq, Eq)]
pub struct RecordMetadata {
    pub mod_path: String,
    pub name: String,
    pub fields: Vec<FieldMetadata>,
}

/// The view of [`RecordMetadata`].
pub struct RecordView {
    pub mod_path: Seq<char>,
    pub name: Seq<char>,
    pub fields: Seq<FieldView>,
}

impl View for RecordMetadata {
    type V = RecordView;

    open spec fn view(&self) -> RecordView {
        RecordView { mod_path: self.mod_path@, name: self.name@, fields: field_views(self.fields@) }
    }
}

/// A variant of an enum.
#[derive(Debug, Clone, PartialEq, Eq)]
pub struct VariantMetadata {
    pub name: String,
    pub fields: Vec<FieldMetadata>,
}

/// The view of [`VariantMetadata`].
pub struct VariantView {
    pub name: Seq<char>,
    pub fields: Seq<FieldView>,
}

impl View for VariantMetadata {
    type V = VariantView;

    open spec fn view(&self) -> VariantView {
        VariantView { name: self.name@, fields: field_views(self.fields@) }
    }
}

/// An enum, passed by value.
#[derive(Debug, Clone, PartialEq, Eq)]
pub struct EnumMetadata {
    pub mod_path: String,
    pub name: String,
    pub variants: Vec<VariantMetadata>,
}

/// The view of [`EnumMetadata`].
pub struct EnumView {
    pub mod_path: Seq<char>,
    pub name: Seq<char>,
    pub variants: Seq<VariantView>,
}

impl View for EnumMetadata {
    type V = EnumView;

    open spec fn view(&self) -> EnumView {
        EnumView {
            mod_path: self.mod_path@,
            name: self.name@,
            variants: variant_views(self.variants@),
        }
    }
}

/// The declaration of an object: a type whose instances are passed by handle.
#[derive(Debug, Clone, PartialEq, Eq)]
pub struct ObjectMetadata {
    pub mod_path: String,
    pub name: String,
}

/// The view of [`ObjectMetadata`].
pub struct ObjectView {
    pub mod_path: Seq<char>,
    pub name: Seq<char>,
}

impl View for ObjectMetadata {
    type V = ObjectView;

    open spec fn view(&self) -> ObjectView {
        ObjectView { mod_path: self.mod_path@, name: self.name@ }
    }
}

/// The declaration of a callback interface.
#[derive(Debug, Clone, PartialEq, Eq)]
pub struct CallbackInterfaceMetadata {
    pub mod_path: String,
    pub name: String,
}

/// The view of [`CallbackInterfaceMetadata`].
pub struct CallbackInterfaceView {
    pub mod_path: Seq<char>,
    pub name: Seq<char>,
}

impl View for CallbackInterfaceMetadata {
    type V = CallbackInterfaceView;

    open spec fn view(&self) -> CallbackInterfaceView {
        CallbackInterfaceView { mod_path: self.mod_path@, name: self.name@ }
    }
}

/// One fact about a library's interface.
#[derive(Debug, Clone, PartialEq, Eq)]
pub enum Metadata {
    Namespace(NamespaceMetadata),
    UdlFile(UdlFile),
    Func(FnMetadata),
    Object(ObjectMetadata),
    CallbackInterface(CallbackInterfaceMetadata),
    Record(RecordMetadata),
    Enum(EnumMetadata),
    Constructor(ConstructorMetadata),
    Method(MethodMetadata),
    TraitMethod(TraitMethodMetadata),
}

/// The view of [`Metadata`].
pub enum MetadataView {
    Namespace(NamespaceView),
    UdlFile(UdlFileView),
    Func(FnView),
    Object(ObjectView),
    CallbackInterface(CallbackInterfaceView),
    Record(RecordView),
    Enum(EnumView),
    Constructor(ConstructorView),
    Method(MethodView),
    TraitMethod(TraitMethodView),
}

impl View for Metadata {
    type V = MetadataView;

    open spec fn view(&self) -> MetadataView {
        match self {
            Metadata::Namespace(meta) => MetadataView::Namespace(meta@),
            Metadata::UdlFile(meta) => MetadataView::UdlFile(meta@),
            Metadata::Func(meta) => MetadataView::Func(meta@),
            Metadata::Object(meta) => MetadataView::Object(meta@),
            Metadata::CallbackInterface(meta) => MetadataView::CallbackInterface(meta@),
            Metadata::Record(meta) => MetadataView::Record(meta@),
            Metadata::Enum(meta) => MetadataView::Enum(meta@),
            Metadata::Constructor(meta) => MetadataView::Constructor(meta@),
            Metadata::Method(meta) => MetadataView::Method(meta@),
            Metadata::TraitMethod(meta) => MetadataView::TraitMethod(meta@),
        }
    }
}

impl MetadataView {
    /// The module path that the item was declared under; for a namespace
    /// declaration, the library's identifier.
    pub open spec fn mod_path(self) -> Seq<char> {
        match self {
            MetadataView::Namespace(meta) => meta.crate_name,
            MetadataView::UdlFile(meta) => meta.mod_path,
            MetadataView::Func(meta) => meta.mod_path,
            MetadataView::Object(meta) => meta.mod_path,
            MetadataView::CallbackInterface(meta) => meta.mod_path,
            MetadataView::Record(meta) => meta.mod_path,
            MetadataView::Enum(meta) => meta.mod_path,
            MetadataView::Constructor(meta) => meta.mod_path,
            MetadataView::Method(meta) => meta.mod_path,
            MetadataView::TraitMethod(meta) => meta.mod_path,
        }
    }

    /// The library that owns the item: the leading segment of its module path.
    pub open spec fn crate_name(self) -> Seq<char> {
        crate_name_of(self.mod_path())
    }
}

/// The view of an optional type.
pub open spec fn optional_type_view(ty: Option<Type>) -> Option<TypeView> {
    match ty {
        Some(t) => Some(t@),
        None => None,
    }
}

/// The views of parameters, in order.
pub open spec fn param_views(params: Seq<FnParamMetadata>) -> Seq<FnParamView> {
    Seq::new(params.len(), |i: int| params[i]@)
}

/// The views of fields, in order.
pub open spec fn field_views(fields: Seq<FieldMetadata>) -> Seq<FieldView> {
    Seq::new(fields.len(), |i: int| fields[i]@)
}

/// The views of variants, in order.
pub open spec fn variant_views(variants: Seq<VariantMetadata>) -> Seq<VariantView> {
    Seq::new(variants.len(), |i: int| variants[i]@)
}

/// The views of items, in order.
pub open spec fn metadata_views(items: Seq<Metadata>) -> Seq<MetadataView> {
    Seq::new(items.len(), |i: int| items[i]@)
}

fn optional_types_equal(a: &Option<Type>, b: &Option<Type>) -> (r: bool)
    ensures
        r == (optional_type_view(*a) == optional_type_view(*b)),
{
    match (a, b) {
        (Some(x), Some(y)) => x.equals(y),
        (None, None) => true,
        _ => false,
    }
}

fn params_equal(a: &Vec<FnParamMetadata>, b: &Vec<FnParamMetadata>) -> (r: bool)
    ensures
        r == (param_views(a@) == param_views(b@)),
{
    if a.len() != b.len() {
        assert(param_views(a@).len() != param_views(b@).len());
        return false;
    }
    let mut i: usize = 0;
    while i < a.len()
        invariant
            i <= a@.len(),
            a@.len() == b@.len(),
            forall|k: int| 0 <= k < i ==> a@[k]@ == b@[k]@,
        decreases a@.len() - i,
    {
        if !a[i].equals(&b[i]) {
            assert(param_views(a@)[i as int] != param_views(b@)[i as int]);
            return false;
        }
        i += 1;
    }
    assert(param_views(a@) =~= param_views(b@));
    true
}

fn fields_equal(a: &Vec<FieldMetadata>, b: &Vec<FieldMetadata>) -> (r: bool)
    ensures
        r == (field_views(a@) == field_views(b@)),
{
    if a.len() != b.len() {
        assert(field_views(a@).len() != field_views(b@).len());
        return false;
    }
    let mut i: usize = 0;
    while i < a.len()
        invariant
            i <= a@.len(),
            a@.len() == b@.len(),
            forall|k: int| 0 <= k < i ==> a@[k]@ == b@[k]@,
        decreases a@.len() - i,
    {
        if !a[i].equals(&b[i]) {
            assert(field_views(a@)[i as int] != field_views(b@)[i as int]);
            return false;
        }
        i += 1;
    }
    assert(field_views(a@) =~= field_views(b@));
    true
}

fn variants_equal(a: &Vec<VariantMetadata>, b: &Vec<VariantMetadata>) -> (r: bool)
    ensures
        r == (variant_views(a@) == variant_views(b@)),
{
    if a.len() != b.len() {
        assert(variant_views(a@).len() != variant_views(b@).len());
        return false;
    }
    let mut i: usize = 0;
    while i < a.len()
        invariant
            i <= a@.len(),
            a@.len() == b@.len(),
            forall|k: int| 0 <= k < i ==> a@[k]@ == b@[k]@,
        decreases a@.len() - i,
    {
        if !a[i].equals(&b[i]) {
            assert(variant_views(a@)[i as int] != variant_views(b@)[i as int]);
            return false;
        }
        i += 1;
    }
    assert(variant_views(a@) =~= variant_views(b@));
    true
}

impl NamespaceMetadata {
    /// Structural equality.
    pub fn equals(&self, other: &NamespaceMetadata) -> (r: bool)
        ensures
            r == (self@ == other@),
    {
        self.crate_name == other.crate_name && self.name == other.name
    }

    /// A copy of this declaration.
    pub fn duplicate(&self) -> (r: NamespaceMetadata)
        ensures
            r@ == self@,
    {
        NamespaceMetadata { crate_name: self.crate_name.clone(), name: self.name.clone() }
    }
}

impl UdlFile {
    /// Structural equality.
    pub fn equals(&self, other: &UdlFile) -> (r: bool)
        ensures
            r == (self@ == other@),
    {
        self.mod_path == other.mod_path && self.namespace == other.namespace && self.file_stub
            == other.file_stub
    }
}

impl FnParamMetadata {
    /// Structural equality.
    pub fn equals(&self, other: &FnParamMetadata) -> (r: bool)
        ensures
            r == (self@ == other@),
    {
        self.name == other.name && self.ty.equals(&other.ty)
    }
}

impl FnMetadata {
    /// Structural equality.
    pub fn equals(&self, other: &FnMetadata) -> (r: bool)
        ensures
            r == (self@ == other@),
    {
        self.mod_path == other.mod_path && self.name == other.name && params_equal(
            &self.inputs,
            &other.inputs,
        ) && optional_types_equal(&self.return_type, &other.return_type) && optional_types_equal(
            &self.throws,
            &other.throws,
        )
    }
}

impl ConstructorMetadata {
    /// Structural equality.
    pub fn equals(&self, other: &ConstructorMetadata) -> (r: bool)
        ensures
            r == (self@ == other@),
    {
        self.mod_path == other.mod_path && self.self_name == other.self_name && self.name
            == other.name && params_equal(&self.inputs, &other.inputs) && optional_types_equal(
            &self.return_type,
            &other.return_type,
        ) && optional_types_equal(&self.throws, &other.throws)
    }
}

impl MethodMetadata {
    /// Structural equality.
    pub fn equals(&self, other: &MethodMetadata) -> (r: bool)
        ensures
            r == (self@ == other@),
    {
        self.mod_path == other.mod_path && self.self_name == other.self_name && self.name
            == other.name && params_equal(&self.inputs, &other.inputs) && optional_types_equal(
            &self.return_type,
            &other.return_type,
        ) && optional_types_equal(&self.throws, &other.throws)
    }
}

impl TraitMethodMetadata {
    /// Structural equality.
    pub fn equals(&self, other: &TraitMethodMetadata) -> (r: bool)
        ensures
            r == (self@ == other@),
    {
        self.mod_path == other.mod_path && self.trait_name == other.trait_name && self.name
            == other.name && params_equal(&self.inputs, &other.inputs) && optional_types_equal(
            &self.return_type,
            &other.return_type,
        ) && optional_types_equal(&self.throws, &other.throws)
    }
}

impl FieldMetadata {
    /// Structural equality.
    pub fn equals(&self, other: &FieldMetadata) -> (r: bool)
        ensures
            r == (self@ == other@),
    {
        self.name == other.name && self.ty.equals(&other.ty)
    }
}

impl RecordMetadata {
    /// Structural equality.
    pub fn equals(&self, other: &RecordMetadata) -> (r: bool)
        ensures
            r == (self@ == other@),
    {
        self.mod_path == other.mod_path && self.name == other.name && fields_equal(
            &self.fields,
            &other.fields,
        )
    }
}

impl VariantMetadata {
    /// Structural equality.
    pub fn equals(&self, other: &VariantMetadata) -> (r: bool)
        ensures
            r == (self@ == other@),
    {
        self.name == other.name && fields_equal(&self.fields, &other.fields)
    }
}

impl EnumMetadata {
    /// Structural equality.
    pub fn equals(&self, other: &EnumMetadata) -> (r: bool)
        ensures
            r == (self@ == other@),
    {
        self.mod_path == other.mod_path && self.name == other.name && variants_equal(
            &self.variants,
            &other.variants,
        )
    }
}

impl ObjectMetadata {
    /// Structural equality.
    pub fn equals(&self, other: &ObjectMetadata) -> (r: bool)
        ensures
            r == (self@ == other@),
    {
        self.mod_path == other.mod_path && self.name == other.name
    }
}

impl CallbackInterfaceMetadata {
    /// Structural equality.
    pub fn equals(&self, other: &CallbackInterfaceMetadata) -> (r: bool)
        ensures
            r == (self@ == other@),
    {
        self.mod_path == other.mod_path && self.name == other.name
    }
}

impl Metadata {
    /// Structural equality.
    pub fn equals(&self, other: &Metadata) -> (r: bool)
        ensures
            r == (self@ == other@),
    {
        match (self, other) {
            (Metadata::Namespace(a), Metadata::Namespace(b)) => a.equals(b),
            (Metadata::UdlFile(a), Metadata::UdlFile(b)) => a.equals(b),
            (Metadata::Func(a), Metadata::Func(b)) => a.equals(b),
            (Metadata::Object(a), Metadata::Object(b)) => a.equals(b),
            (Metadata::CallbackInterface(a), Metadata::CallbackInterface(b)) => a.equals(b),
            (Metadata::Record(a), Metadata::Record(b)) => a.equals(b),
            (Metadata::Enum(a), Metadata::Enum(b)) => a.equals(b),
            (Metadata::Constructor(a), Metadata::Constructor(b)) => a.equals(b),
            (Metadata::Method(a), Metadata::Method(b)) => a.equals(b),
            (Metadata::TraitMethod(a), Metadata::TraitMethod(b)) => a.equals(b),
            _ => false,
        }
    }

    /// The module path that the item was declared under; for a namespace
    /// declaration, the library's identifier.
    pub fn mod_path(&self) -> (path: &str)
        ensures
            path@ == self@.mod_path(),
    {
        match self {
            Metadata::Namespace(meta) => meta.crate_name.as_str(),
            Metadata::UdlFile(meta) => meta.mod_path.as_str(),
            Metadata::Func(meta) => meta.mod_path.as_str(),
            Metadata::Object(meta) => meta.mod_path.as_str(),
            Metadata::CallbackInterface(meta) => meta.mod_path.as_str(),
            Metadata::Record(meta) => meta.mod_path.as_str(),
            Metadata::Enum(meta) => meta.mod_path.as_str(),
            Metadata::Constructor(meta) => meta.mod_path.as_str(),
            Metadata::Method(meta) => meta.mod_path.as_str(),
            Metadata::TraitMethod(meta) => meta.mod_path.as_str(),
        }
    }
}

} // verus!
