//! The vocabulary of types that metadata items speak of, and its
//! mathematical view.

use vstd::prelude::*;

verus! {

/// Whether an external type is passed by value or by handle.
#[derive(Debug, Clone, Copy, PartialEq, Eq, Structural)]
pub enum ExternalKind {
    Interface,
    DataClass,
}

/// The shape of a value that crosses the binding boundary.
#[derive(Debug, PartialEq, Eq)]
pub enum Type {
    UInt8,
    Int8,
    UInt16,
    Int16,
    UInt32,
    Int32,
    UInt64,
    Int64,
    Float32,
    Float64,
    Boolean,
    String,
    Bytes,
    Timestamp,
    Duration,
    /// A reference-counted handle to an object.
    Object { mod_path: String, name: String },
    Record { mod_path: String, name: String },
    Enum { mod_path: String, name: String },
    CallbackInterface { mod_path: String, name: String },
    /// A user-defined wrapper that travels as the wrapped builtin type.
    Custom { mod_path: String, name: String, builtin: Box<Type> },
    Optional { inner_type: Box<Type> },
    Sequence { inner_type: Box<Type> },
    Mapping { key_type: Box<Type>, value_type: Box<Type> },
    /// A type owned by another library.
    External {
        namespace: String,
        mod_path: String,
        name: String,
        kind: ExternalKind,
        tagged: bool,
        contains_object_references: bool,
    },
}

/// What a [`Type`] stands for: the same shape over sequences of characters.
pub enum TypeView {
    UInt8,
    Int8,
    UInt16,
    Int16,
    UInt32,
    Int32,
    UInt64,
    Int64,
    Float32,
    Float64,
    Boolean,
    String,
    Bytes,
    Timestamp,
    Duration,
    Object { mod_path: Seq<char>, name: Seq<char> },
    Record { mod_path: Seq<char>, name: Seq<char> },
    Enum { mod_path: Seq<char>, name: Seq<char> },
    CallbackInterface { mod_path: Seq<char>, name: Seq<char> },
    Custom { mod_path: Seq<char>, name: Seq<char>, builtin: Box<TypeView> },
    Optional { inner_type: Box<TypeView> },
    Sequence { inner_type: Box<TypeView> },
    Mapping { key_type: Box<TypeView>, value_type: Box<TypeView> },
    External {
        namespace: Seq<char>,
        mod_path: Seq<char>,
        name: Seq<char>,
        kind: ExternalKind,
        tagged: bool,
        contains_object_references: bool,
    },
}

/// The view of a type, by recursion on its structure.
pub open spec fn type_view(t: Type) -> TypeView
    decreases t,
{
    match t {
        Type::UInt8 => TypeView::UInt8,
        Type::Int8 => TypeView::Int8,
        Type::UInt16 => TypeView::UInt16,
        Type::Int16 => TypeView::Int16,
        Type::UInt32 => TypeView::UInt32,
        Type::Int32 => TypeView::Int32,
        Type::UInt64 => TypeView::UInt64,
        Type::Int64 => TypeView::Int64,
        Type::Float32 => TypeView::Float32,
        Type::Float64 => TypeView::Float64,
        Type::Boolean => TypeView::Boolean,
        Type::String => TypeView::String,
        Type::Bytes => TypeView::Bytes,
        Type::Timestamp => TypeView::Timestamp,
        Type::Duration => TypeView::Duration,
        Type::Object { mod_path, name } => TypeView::Object { mod_path: mod_path@, name: name@ },
        Type::Record { mod_path, name } => TypeView::Record { mod_path: mod_path@, name: name@ },
        Type::Enum { mod_path, name } => TypeView::Enum { mod_path: mod_path@, name: name@ },
        Type::CallbackInterface { mod_path, name } => TypeView::CallbackInterface {
            mod_path: mod_path@,
            name: name@,
        },
        Type::Custom { mod_path, name, builtin } => TypeView::Custom {
            mod_path: mod_path@,
            name: name@,
            builtin: Box::new(type_view(*builtin)),
        },
        Type::Optional { inner_type } => TypeView::Optional {
            inner_type: Box::new(type_view(*inner_type)),
        },
        Type::Sequence { inner_type } => TypeView::Sequence {
            inner_type: Box::new(type_view(*inner_type)),
        },
        Type::Mapping { key_type, value_type } => TypeView::Mapping {
            key_type: Box::new(type_view(*key_type)),
            value_type: Box::new(type_view(*value_type)),
        },
        Type::External {
            namespace,
            mod_path,
            name,
            kind,
            tagged,
            contains_object_references,
        } => TypeView::External {
            namespace: namespace@,
            mod_path: mod_path@,
            name: name@,
            kind,
            tagged,
            contains_object_references,
        },
    }
}

impl View for Type {
    type V = TypeView;

    open spec fn view(&self) -> TypeView {
        type_view(*self)
    }
}

/// The views of a sequence of borrowed types.
pub open spec fn type_views(types: Seq<&Type>) -> Seq<TypeView> {
    Seq::new(types.len(), |i: int| types[i]@)
}

/// The types that a type is made of: the type itself, followed by those
/// nested in optionals, sequences and mappings. The builtin type behind a
/// custom type is not part of it.
pub open spec fn flatten_type(t: TypeView) -> Seq<TypeView>
    decreases t,
{
    match t {
        TypeView::Optional { inner_type } => seq![t] + flatten_type(*inner_type),
        TypeView::Sequence { inner_type } => seq![t] + flatten_type(*inner_type),
        TypeView::Mapping { key_type, value_type } => seq![t] + flatten_type(*key_type)
            + flatten_type(*value_type),
        _ => seq![t],
    }
}

impl Type {
    /// Structural equality.
    pub fn equals(&self, other: &Type) -> (r: bool)
        ensures
            r == (self@ == other@),
        decreases self,
    {
        match (self, other) {
            (Type::UInt8, Type::UInt8) => true,
            (Type::Int8, Type::Int8) => true,
            (Type::UInt16, Type::UInt16) => true,
            (Type::Int16, Type::Int16) => true,
            (Type::UInt32, Type::UInt32) => true,
            (Type::Int32, Type::Int32) => true,
            (Type::UInt64, Type::UInt64) => true,
            (Type::Int64, Type::Int64) => true,
            (Type::Float32, Type::Float32) => true,
            (Type::Float64, Type::Float64) => true,
            (Type::Boolean, Type::Boolean) => true,
            (Type::String, Type::String) => true,
            (Type::Bytes, Type::Bytes) => true,
            (Type::Timestamp, Type::Timestamp) => true,
            (Type::Duration, Type::Duration) => true,
            (Type::Object { mod_path: m1, name: n1 }, Type::Object { mod_path: m2, name: n2 }) => {
                *m1 == *m2 && *n1 == *n2
            },
            (Type::Record { mod_path: m1, name: n1 }, Type::Record { mod_path: m2, name: n2 }) => {
                *m1 == *m2 && *n1 == *n2
            },
            (Type::Enum { mod_path: m1, name: n1 }, Type::Enum { mod_path: m2, name: n2 }) => {
                *m1 == *m2 && *n1 == *n2
            },
            (
                Type::CallbackInterface { mod_path: m1, name: n1 },
                Type::CallbackInterface { mod_path: m2, name: n2 },
            ) => *m1 == *m2 && *n1 == *n2,
            (
                Type::Custom { mod_path: m1, name: n1, builtin: b1 },
                Type::Custom { mod_path: m2, name: n2, builtin: b2 },
            ) => *m1 == *m2 && *n1 == *n2 && b1.equals(b2),
            (Type::Optional { inner_type: i1 }, Type::Optional { inner_type: i2 }) => i1.equals(i2),
            (Type::Sequence { inner_type: i1 }, Type::Sequence { inner_type: i2 }) => i1.equals(i2),
            (
                Type::Mapping { key_type: k1, value_type: v1 },
                Type::Mapping { key_type: k2, value_type: v2 },
            ) => k1.equals(k2) && v1.equals(v2),
            (
                Type::External {
                    namespace: s1,
                    mod_path: m1,
                    name: n1,
                    kind: k1,
                    tagged: t1,
                    contains_object_references: c1,
                },
                Type::External {
                    namespace: s2,
                    mod_path: m2,
                    name: n2,
                    kind: k2,
                    tagged: t2,
                    contains_object_references: c2,
                },
            ) => *s1 == *s2 && *m1 == *m2 && *n1 == *n2 && *k1 == *k2 && *t1 == *t2 && *c1 == *c2,
            _ => false,
        }
    }

    /// A copy of this type.
    pub fn duplicate(&self) -> (r: Type)
        ensures
            r@ == self@,
        decreases self,
    {
        match self {
            Type::UInt8 => Type::UInt8,
            Type::Int8 => Type::Int8,
            Type::UInt16 => Type::UInt16,
            Type::Int16 => Type::Int16,
            Type::UInt32 => Type::UInt32,
            Type::Int32 => Type::Int32,
            Type::UInt64 => Type::UInt64,
            Type::Int64 => Type::Int64,
            Type::Float32 => Type::Float32,
            Type::Float64 => Type::Float64,
            Type::Boolean => Type::Boolean,
            Type::String => Type::String,
            Type::Bytes => Type::Bytes,
            Type::Timestamp => Type::Timestamp,
            Type::Duration => Type::Duration,
            Type::Object { mod_path, name } => Type::Object {
                mod_path: mod_path.clone(),
                name: name.clone(),
            },
            Type::Record { mod_path, name } => Type::Record {
                mod_path: mod_path.clone(),
                name: name.clone(),
            },
            Type::Enum { mod_path, name } => Type::Enum {
                mod_path: mod_path.clone(),
                name: name.clone(),
            },
            Type::CallbackInterface { mod_path, name } => Type::CallbackInterface {
                mod_path: mod_path.clone(),
                name: name.clone(),
            },
            Type::Custom { mod_path, name, builtin } => Type::Custom {
                mod_path: mod_path.clone(),
                name: name.clone(),
                builtin: Box::new(builtin.duplicate()),
            },
            Type::Optional { inner_type } => Type::Optional {
                inner_type: Box::new(inner_type.duplicate()),
            },
            Type::Sequence { inner_type } => Type::Sequence {
                inner_type: Box::new(inner_type.duplicate()),
            },
            Type::Mapping { key_type, value_type } => Type::Mapping {
                key_type: Box::new(key_type.duplicate()),
                value_type: Box::new(value_type.duplicate()),
            },
            Type::External {
                namespace,
                mod_path,
                name,
                kind,
                tagged,
                contains_object_references,
            } => Type::External {
                namespace: namespace.clone(),
                mod_path: mod_path.clone(),
                name: name.clone(),
                kind: *kind,
                tagged: *tagged,
                contains_object_references: *contains_object_references,
            },
        }
    }

    /// The types that this type is made of, itself first (see
    /// [`flatten_type`]).
    pub fn iter_types(&self) -> (types: Vec<&Type>)
        ensures
            type_views(types@) == flatten_type(self@),
        decreases self,
    {
        let mut types: Vec<&Type> = Vec::new();
        types.push(self);
        match self {
            Type::Optional { inner_type } => {
                let mut nested = inner_type.iter_types();
                let ghost before = types@;
                let ghost added = nested@;
                types.append(&mut nested);
                assert(type_views(before + added) =~= type_views(before) + type_views(added));
                assert(type_views(before) =~= seq![self@]);
            },
            Type::Sequence { inner_type } => {
                let mut nested = inner_type.iter_types();
                let ghost before = types@;
                let ghost added = nested@;
                types.append(&mut nested);
                assert(type_views(before + added) =~= type_views(before) + type_views(added));
                assert(type_views(before) =~= seq![self@]);
            },
            Type::Mapping { key_type, value_type } => {
                let mut keys = key_type.iter_types();
                let mut values = value_type.iter_types();
                let ghost before = types@;
                let ghost key_types = keys@;
                let ghost value_types = values@;
                types.append(&mut keys);
                types.append(&mut values);
                assert(type_views(before + key_types + value_types) =~= type_views(before)
                    + type_views(key_types) + type_views(value_types));
                assert(type_views(before) =~= seq![self@]);
            },
            _ => {
                assert(type_views(types@) =~= seq![self@]);
            },
        }
        types
    }
}

impl Clone for Type {
    fn clone(&self) -> (r: Self)
        ensures
            r@ == self@,
    {
        self.duplicate()
    }
}

} // verus!
