use vstd::prelude::*;

verus! {

/// How an object is implemented on the Rust side.
#[derive(Clone, Copy, Debug, PartialEq, Eq, Structural)]
pub enum ObjectImpl {
    Struct,
    /// A trait that only Rust implements.
    Trait,
    /// A trait that Rust and the foreign side both implement.
    CallbackTrait,
    /// A trait that only the foreign side implements.
    ForeignTrait,
}

/// A node of the interface's type graph.
#[derive(Debug)]
pub enum Type {
    UInt8,
    Int8,
    UInt16,
    Int16,
    UInt32,
    Int32,
    UInt64,
    Int64,
    Float32,
    Float64,
    Boolean,
    String,
    Bytes,
    Timestamp,
    Duration,
    Optional { inner_type: Box<Type> },
    Sequence { inner_type: Box<Type> },
    SetOf { inner_type: Box<Type> },
    Boxed { inner_type: Box<Type> },
    MapOf { key_type: Box<Type>, value_type: Box<Type> },
    Record { module: String, name: String },
    Enum { module: String, name: String },
    Object { module: String, name: String, imp: ObjectImpl },
    CallbackInterface { module: String, name: String },
    Custom { module: String, name: String, builtin: Box<Type> },
}

/// Two types are the same when their shapes agree and their names agree
/// character for character.
pub open spec fn type_eq(a: Type, b: Type) -> bool
    decreases a,
{
    match (a, b) {
        (Type::Optional { inner_type: x }, Type::Optional { inner_type: y }) => type_eq(*x, *y),
        (Type::Sequence { inner_type: x }, Type::Sequence { inner_type: y }) => type_eq(*x, *y),
        (Type::SetOf { inner_type: x }, Type::SetOf { inner_type: y }) => type_eq(*x, *y),
        (Type::Boxed { inner_type: x }, Type::Boxed { inner_type: y }) => type_eq(*x, *y),
        (Type::MapOf { key_type: k1, value_type: v1 }, Type::MapOf { key_type: k2, value_type: v2 }) =>
            type_eq(*k1, *k2) && type_eq(*v1, *v2),
        (Type::Record { module: m1, name: n1 }, Type::Record { module: m2, name: n2 }) =>
            m1@ == m2@ && n1@ == n2@,
        (Type::Enum { module: m1, name: n1 }, Type::Enum { module: m2, name: n2 }) =>
            m1@ == m2@ && n1@ == n2@,
        (
            Type::Object { module: m1, name: n1, imp: i1 },
            Type::Object { module: m2, name: n2, imp: i2 },
        ) => m1@ == m2@ && n1@ == n2@ && i1 == i2,
        (
            Type::CallbackInterface { module: m1, name: n1 },
            Type::CallbackInterface { module: m2, name: n2 },
        ) => m1@ == m2@ && n1@ == n2@,
        (
            Type::Custom { module: m1, name: n1, builtin: x },
            Type::Custom { module: m2, name: n2, builtin: y },
        ) => m1@ == m2@ && n1@ == n2@ && type_eq(*x, *y),
        (Type::UInt8, Type::UInt8) => true,
        (Type::Int8, Type::Int8) => true,
        (Type::UInt16, Type::UInt16) => true,
        (Type::Int16, Type::Int16) => true,
        (Type::UInt32, Type::UInt32) => true,
        (Type::Int32, Type::Int32) => true,
        (Type::UInt64, Type::UInt64) => true,
        (Type::Int64, Type::Int64) => true,
        (Type::Float32, Type::Float32) => true,
        (Type::Float64, Type::Float64) => true,
        (Type::Boolean, Type::Boolean) => true,
        (Type::String, Type::String) => true,
        (Type::Bytes, Type::Bytes) => true,
        (Type::Timestamp, Type::Timestamp) => true,
        (Type::Duration, Type::Duration) => true,
        _ => false,
    }
}

/// The identity of a named type: its name and the module that declares it.
/// Types without a name have no identity and never conflict.
pub open spec fn identity(t: Type) -> Option<(Seq<char>, Seq<char>)> {
    match t {
        Type::Record { module, name } => Some((name@, module@)),
        Type::Enum { module, name } => Some((name@, module@)),
        Type::Object { module, name, .. } => Some((name@, module@)),
        Type::CallbackInterface { module, name } => Some((name@, module@)),
        Type::Custom { module, name, .. } => Some((name@, module@)),
        _ => None,
    }
}

/// Every type equals itself.
pub proof fn lemma_type_eq_reflexive(t: Type)
    ensures
        type_eq(t, t),
    decreases t,
{
    match t {
        Type::Optional { inner_type } => lemma_type_eq_reflexive(*inner_type),
        Type::Sequence { inner_type } => lemma_type_eq_reflexive(*inner_type),
        Type::SetOf { inner_type } => lemma_type_eq_reflexive(*inner_type),
        Type::Boxed { inner_type } => lemma_type_eq_reflexive(*inner_type),
        Type::MapOf { key_type, value_type } => {
            lemma_type_eq_reflexive(*key_type);
            lemma_type_eq_reflexive(*value_type);
        },
        Type::Custom { builtin, .. } => lemma_type_eq_reflexive(*builtin),
        _ => {},
    }
}

/// Decides `type_eq`.
pub fn same_type(a: &Type, b: &Type) -> (r: bool)
    ensures
        r == type_eq(*a, *b),
    decreases a,
{
    match (a, b) {
        (Type::Optional { inner_type: x }, Type::Optional { inner_type: y }) => same_type(x, y),
        (Type::Sequence { inner_type: x }, Type::Sequence { inner_type: y }) => same_type(x, y),
        (Type::SetOf { inner_type: x }, Type::SetOf { inner_type: y }) => same_type(x, y),
        (Type::Boxed { inner_type: x }, Type::Boxed { inner_type: y }) => same_type(x, y),
        (Type::MapOf { key_type: k1, value_type: v1 }, Type::MapOf { key_type: k2, value_type: v2 }) =>
            same_type(k1, k2) && same_type(v1, v2),
        (Type::Record { module: m1, name: n1 }, Type::Record { module: m2, name: n2 }) =>
            *m1 == *m2 && *n1 == *n2,
        (Type::Enum { module: m1, name: n1 }, Type::Enum { module: m2, name: n2 }) =>
            *m1 == *m2 && *n1 == *n2,
        (
            Type::Object { module: m1, name: n1, imp: i1 },
            Type::Object { module: m2, name: n2, imp: i2 },
        ) => *m1 == *m2 && *n1 == *n2 && *i1 == *i2,
        (
            Type::CallbackInterface { module: m1, name: n1 },
            Type::CallbackInterface { module: m2, name: n2 },
        ) => *m1 == *m2 && *n1 == *n2,
        (
            Type::Custom { module: m1, name: n1, builtin: x },
            Type::Custom { module: m2, name: n2, builtin: y },
        ) => *m1 == *m2 && *n1 == *n2 && same_type(x, y),
        (Type::UInt8, Type::UInt8) => true,
        (Type::Int8, Type::Int8) => true,
        (Type::UInt16, Type::UInt16) => true,
        (Type::Int16, Type::Int16) => true,
        (Type::UInt32, Type::UInt32) => true,
        (Type::Int32, Type::Int32) => true,
        (Type::UInt64, Type::UInt64) => true,
        (Type::Int64, Type::Int64) => true,
        (Type::Float32, Type::Float32) => true,
        (Type::Float64, Type::Float64) => true,
        (Type::Boolean, Type::Boolean) => true,
        (Type::String, Type::String) => true,
        (Type::Bytes, Type::Bytes) => true,
        (Type::Timestamp, Type::Timestamp) => true,
        (Type::Duration, Type::Duration) => true,
        _ => false,
    }
}

/// Copies a type.
pub fn copy_type(t: &Type) -> (r: Type)
    ensures
        r == *t,
    decreases t,
{
    match t {
        Type::Optional { inner_type } => Type::Optional { inner_type: Box::new(copy_type(inner_type)) },
        Type::Sequence { inner_type } => Type::Sequence { inner_type: Box::new(copy_type(inner_type)) },
        Type::SetOf { inner_type } => Type::SetOf { inner_type: Box::new(copy_type(inner_type)) },
        Type::Boxed { inner_type } => Type::Boxed { inner_type: Box::new(copy_type(inner_type)) },
        Type::MapOf { key_type, value_type } => Type::MapOf {
            key_type: Box::new(copy_type(key_type)),
            value_type: Box::new(copy_type(value_type)),
        },
        Type::Record { module, name } => Type::Record { module: module.clone(), name: name.clone() },
        Type::Enum { module, name } => Type::Enum { module: module.clone(), name: name.clone() },
        Type::Object { module, name, imp } => Type::Object { module: module.clone(), name: name.clone(), imp: *imp },
        Type::CallbackInterface { module, name } => Type::CallbackInterface { module: module.clone(), name: name.clone() },
        Type::Custom { module, name, builtin } => Type::Custom {
            module: module.clone(),
            name: name.clone(),
            builtin: Box::new(copy_type(builtin)),
        },
        Type::UInt8 => Type::UInt8,
        Type::Int8 => Type::Int8,
        Type::UInt16 => Type::UInt16,
        Type::Int16 => Type::Int16,
        Type::UInt32 => Type::UInt32,
        Type::Int32 => Type::Int32,
        Type::UInt64 => Type::UInt64,
        Type::Int64 => Type::Int64,
        Type::Float32 => Type::Float32,
        Type::Float64 => Type::Float64,
        Type::Boolean => Type::Boolean,
        Type::String => Type::String,
        Type::Bytes => Type::Bytes,
        Type::Timestamp => Type::Timestamp,
        Type::Duration => Type::Duration,
    }
}

/// Decides whether two types have the same identity.
pub fn same_identity(a: &Type, b: &Type) -> (r: bool)
    ensures
        r == (identity(*a) is Some && identity(*a) == identity(*b)),
{
    let (n1, m1) = match a {
        Type::Record { module, name } => (name, module),
        Type::Enum { module, name } => (name, module),
        Type::Object { module, name, .. } => (name, module),
        Type::CallbackInterface { module, name } => (name, module),
        Type::Custom { module, name, .. } => (name, module),
        _ => {
            return false;
        },
    };
    let (n2, m2) = match b {
        Type::Record { module, name } => (name, module),
        Type::Enum { module, name } => (name, module),
        Type::Object { module, name, .. } => (name, module),
        Type::CallbackInterface { module, name } => (name, module),
        Type::Custom { module, name, .. } => (name, module),
        _ => {
            return false;
        },
    };
    *n1 == *n2 && *m1 == *m2
}

} // verus!
