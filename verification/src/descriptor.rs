//! The signature encoder: wire type to boundary method descriptor, and
//! wire type to host-language type spelling.

use vstd::prelude::*;

use crate::ir::{JniType, JniTypeV};

verus! {

/// The descriptor the host runtime uses to resolve a method by
/// signature.  Optionality is erased: `Optional(T)` has the descriptor
/// of `T` and is recovered only by a runtime null check.
pub open spec fn descriptor_of(t: JniTypeV) -> Seq<char>
    decreases t,
{
    match t {
        JniTypeV::Int32 => "I"@,
        JniTypeV::Int64 => "J"@,
        JniTypeV::UInt64 => "J"@,
        JniTypeV::Float32 => "F"@,
        JniTypeV::Float64 => "D"@,
        JniTypeV::Bool => "Z"@,
        JniTypeV::Utf8String => "Ljava/lang/String;"@,
        JniTypeV::ByteBuffer => "[B"@,
        JniTypeV::Void => "V"@,
        JniTypeV::ObjectHandle(_) => "J"@,
        JniTypeV::NamedType(name) => "L"@ + name + ";"@,
        JniTypeV::CallbackType(name) => "L"@ + name + ";"@,
        JniTypeV::Optional(inner) => descriptor_of(*inner),
    }
}

/// The descriptor is a function of the wire type alone: equal types
/// have equal descriptors.
pub proof fn lemma_descriptor_deterministic(a: JniTypeV, b: JniTypeV)
    requires
        a == b,
    ensures
        descriptor_of(a) == descriptor_of(b),
{
}

/// Optionality is erased at the descriptor level: a nullable type and
/// its payload have the same descriptor.
pub proof fn lemma_descriptor_optional_erased(t: JniTypeV)
    ensures
        descriptor_of(JniTypeV::Optional(Box::new(t))) == descriptor_of(t),
{
}

/// Compute the boundary method descriptor of a wire type.
pub fn jni_type_to_jni_method_signature_type(jni_type: &JniType) -> (out: String)
    ensures
        out@ == descriptor_of(jni_type@),
    decreases *jni_type,
{
    match jni_type {
        JniType::Int32 => String::from_str("I"),
        JniType::Int64 => String::from_str("J"),
        JniType::UInt64 => String::from_str("J"),
        JniType::Float32 => String::from_str("F"),
        JniType::Float64 => String::from_str("D"),
        JniType::Bool => String::from_str("Z"),
        JniType::Utf8String => String::from_str("Ljava/lang/String;"),
        JniType::ByteBuffer => String::from_str("[B"),
        JniType::Void => String::from_str("V"),
        JniType::ObjectHandle(_) => String::from_str("J"),
        JniType::NamedType(name) => {
            let mut out = String::from_str("L");
            out.append(name.as_str());
            out.append(";");
            out
        },
        JniType::CallbackType(name) => {
            let mut out = String::from_str("L");
            out.append(name.as_str());
            out.append(";");
            out
        },
        JniType::Optional(inner) => jni_type_to_jni_method_signature_type(&**inner),
    }
}

/// Whether a wire type can be spelt as a host-language type: the
/// receiver's handle never appears in host source.
pub open spec fn kotlin_ok(t: JniTypeV) -> bool
    decreases t,
{
    match t {
        JniTypeV::ObjectHandle(_) => false,
        JniTypeV::Optional(inner) => kotlin_ok(*inner),
        _ => true,
    }
}

/// The host-language spelling of a wire type; a nullable position
/// appends the host null marker.
pub open spec fn kotlin_of(t: JniTypeV, is_nullable: bool) -> Seq<char>
    decreases t,
{
    let base = match t {
        JniTypeV::Int32 => "Int"@,
        JniTypeV::Int64 => "Long"@,
        JniTypeV::UInt64 => "Long"@,
        JniTypeV::Float32 => "Float"@,
        JniTypeV::Float64 => "Double"@,
        JniTypeV::Utf8String => "String"@,
        JniTypeV::Bool => "Boolean"@,
        JniTypeV::ByteBuffer => "ByteArray"@,
        JniTypeV::NamedType(name) => name,
        JniTypeV::ObjectHandle(_) => Seq::empty(),
        JniTypeV::CallbackType(name) => name,
        JniTypeV::Void => "Unit"@,
        JniTypeV::Optional(inner) => kotlin_of(*inner, true),
    };
    if is_nullable {
        base + "?"@
    } else {
        base
    }
}

/// Spell a wire type in the host language.
pub fn jni_to_kotlin_type(ty: &JniType, is_nullable: bool) -> (out: String)
    requires
        kotlin_ok(ty@),
    ensures
        out@ == kotlin_of(ty@, is_nullable),
    decreases *ty,
{
    let mut out = match ty {
        JniType::Int32 => String::from_str("Int"),
        JniType::Int64 => String::from_str("Long"),
        JniType::UInt64 => String::from_str("Long"),
        JniType::Float32 => String::from_str("Float"),
        JniType::Float64 => String::from_str("Double"),
        JniType::Utf8String => String::from_str("String"),
        JniType::Bool => String::from_str("Boolean"),
        JniType::ByteBuffer => String::from_str("ByteArray"),
        JniType::NamedType(name) => name.clone(),
        JniType::ObjectHandle(_) => String::new(),
        JniType::CallbackType(name) => name.clone(),
        JniType::Void => String::from_str("Unit"),
        JniType::Optional(inner) => jni_to_kotlin_type(&**inner, true),
    };
    if is_nullable {
        out.append("?");
    }
    out
}

/// Whether a wire type can stand in a boundary entry-point signature:
/// an explicit unit value cannot.
pub open spec fn rust_jni_ok(t: JniTypeV) -> bool {
    !(t is Void)
}

/// The native-side entry-point spelling of a wire type: the raw
/// boundary value type; every nullable or object-shaped position is a
/// generic boundary object reference.
pub open spec fn rust_jni_ty_of(t: JniTypeV, is_optional: bool) -> Seq<char>
    decreases t,
{
    if is_optional {
        "jni::objects::JObject<'local>"@
    } else {
        match t {
            JniTypeV::Int32 => "jni::sys::jint"@,
            JniTypeV::Int64 => "jni::sys::jlong"@,
            JniTypeV::UInt64 => "jni::sys::jlong"@,
            JniTypeV::Float32 => "jni::sys::jfloat"@,
            JniTypeV::Float64 => "jni::sys::jdouble"@,
            JniTypeV::Utf8String => "jni::objects::JString<'local>"@,
            JniTypeV::Bool => "jni::sys::jboolean"@,
            JniTypeV::ByteBuffer => "jni::objects::JByteArray"@,
            JniTypeV::CallbackType(_) => "jni::objects::JObject<'local>"@,
            JniTypeV::NamedType(_) => "jni::objects::JObject<'local>"@,
            JniTypeV::ObjectHandle(_) => "jni::sys::jlong"@,
            JniTypeV::Void => Seq::empty(),
            JniTypeV::Optional(inner) => rust_jni_ty_of(*inner, true),
        }
    }
}

/// Spell the raw boundary value type of a wire type for the
/// native-side entry-point signature.
pub fn rust_jni_type(ty: &JniType, is_optional: bool) -> (out: String)
    requires
        is_optional || rust_jni_ok(ty@),
    ensures
        out@ == rust_jni_ty_of(ty@, is_optional),
    decreases *ty,
{
    if is_optional {
        String::from_str("jni::objects::JObject<'local>")
    } else {
        match ty {
            JniType::Int32 => String::from_str("jni::sys::jint"),
            JniType::Int64 => String::from_str("jni::sys::jlong"),
            JniType::UInt64 => String::from_str("jni::sys::jlong"),
            JniType::Float32 => String::from_str("jni::sys::jfloat"),
            JniType::Float64 => String::from_str("jni::sys::jdouble"),
            JniType::Utf8String => String::from_str("jni::objects::JString<'local>"),
            JniType::Bool => String::from_str("jni::sys::jboolean"),
            JniType::ByteBuffer => String::from_str("jni::objects::JByteArray"),
            JniType::CallbackType(_) => String::from_str("jni::objects::JObject<'local>"),
            JniType::NamedType(_) => String::from_str("jni::objects::JObject<'local>"),
            JniType::ObjectHandle(_) => String::from_str("jni::sys::jlong"),
            JniType::Void => String::new(),
            JniType::Optional(inner) => rust_jni_type(&**inner, true),
        }
    }
}

} // verus!
