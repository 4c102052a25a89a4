use kotars::descriptor::{jni_to_kotlin_type, jni_type_to_jni_method_signature_type, rust_jni_type};
use kotars::ir::JniType;

#[test]
fn primitive_descriptors() {
    assert_eq!(jni_type_to_jni_method_signature_type(&JniType::Int32), "I");
    assert_eq!(jni_type_to_jni_method_signature_type(&JniType::Int64), "J");
    assert_eq!(jni_type_to_jni_method_signature_type(&JniType::UInt64), "J");
    assert_eq!(jni_type_to_jni_method_signature_type(&JniType::Float32), "F");
    assert_eq!(jni_type_to_jni_method_signature_type(&JniType::Float64), "D");
    assert_eq!(jni_type_to_jni_method_signature_type(&JniType::Bool), "Z");
    assert_eq!(jni_type_to_jni_method_signature_type(&JniType::Void), "V");
}

#[test]
fn object_shaped_descriptors() {
    assert_eq!(
        jni_type_to_jni_method_signature_type(&JniType::Utf8String),
        "Ljava/lang/String;"
    );
    assert_eq!(jni_type_to_jni_method_signature_type(&JniType::ByteBuffer), "[B");
    assert_eq!(
        jni_type_to_jni_method_signature_type(&JniType::NamedType(String::from("FileChanged"))),
        "LFileChanged;"
    );
    assert_eq!(
        jni_type_to_jni_method_signature_type(&JniType::CallbackType(String::from("Watcher"))),
        "LWatcher;"
    );
    assert_eq!(
        jni_type_to_jni_method_signature_type(&JniType::ObjectHandle(String::from("Kebab"))),
        "J"
    );
}

#[test]
fn descriptor_is_deterministic() {
    let a = jni_type_to_jni_method_signature_type(&JniType::NamedType(String::from("Foo")));
    let b = jni_type_to_jni_method_signature_type(&JniType::NamedType(String::from("Foo")));
    assert_eq!(a, b);
}

#[test]
fn optionality_is_erased_in_descriptors() {
    let plain = jni_type_to_jni_method_signature_type(&JniType::Int32);
    let optional =
        jni_type_to_jni_method_signature_type(&JniType::Optional(Box::new(JniType::Int32)));
    assert_eq!(plain, optional);
    assert_eq!(optional, "I");
}

#[test]
fn kotlin_type_spellings() {
    assert_eq!(jni_to_kotlin_type(&JniType::Int32, false), "Int");
    assert_eq!(jni_to_kotlin_type(&JniType::Int64, false), "Long");
    assert_eq!(jni_to_kotlin_type(&JniType::Bool, false), "Boolean");
    assert_eq!(jni_to_kotlin_type(&JniType::ByteBuffer, false), "ByteArray");
    assert_eq!(jni_to_kotlin_type(&JniType::Utf8String, false), "String");
    assert_eq!(
        jni_to_kotlin_type(&JniType::Optional(Box::new(JniType::Utf8String)), false),
        "String?"
    );
    assert_eq!(
        jni_to_kotlin_type(&JniType::NamedType(String::from("FileChanged")), false),
        "FileChanged"
    );
}

#[test]
fn entry_point_value_types() {
    assert_eq!(rust_jni_type(&JniType::Int32, false), "jni::sys::jint");
    assert_eq!(rust_jni_type(&JniType::Bool, false), "jni::sys::jboolean");
    assert_eq!(
        rust_jni_type(&JniType::Utf8String, false),
        "jni::objects::JString<'local>"
    );
    assert_eq!(
        rust_jni_type(&JniType::Optional(Box::new(JniType::Int32)), false),
        "jni::objects::JObject<'local>"
    );
}
