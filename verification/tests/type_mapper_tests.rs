use kotars::ir::JniType;
use kotars::type_mapper::parse_jni_type;

#[test]
fn primitives_map_to_primitive_wire_types() {
    assert_eq!(parse_jni_type("i32"), JniType::Int32);
    assert_eq!(parse_jni_type("i64"), JniType::Int64);
    assert_eq!(parse_jni_type("u64"), JniType::UInt64);
    assert_eq!(parse_jni_type("f32"), JniType::Float32);
    assert_eq!(parse_jni_type("f64"), JniType::Float64);
    assert_eq!(parse_jni_type("String"), JniType::Utf8String);
    assert_eq!(parse_jni_type("bool"), JniType::Bool);
}

#[test]
fn byte_buffer_spelling() {
    assert_eq!(parse_jni_type("Vec<u8>"), JniType::ByteBuffer);
    assert_eq!(parse_jni_type("Vec < u8 >"), JniType::ByteBuffer);
}

#[test]
fn generic_list_text_stays_a_named_type() {
    assert_eq!(
        parse_jni_type("Vec<i32>"),
        JniType::NamedType(String::from("Vec<i32>"))
    );
    assert_eq!(
        parse_jni_type("Vec < FileChanged >"),
        JniType::NamedType(String::from("Vec < FileChanged >"))
    );
}

#[test]
fn optional_wrapper_recurses() {
    assert_eq!(
        parse_jni_type("Option < i32 >"),
        JniType::Optional(Box::new(JniType::Int32))
    );
    assert_eq!(
        parse_jni_type("Option < Option < i32 > >"),
        JniType::Optional(Box::new(JniType::Optional(Box::new(JniType::Int32))))
    );
    assert_eq!(
        parse_jni_type("Option < String >"),
        JniType::Optional(Box::new(JniType::Utf8String))
    );
}

#[test]
fn optional_spelling_is_spacing_sensitive() {
    // without the exact spacing the text falls through to a named type
    assert_eq!(
        parse_jni_type("Option<i32>"),
        JniType::NamedType(String::from("Option<i32>"))
    );
}

#[test]
fn callback_marker_yields_callback_type() {
    assert_eq!(
        parse_jni_type("impl Watcher"),
        JniType::CallbackType(String::from("Watcher"))
    );
}

#[test]
fn unrecognized_text_defaults_to_named_type() {
    assert_eq!(
        parse_jni_type("FileChanged"),
        JniType::NamedType(String::from("FileChanged"))
    );
    assert_eq!(parse_jni_type(""), JniType::NamedType(String::new()));
}
