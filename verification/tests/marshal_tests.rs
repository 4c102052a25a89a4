use kotars::ir::JniType;
use kotars::marshal::{
    generate_field_mapping_into_array, rust_fn_call_from_jni_type, rust_property_to_jni_type,
    transform_jni_type_to_rust, transform_rust_to_jni_type,
};
use kotars::names::string_to_camel_case;

#[test]
fn camel_case_conversion() {
    assert_eq!(string_to_camel_case("is_yummy"), "isYummy");
    assert_eq!(string_to_camel_case("detected_change"), "detectedChange");
    assert_eq!(string_to_camel_case("a__b"), "aB");
    assert_eq!(string_to_camel_case("word"), "word");
    assert_eq!(string_to_camel_case(""), "");
    assert_eq!(string_to_camel_case("two words"), "twoWords");
}

#[test]
fn primitive_unmarshal_marshal_pairs() {
    // for each primitive the unmarshal cast and the marshal cast are
    // inverse representation changes on the same name
    assert_eq!(
        transform_jni_type_to_rust(&JniType::Int32, "x", false),
        "let x = x as i32;\n"
    );
    assert_eq!(
        transform_rust_to_jni_type(&JniType::Int32, "x", false),
        "let x = x as jni::sys::jint;\n"
    );
    assert_eq!(
        transform_jni_type_to_rust(&JniType::Int64, "x", false),
        "let x = x as i64;\n"
    );
    assert_eq!(
        transform_rust_to_jni_type(&JniType::Int64, "x", false),
        "let x = x as jni::sys::jlong;\n"
    );
    assert_eq!(
        transform_jni_type_to_rust(&JniType::UInt64, "x", false),
        "let x = x as u64;\n"
    );
    assert_eq!(
        transform_rust_to_jni_type(&JniType::UInt64, "x", false),
        "let x = x as jni::sys::jlong;\n"
    );
    assert_eq!(
        transform_jni_type_to_rust(&JniType::Float32, "x", false),
        "let x = x as f32;\n"
    );
    assert_eq!(
        transform_rust_to_jni_type(&JniType::Float32, "x", false),
        "let x = x as jni::sys::jfloat;\n"
    );
    assert_eq!(
        transform_jni_type_to_rust(&JniType::Float64, "x", false),
        "let x = x as f64;\n"
    );
    assert_eq!(
        transform_rust_to_jni_type(&JniType::Float64, "x", false),
        "let x = x as jni::sys::jdouble;\n"
    );
}

#[test]
fn boolean_unmarshals_through_equality_with_one() {
    let text = transform_jni_type_to_rust(&JniType::Bool, "flag", false);
    assert_eq!(text, "let flag = flag as u8;\nlet flag = flag == 1;\n");
    assert_eq!(
        transform_rust_to_jni_type(&JniType::Bool, "flag", false),
        "let flag = flag as jni::sys::jboolean;\n"
    );
}

#[test]
fn string_unmarshal_and_marshal() {
    let from = transform_jni_type_to_rust(&JniType::Utf8String, "s", false);
    assert!(from.contains("env.get_string(&s)"));
    assert!(from.contains("Couldn't get java string!"));
    let to = transform_rust_to_jni_type(&JniType::Utf8String, "s", false);
    assert!(to.contains("env.new_string(s)"));
    assert!(to.contains("Couldn't create java string!"));
}

#[test]
fn optional_unmarshal_guards_with_null_check() {
    let text =
        transform_jni_type_to_rust(&JniType::Optional(Box::new(JniType::Int32)), "value", false);
    assert!(text.contains("is_same_object(&value, jni::objects::JObject::null())"));
    assert!(text.contains("let value = if is_null { Option::None } else {"));
    // the boxed integer is read through its value field under the guard
    assert!(text.contains("env.get_field(&value, \"value\", \"I\")"));
    assert!(text.contains("Some(value)"));
}

#[test]
fn optional_marshal_boxes_through_value_of() {
    let text =
        transform_rust_to_jni_type(&JniType::Optional(Box::new(JniType::Int32)), "result", false);
    assert!(text.contains("None => { jni::objects::JObject::null() }"));
    assert!(text.contains("\"java/lang/Integer\", \"valueOf\", \"(I)Ljava/lang/Integer;\""));
}

#[test]
fn handle_unmarshal_reinterprets_the_pointer() {
    let text =
        transform_jni_type_to_rust(&JniType::ObjectHandle(String::from("Kebab")), "jobject", false);
    assert_eq!(text, "let mut jobject = unsafe { &mut *(jobject as *mut Kebab) };\n");
}

#[test]
fn named_type_unmarshal_reads_the_pointer_field() {
    let text =
        transform_jni_type_to_rust(&JniType::NamedType(String::from("FileChanged")), "p", false);
    assert!(text.contains("env.get_field(&p, \"pointer\", \"J\")"));
    assert!(text.contains("*mut FileChanged"));
}

#[test]
fn callback_unmarshal_builds_a_bridge() {
    let text =
        transform_jni_type_to_rust(&JniType::CallbackType(String::from("Watcher")), "cb", false);
    assert!(text.contains("let rc_cb = std::rc::Rc::new(cb);"));
    assert!(text.contains("WatcherJniBridge"));
    assert!(text.contains("std::rc::Rc::clone(&rc_env)"));
}

#[test]
fn call_arguments_by_shape() {
    assert_eq!(rust_fn_call_from_jni_type(&JniType::Int32, "x"), "x");
    assert_eq!(rust_fn_call_from_jni_type(&JniType::Utf8String, "s"), "s");
    assert_eq!(rust_fn_call_from_jni_type(&JniType::ByteBuffer, "b"), "& b");
    assert_eq!(
        rust_fn_call_from_jni_type(&JniType::NamedType(String::from("Foo")), "f"),
        "&mut f"
    );
    assert_eq!(
        rust_fn_call_from_jni_type(&JniType::CallbackType(String::from("W")), "cb"),
        "&mut cb"
    );
    assert_eq!(
        rust_fn_call_from_jni_type(&JniType::Optional(Box::new(JniType::Int32)), "x"),
        "x"
    );
}

#[test]
fn array_arguments_by_shape() {
    assert_eq!(generate_field_mapping_into_array(&JniType::Int32, "x"), "x.into()");
    assert_eq!(generate_field_mapping_into_array(&JniType::Utf8String, "s"), "s");
    assert_eq!(generate_field_mapping_into_array(&JniType::ByteBuffer, "b"), "b");
    assert_eq!(
        generate_field_mapping_into_array(&JniType::Optional(Box::new(JniType::Bool)), "x"),
        "x.into()"
    );
}

#[test]
fn property_conversion_for_primitives_and_strings() {
    assert_eq!(
        rust_property_to_jni_type(&JniType::Int32, "p0", "self.x"),
        "let p0 = self.x as jni::sys::jint;\n"
    );
    let s = rust_property_to_jni_type(&JniType::Utf8String, "p1", "self.label");
    assert!(s.contains("self.label.into_env(&mut env)"));
    assert!(s.contains("jni::objects::JValue::Object(&p1)"));
}
