//! The marshaling code generator: for each wire type it emits the
//! native-side statements that convert a boundary value into a native
//! value (unmarshal), a native value into a boundary value (marshal),
//! a struct field or callback argument into a boundary call argument,
//! and the expression used to pass an unmarshaled value to the native
//! call.

use vstd::prelude::*;

use crate::ir::{JniType, JniTypeV};

verus! {

/// A boundary value of this type can be unmarshaled: an explicit unit
/// value cannot, at any nullable depth.
pub open spec fn unmarshal_ok(t: JniTypeV) -> bool
    decreases t,
{
    match t {
        JniTypeV::Void => false,
        JniTypeV::Optional(inner) => unmarshal_ok(*inner),
        _ => true,
    }
}

/// The native-side statements converting boundary value `n` of wire
/// type `t` into a native value bound to the same name.  In a nullable
/// position the boundary value is object-shaped: a boxed integer is
/// read through its `value` field, and a string handle is first
/// converted.
pub open spec fn unmarshal_of(t: JniTypeV, n: Seq<char>, is_optional: bool) -> Seq<char>
    decreases t,
{
    match t {
        JniTypeV::Int32 => {
            if is_optional {
                "let "@ + n + " = { let mut env = rc_env.borrow_mut(); let value = env.get_field(&"@
                    + n
                    + ", \"value\", \"I\").expect(\"Could not find field pointer\").i().expect(\"Could not transform \\\"value\\\" to jint\"); value };\n"@
            } else {
                "let "@ + n + " = "@ + n + " as i32;\n"@
            }
        },
        JniTypeV::Int64 => "let "@ + n + " = "@ + n + " as i64;\n"@,
        JniTypeV::UInt64 => "let "@ + n + " = "@ + n + " as u64;\n"@,
        JniTypeV::Float32 => "let "@ + n + " = "@ + n + " as f32;\n"@,
        JniTypeV::Float64 => "let "@ + n + " = "@ + n + " as f64;\n"@,
        JniTypeV::Bool => "let "@ + n + " = "@ + n + " as u8;\nlet "@ + n + " = "@ + n
            + " == 1;\n"@,
        JniTypeV::Utf8String => {
            if is_optional {
                "let "@ + n + ": String = { let mut env = rc_env.borrow_mut(); env.get_string(&"@
                    + n + ".into()).expect(\"Couldn't get java string!\").into() };\n"@
            } else {
                "let "@ + n + ": String = { let mut env = rc_env.borrow_mut(); env.get_string(&"@
                    + n + ").expect(\"Couldn't get java string!\").into() };\n"@
            }
        },
        JniTypeV::ByteBuffer => "let "@ + n + ": Vec<u8> = { let mut env = rc_env.borrow_mut(); "@
            + n + ".into_env(&mut env) };\n"@,
        JniTypeV::NamedType(ty) => "let mut "@ + n
            + " = { let mut env = rc_env.borrow_mut(); let field = env.get_field(&"@ + n
            + ", \"pointer\", \"J\").expect(\"Could not find field pointer\").j().expect(\"Could not transform pointer to jlong\"); unsafe { &mut *(field as *mut "@
            + ty + ") } };\n"@,
        JniTypeV::ObjectHandle(ty) => "let mut "@ + n + " = unsafe { &mut *("@ + n + " as *mut "@
            + ty + ") };\n"@,
        JniTypeV::CallbackType(name) => "let rc_"@ + n + " = std::rc::Rc::new("@ + n
            + ");\nlet mut "@ + n + " = "@ + name
            + "JniBridge { env: std::rc::Rc::clone(&rc_env), callback: std::rc::Rc::clone(&rc_"@
            + n + ") };\n"@,
        JniTypeV::Optional(inner) => "let is_null = { let mut env = rc_env.borrow_mut(); env.is_same_object(&"@
            + n + ", jni::objects::JObject::null()).expect(\"Could not check if object is null\") };\nlet "@
            + n + " = if is_null { Option::None } else {\n"@ + unmarshal_of(*inner, n, true)
            + "Some("@ + n + ")\n};\n"@,
        JniTypeV::Void => Seq::empty(),
    }
}

/// Emit the unmarshal statements for one parameter.
pub fn transform_jni_type_to_rust(jni_type: &JniType, param_name: &str, is_optional: bool) -> (out:
    String)
    requires
        unmarshal_ok(jni_type@),
    ensures
        out@ == unmarshal_of(jni_type@, param_name@, is_optional),
    decreases *jni_type,
{
    let n = param_name;
    match jni_type {
        JniType::Int32 => {
            if is_optional {
                let mut out = String::from_str("let ");
                out.append(n);
                out.append(" = { let mut env = rc_env.borrow_mut(); let value = env.get_field(&");
                out.append(n);
                out.append(
                    ", \"value\", \"I\").expect(\"Could not find field pointer\").i().expect(\"Could not transform \\\"value\\\" to jint\"); value };\n",
                );
                out
            } else {
                let mut out = String::from_str("let ");
                out.append(n);
                out.append(" = ");
                out.append(n);
                out.append(" as i32;\n");
                out
            }
        },
        JniType::Int64 => {
            let mut out = String::from_str("let ");
            out.append(n);
            out.append(" = ");
            out.append(n);
            out.append(" as i64;\n");
            out
        },
        JniType::UInt64 => {
            let mut out = String::from_str("let ");
            out.append(n);
            out.append(" = ");
            out.append(n);
            out.append(" as u64;\n");
            out
        },
        JniType::Float32 => {
            let mut out = String::from_str("let ");
            out.append(n);
            out.append(" = ");
            out.append(n);
            out.append(" as f32;\n");
            out
        },
        JniType::Float64 => {
            let mut out = String::from_str("let ");
            out.append(n);
            out.append(" = ");
            out.append(n);
            out.append(" as f64;\n");
            out
        },
        JniType::Bool => {
            let mut out = String::from_str("let ");
            out.append(n);
            out.append(" = ");
            out.append(n);
            out.append(" as u8;\nlet ");
            out.append(n);
            out.append(" = ");
            out.append(n);
            out.append(" == 1;\n");
            out
        },
        JniType::Utf8String => {
            let mut out = String::from_str("let ");
            out.append(n);
            out.append(": String = { let mut env = rc_env.borrow_mut(); env.get_string(&");
            out.append(n);
            if is_optional {
                out.append(".into()).expect(\"Couldn't get java string!\").into() };\n");
            } else {
                out.append(").expect(\"Couldn't get java string!\").into() };\n");
            }
            out
        },
        JniType::ByteBuffer => {
            let mut out = String::from_str("let ");
            out.append(n);
            out.append(": Vec<u8> = { let mut env = rc_env.borrow_mut(); ");
            out.append(n);
            out.append(".into_env(&mut env) };\n");
            out
        },
        JniType::NamedType(ty) => {
            let mut out = String::from_str("let mut ");
            out.append(n);
            out.append(" = { let mut env = rc_env.borrow_mut(); let field = env.get_field(&");
            out.append(n);
            out.append(
                ", \"pointer\", \"J\").expect(\"Could not find field pointer\").j().expect(\"Could not transform pointer to jlong\"); unsafe { &mut *(field as *mut ",
            );
            out.append(ty.as_str());
            out.append(") } };\n");
            out
        },
        JniType::ObjectHandle(ty) => {
            let mut out = String::from_str("let mut ");
            out.append(n);
            out.append(" = unsafe { &mut *(");
            out.append(n);
            out.append(" as *mut ");
            out.append(ty.as_str());
            out.append(") };\n");
            out
        },
        JniType::CallbackType(name) => {
            let mut out = String::from_str("let rc_");
            out.append(n);
            out.append(" = std::rc::Rc::new(");
            out.append(n);
            out.append(");\nlet mut ");
            out.append(n);
            out.append(" = ");
            out.append(name.as_str());
            out.append(
                "JniBridge { env: std::rc::Rc::clone(&rc_env), callback: std::rc::Rc::clone(&rc_",
            );
            out.append(n);
            out.append(") };\n");
            out
        },
        JniType::Optional(inner) => {
            let mut out = String::from_str(
                "let is_null = { let mut env = rc_env.borrow_mut(); env.is_same_object(&",
            );
            out.append(n);
            out.append(
                ", jni::objects::JObject::null()).expect(\"Could not check if object is null\") };\nlet ",
            );
            out.append(n);
            out.append(" = if is_null { Option::None } else {\n");
            let inner_text = transform_jni_type_to_rust(&**inner, n, true);
            out.append(inner_text.as_str());
            out.append("Some(");
            out.append(n);
            out.append(")\n};\n");
            out
        },
        JniType::Void => String::new(),
    }
}

/// A native value of this type can be marshaled back to the boundary:
/// a unit value, a handle, or a callback cannot.
pub open spec fn marshal_ok(t: JniTypeV) -> bool
    decreases t,
{
    match t {
        JniTypeV::Void => false,
        JniTypeV::ObjectHandle(_) => false,
        JniTypeV::CallbackType(_) => false,
        JniTypeV::Optional(inner) => marshal_ok(*inner),
        _ => true,
    }
}

/// The native-side statements converting native value `n` of wire type
/// `t` into a boundary-ready value bound to the same name.  A nullable
/// integer is boxed through the host integer type's `valueOf`.
pub open spec fn marshal_of(t: JniTypeV, n: Seq<char>, is_optional: bool) -> Seq<char>
    decreases t,
{
    match t {
        JniTypeV::Int32 => {
            if is_optional {
                "let "@ + n + " = { match "@ + n
                    + " { None => { jni::objects::JObject::null() } Some(i) => { let mut env = rc_env.borrow_mut(); let values: &[jni::objects::JValue] = &[i.into()]; let jv = env.call_static_method(\"java/lang/Integer\", \"valueOf\", \"(I)Ljava/lang/Integer;\", values).expect(\"Unable to load ValueOf from java.lang.Integer\"); jv.l().expect(\"Could not get Integer type from valueOf result\") } } };\n"@
            } else {
                "let "@ + n + " = "@ + n + " as jni::sys::jint;\n"@
            }
        },
        JniTypeV::Int64 => "let "@ + n + " = "@ + n + " as jni::sys::jlong;\n"@,
        JniTypeV::UInt64 => "let "@ + n + " = "@ + n + " as jni::sys::jlong;\n"@,
        JniTypeV::Float32 => "let "@ + n + " = "@ + n + " as jni::sys::jfloat;\n"@,
        JniTypeV::Float64 => "let "@ + n + " = "@ + n + " as jni::sys::jdouble;\n"@,
        JniTypeV::Bool => "let "@ + n + " = "@ + n + " as jni::sys::jboolean;\n"@,
        JniTypeV::Utf8String => "let "@ + n + " = env.new_string("@ + n
            + ").expect(\"Couldn't create java string!\");\n"@,
        JniTypeV::ByteBuffer => "let "@ + n
            + ": jni::objects::JByteArray = { let mut env = rc_env.borrow_mut(); "@ + n
            + ".into_env(&mut env) };\n"@,
        JniTypeV::NamedType(_) => "let mut "@ + n + " = { let mut env = rc_env.borrow_mut(); "@ + n
            + ".into_env(&mut env) };\n"@,
        JniTypeV::Optional(inner) => marshal_of(*inner, n, true),
        _ => Seq::empty(),
    }
}

/// Emit the marshal statements for a return value.
pub fn transform_rust_to_jni_type(jni_type: &JniType, param_name: &str, is_optional: bool) -> (out:
    String)
    requires
        marshal_ok(jni_type@),
    ensures
        out@ == marshal_of(jni_type@, param_name@, is_optional),
    decreases *jni_type,
{
    let n = param_name;
    match jni_type {
        JniType::Int32 => {
            if is_optional {
                let mut out = String::from_str("let ");
                out.append(n);
                out.append(" = { match ");
                out.append(n);
                out.append(
                    " { None => { jni::objects::JObject::null() } Some(i) => { let mut env = rc_env.borrow_mut(); let values: &[jni::objects::JValue] = &[i.into()]; let jv = env.call_static_method(\"java/lang/Integer\", \"valueOf\", \"(I)Ljava/lang/Integer;\", values).expect(\"Unable to load ValueOf from java.lang.Integer\"); jv.l().expect(\"Could not get Integer type from valueOf result\") } } };\n",
                );
                out
            } else {
                let mut out = String::from_str("let ");
                out.append(n);
                out.append(" = ");
                out.append(n);
                out.append(" as jni::sys::jint;\n");
                out
            }
        },
        JniType::Int64 => {
            let mut out = String::from_str("let ");
            out.append(n);
            out.append(" = ");
            out.append(n);
            out.append(" as jni::sys::jlong;\n");
            out
        },
        JniType::UInt64 => {
            let mut out = String::from_str("let ");
            out.append(n);
            out.append(" = ");
            out.append(n);
            out.append(" as jni::sys::jlong;\n");
            out
        },
        JniType::Float32 => {
            let mut out = String::from_str("let ");
            out.append(n);
            out.append(" = ");
            out.append(n);
            out.append(" as jni::sys::jfloat;\n");
            out
        },
        JniType::Float64 => {
            let mut out = String::from_str("let ");
            out.append(n);
            out.append(" = ");
            out.append(n);
            out.append(" as jni::sys::jdouble;\n");
            out
        },
        JniType::Bool => {
            let mut out = String::from_str("let ");
            out.append(n);
            out.append(" = ");
            out.append(n);
            out.append(" as jni::sys::jboolean;\n");
            out
        },
        JniType::Utf8String => {
            let mut out = String::from_str("let ");
            out.append(n);
            out.append(" = env.new_string(");
            out.append(n);
            out.append(").expect(\"Couldn't create java string!\");\n");
            out
        },
        JniType::ByteBuffer => {
            let mut out = String::from_str("let ");
            out.append(n);
            out.append(": jni::objects::JByteArray = { let mut env = rc_env.borrow_mut(); ");
            out.append(n);
            out.append(".into_env(&mut env) };\n");
            out
        },
        JniType::NamedType(_) => {
            let mut out = String::from_str("let mut ");
            out.append(n);
            out.append(" = { let mut env = rc_env.borrow_mut(); ");
            out.append(n);
            out.append(".into_env(&mut env) };\n");
            out
        },
        JniType::Optional(inner) => transform_rust_to_jni_type(&**inner, n, true),
        JniType::ObjectHandle(_) => String::new(),
        JniType::CallbackType(_) => String::new(),
        JniType::Void => String::new(),
    }
}

/// A struct field or callback argument of this type can be turned into
/// a boundary call argument.
pub open spec fn property_ok(t: JniTypeV) -> bool {
    match t {
        JniTypeV::Void => false,
        JniTypeV::CallbackType(_) => false,
        JniTypeV::Optional(_) => false,
        _ => true,
    }
}

/// The statements converting native property `sp` of wire type `t`
/// into a boundary call argument bound to `p`.
pub open spec fn property_of(t: JniTypeV, p: Seq<char>, sp: Seq<char>) -> Seq<char> {
    match t {
        JniTypeV::Int32 => "let "@ + p + " = "@ + sp + " as jni::sys::jint;\n"@,
        JniTypeV::Int64 => "let "@ + p + " = "@ + sp + " as jni::sys::jlong;\n"@,
        JniTypeV::UInt64 => "let "@ + p + " = "@ + sp + " as jni::sys::jlong;\n"@,
        JniTypeV::Float32 => "let "@ + p + " = "@ + sp + " as jni::sys::jfloat;\n"@,
        JniTypeV::Float64 => "let "@ + p + " = "@ + sp + " as jni::sys::jdouble;\n"@,
        JniTypeV::Bool => "let "@ + p + " = "@ + sp + " as jni::sys::jboolean;\n"@,
        JniTypeV::Utf8String => "let "@ + p
            + ": jni::objects::JString = { let mut env = rc_env.borrow_mut(); "@ + sp
            + ".into_env(&mut env) };\nlet "@ + p + ": jni::objects::JObject = "@ + p
            + ".into();\nlet "@ + p + ": jni::objects::JValue = jni::objects::JValue::Object(&"@
            + p + ");\n"@,
        JniTypeV::ByteBuffer => "let "@ + p
            + ": jni::objects::JByteArray = { let mut env = rc_env.borrow_mut(); "@ + sp
            + ".into_env(&mut env) };\nlet "@ + p
            + ": jni::objects::JValue = jni::objects::JValue::Object(&"@ + p + ");\n"@,
        JniTypeV::ObjectHandle(_) => "let "@ + p
            + ": jni::objects::JObject = { let mut env = rc_env.borrow_mut(); "@ + sp
            + ".into_env(&mut env) };\nlet "@ + p
            + ": jni::objects::JValue = jni::objects::JValue::Object(&"@ + p + ");\n"@,
        JniTypeV::NamedType(_) => "let "@ + p
            + ": jni::objects::JObject = { let mut env = rc_env.borrow_mut(); "@ + sp
            + ".into_env(&mut env) };\nlet "@ + p
            + ": jni::objects::JValue = jni::objects::JValue::Object(&"@ + p + ");\n"@,
        _ => Seq::empty(),
    }
}

/// Emit the statements converting one native property into a boundary
/// call argument.
pub fn rust_property_to_jni_type(ty: &JniType, param: &str, struct_parameter: &str) -> (out: String)
    requires
        property_ok(ty@),
    ensures
        out@ == property_of(ty@, param@, struct_parameter@),
{
    let p = param;
    let sp = struct_parameter;
    match ty {
        JniType::Int32 => {
            let mut out = String::from_str("let ");
            out.append(p);
            out.append(" = ");
            out.append(sp);
            out.append(" as jni::sys::jint;\n");
            out
        },
        JniType::Int64 => {
            let mut out = String::from_str("let ");
            out.append(p);
            out.append(" = ");
            out.append(sp);
            out.append(" as jni::sys::jlong;\n");
            out
        },
        JniType::UInt64 => {
            let mut out = String::from_str("let ");
            out.append(p);
            out.append(" = ");
            out.append(sp);
            out.append(" as jni::sys::jlong;\n");
            out
        },
        JniType::Float32 => {
            let mut out = String::from_str("let ");
            out.append(p);
            out.append(" = ");
            out.append(sp);
            out.append(" as jni::sys::jfloat;\n");
            out
        },
        JniType::Float64 => {
            let mut out = String::from_str("let ");
            out.append(p);
            out.append(" = ");
            out.append(sp);
            out.append(" as jni::sys::jdouble;\n");
            out
        },
        JniType::Bool => {
            let mut out = String::from_str("let ");
            out.append(p);
            out.append(" = ");
            out.append(sp);
            out.append(" as jni::sys::jboolean;\n");
            out
        },
        JniType::Utf8String => {
            let mut out = String::from_str("let ");
            out.append(p);
            out.append(": jni::objects::JString = { let mut env = rc_env.borrow_mut(); ");
            out.append(sp);
            out.append(".into_env(&mut env) };\nlet ");
            out.append(p);
            out.append(": jni::objects::JObject = ");
            out.append(p);
            out.append(".into();\nlet ");
            out.append(p);
            out.append(": jni::objects::JValue = jni::objects::JValue::Object(&");
            out.append(p);
            out.append(");\n");
            out
        },
        JniType::ByteBuffer => {
            let mut out = String::from_str("let ");
            out.append(p);
            out.append(": jni::objects::JByteArray = { let mut env = rc_env.borrow_mut(); ");
            out.append(sp);
            out.append(".into_env(&mut env) };\nlet ");
            out.append(p);
            out.append(": jni::objects::JValue = jni::objects::JValue::Object(&");
            out.append(p);
            out.append(");\n");
            out
        },
        JniType::ObjectHandle(_) => {
            let mut out = String::from_str("let ");
            out.append(p);
            out.append(": jni::objects::JObject = { let mut env = rc_env.borrow_mut(); ");
            out.append(sp);
            out.append(".into_env(&mut env) };\nlet ");
            out.append(p);
            out.append(": jni::objects::JValue = jni::objects::JValue::Object(&");
            out.append(p);
            out.append(");\n");
            out
        },
        JniType::NamedType(_) => {
            let mut out = String::from_str("let ");
            out.append(p);
            out.append(": jni::objects::JObject = { let mut env = rc_env.borrow_mut(); ");
            out.append(sp);
            out.append(".into_env(&mut env) };\nlet ");
            out.append(p);
            out.append(": jni::objects::JValue = jni::objects::JValue::Object(&");
            out.append(p);
            out.append(");\n");
            out
        },
        JniType::CallbackType(_) => String::new(),
        JniType::Optional(_) => String::new(),
        JniType::Void => String::new(),
    }
}

/// This type's argument can stand in the boundary argument array.
pub open spec fn array_ok(t: JniTypeV) -> bool
    decreases t,
{
    match t {
        JniTypeV::Void => false,
        JniTypeV::ObjectHandle(_) => false,
        JniTypeV::Optional(inner) => array_ok(*inner),
        _ => true,
    }
}

/// The expression placing the converted value `p` into the boundary
/// argument array: primitives convert through `into`, object-shaped
/// values stand as they are.
pub open spec fn array_arg_of(t: JniTypeV, p: Seq<char>) -> Seq<char>
    decreases t,
{
    match t {
        JniTypeV::Int32 => p + ".into()"@,
        JniTypeV::Int64 => p + ".into()"@,
        JniTypeV::UInt64 => p + ".into()"@,
        JniTypeV::Float32 => p + ".into()"@,
        JniTypeV::Float64 => p + ".into()"@,
        JniTypeV::Bool => p + ".into()"@,
        JniTypeV::Utf8String => p,
        JniTypeV::ByteBuffer => p,
        JniTypeV::NamedType(_) => p,
        JniTypeV::CallbackType(_) => p,
        JniTypeV::Optional(inner) => array_arg_of(*inner, p),
        _ => Seq::empty(),
    }
}

/// Emit the boundary-argument-array expression for one value.
pub fn generate_field_mapping_into_array(ty: &JniType, param: &str) -> (out: String)
    requires
        array_ok(ty@),
    ensures
        out@ == array_arg_of(ty@, param@),
    decreases *ty,
{
    match ty {
        JniType::Int32 | JniType::Int64 | JniType::UInt64 | JniType::Float32 | JniType::Float64
        | JniType::Bool => {
            let mut out = String::from_str(param);
            out.append(".into()");
            out
        },
        JniType::Utf8String | JniType::ByteBuffer | JniType::NamedType(_)
        | JniType::CallbackType(_) => String::from_str(param),
        JniType::Optional(inner) => generate_field_mapping_into_array(&**inner, param),
        JniType::ObjectHandle(_) | JniType::Void => String::new(),
    }
}

/// This type's unmarshaled value can be passed to the native call.
pub open spec fn call_arg_ok(t: JniTypeV) -> bool
    decreases t,
{
    match t {
        JniTypeV::Void => false,
        JniTypeV::ObjectHandle(_) => false,
        JniTypeV::Optional(inner) => call_arg_ok(*inner),
        _ => true,
    }
}

/// The expression passing the unmarshaled value `n` to the native
/// call: primitives by value, byte buffers by reference, data-class
/// and callback values by mutable reference.
pub open spec fn call_arg_of(t: JniTypeV, n: Seq<char>) -> Seq<char>
    decreases t,
{
    match t {
        JniTypeV::Int32 => n,
        JniTypeV::Int64 => n,
        JniTypeV::UInt64 => n,
        JniTypeV::Float32 => n,
        JniTypeV::Float64 => n,
        JniTypeV::Utf8String => n,
        JniTypeV::Bool => n,
        JniTypeV::ByteBuffer => "& "@ + n,
        JniTypeV::NamedType(_) => "&mut "@ + n,
        JniTypeV::CallbackType(_) => "&mut "@ + n,
        JniTypeV::Optional(inner) => call_arg_of(*inner, n),
        _ => Seq::empty(),
    }
}

/// Emit the native call argument for one unmarshaled parameter.
pub fn rust_fn_call_from_jni_type(jni_type: &JniType, name: &str) -> (out: String)
    requires
        call_arg_ok(jni_type@),
    ensures
        out@ == call_arg_of(jni_type@, name@),
    decreases *jni_type,
{
    match jni_type {
        JniType::Int32 | JniType::Int64 | JniType::UInt64 | JniType::Float32 | JniType::Float64
        | JniType::Utf8String | JniType::Bool => String::from_str(name),
        JniType::ByteBuffer => {
            let mut out = String::from_str("& ");
            out.append(name);
            out
        },
        JniType::NamedType(_) => {
            let mut out = String::from_str("&mut ");
            out.append(name);
            out
        },
        JniType::CallbackType(_) => {
            let mut out = String::from_str("&mut ");
            out.append(name);
            out
        },
        JniType::Optional(inner) => rust_fn_call_from_jni_type(&**inner, name),
        JniType::ObjectHandle(_) | JniType::Void => String::new(),
    }
}

} // verus!
