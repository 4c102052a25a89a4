use kotars::codec::{
    decode_function, decode_interface, decode_struct, encode_function, encode_interface,
    encode_struct,
};
use kotars::ir::{Field, Function, JniType, Parameter, RsInterface, RsStruct};

fn sample_function() -> Function {
    Function {
        owner_name: String::from("FileWatcher"),
        name: String::from("test"),
        parameters: vec![
            Parameter::Receiver { is_mutable: true },
            Parameter::Typed {
                name: String::from("value"),
                ty: JniType::Optional(Box::new(JniType::Int32)),
                is_borrow: false,
                is_mutable: false,
            },
            Parameter::Typed {
                name: String::from("data"),
                ty: JniType::ByteBuffer,
                is_borrow: true,
                is_mutable: false,
            },
            Parameter::Typed {
                name: String::from("cb"),
                ty: JniType::CallbackType(String::from("Watcher")),
                is_borrow: false,
                is_mutable: true,
            },
        ],
        return_type: Some(JniType::Optional(Box::new(JniType::Int32))),
    }
}

#[test]
fn function_round_trip() {
    let f = sample_function();
    let encoded = encode_function(&f);
    let decoded = decode_function(encoded.as_str()).expect("decoding an encoding must succeed");
    assert_eq!(decoded, f);
}

#[test]
fn function_round_trip_no_parameters() {
    let f = Function {
        owner_name: String::from("Kebab"),
        name: String::from("is_yummy"),
        parameters: vec![],
        return_type: Some(JniType::Bool),
    };
    let encoded = encode_function(&f);
    assert_eq!(decode_function(encoded.as_str()), Some(f));
}

#[test]
fn struct_round_trip_with_anonymous_field() {
    let st = RsStruct {
        name: String::from("Point"),
        fields: vec![
            Field { is_public: true, name: None, ty: JniType::Int32 },
            Field {
                is_public: false,
                name: Some(String::from("label")),
                ty: JniType::Utf8String,
            },
        ],
    };
    let encoded = encode_struct(&st);
    let decoded = decode_struct(encoded.as_str()).expect("decoding an encoding must succeed");
    assert_eq!(decoded, st);
    assert_eq!(decoded.fields[0].name, None);
}

#[test]
fn struct_round_trip_empty() {
    let st = RsStruct { name: String::from("FileWatcher"), fields: vec![] };
    let encoded = encode_struct(&st);
    assert_eq!(decode_struct(encoded.as_str()), Some(st));
}

#[test]
fn interface_round_trip() {
    let it = RsInterface {
        name: String::from("Watcher"),
        functions: vec![Function {
            owner_name: String::from("Watcher"),
            name: String::from("detected_change"),
            parameters: vec![
                Parameter::Receiver { is_mutable: false },
                Parameter::Typed {
                    name: String::from("path"),
                    ty: JniType::NamedType(String::from("FileChanged")),
                    is_borrow: false,
                    is_mutable: false,
                },
            ],
            return_type: None,
        }],
    };
    let encoded = encode_interface(&it);
    assert_eq!(decode_interface(encoded.as_str()), Some(it));
}

#[test]
fn decode_rejects_garbage() {
    assert_eq!(decode_function(""), None);
    assert_eq!(decode_function("not a record"), None);
    assert_eq!(decode_struct("5:ABCDE"), None);
    let f = sample_function();
    let mut encoded = encode_function(&f);
    encoded.push('x');
    assert_eq!(decode_function(encoded.as_str()), None);
}

#[test]
fn payload_strings_survive_verbatim() {
    let st = RsStruct {
        name: String::from("Weird:Name 7:with//digits"),
        fields: vec![],
    };
    let encoded = encode_struct(&st);
    assert_eq!(decode_struct(encoded.as_str()), Some(st));
}
