use kotars::codec::{decode_struct, encode_struct};
use kotars::ir::{Field, JniType, RsStruct};
use kotars::render::data_class_file_content;
use kotars::structs::DataClass;

fn point() -> RsStruct {
    RsStruct {
        name: String::from("Point"),
        fields: vec![Field { is_public: true, name: None, ty: JniType::Int32 }],
    }
}

#[test]
fn anonymous_field_keeps_no_name_in_the_record() {
    let st = point();
    let encoded = encode_struct(&st);
    let decoded = decode_struct(encoded.as_str()).expect("round trip");
    assert_eq!(decoded.fields.len(), 1);
    assert_eq!(decoded.fields[0].name, None);
}

#[test]
fn constructor_descriptor_of_one_int_field() {
    let st = point();
    let data_class = DataClass::from(st);
    let text = data_class.map_to_data_class_func();
    assert!(text.contains("\"(I)V\""));
    assert!(text.contains("/// JNI_DATA_CLASS "));
    // the anonymous field is read by position and passed positionally
    assert!(text.contains("let param0 = self.0 as jni::sys::jint;"));
    assert!(text.contains("&[param0.into(), ]"));
}

#[test]
fn rendered_host_field_is_positional() {
    let st = point();
    let text = data_class_file_content(&st);
    assert!(text.contains("data class Point ("));
    assert!(text.contains("val param0: Int,"));
}

#[test]
fn rendered_named_fields_are_camel_cased() {
    let st = RsStruct {
        name: String::from("FileChanged"),
        fields: vec![
            Field {
                is_public: true,
                name: Some(String::from("file_path")),
                ty: JniType::Utf8String,
            },
            Field { is_public: true, name: Some(String::from("kind")), ty: JniType::Int32 },
        ],
    };
    let text = data_class_file_content(&st);
    assert!(text.contains("val filePath: String,"));
    assert!(text.contains("val kind: Int,"));
}
