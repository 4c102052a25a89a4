use kotars::codec::{decode_function, encode_function};
use kotars::emit::{full_header_comment, jni_init_code};
use kotars::ir::{Function, JniType, Parameter};
use kotars::scan::{extract_package_name, functions_for_owner, scan_records, split_lines};

#[test]
fn lines_split_on_newlines() {
    let lines = split_lines("a\nbb\nccc");
    assert_eq!(lines, vec![String::from("a"), String::from("bb"), String::from("ccc")]);
    assert_eq!(split_lines(""), vec![String::new()]);
    assert_eq!(split_lines("x\n"), vec![String::from("x"), String::new()]);
}

#[test]
fn record_payload_is_sliced_and_unescaped() {
    // payload between the tag and the trailing two-character sentinel,
    // with the backslash artifact of re-quoting removed
    let lines = vec![
        String::from("no record here"),
        String::from("/// JNI_FN_DATA 2:a\\\"b\"]"),
    ];
    let records = scan_records(&lines, "JNI_FN_DATA").expect("well-formed lines");
    assert_eq!(records, vec![String::from("2:a\"b")]);
}

#[test]
fn malformed_record_line_is_refused() {
    let lines = vec![String::from("JNI_FN_DATA ")];
    assert_eq!(scan_records(&lines, "JNI_FN_DATA"), None);
}

#[test]
fn scan_recovers_an_embedded_function() {
    let f = Function {
        owner_name: String::from("Kebab"),
        name: String::from("is_yummy"),
        parameters: vec![],
        return_type: Some(JniType::Bool),
    };
    let encoded = encode_function(&f);
    let mut source = String::from("fn unrelated() {}\n/// JNI_FN_DATA ");
    source.push_str(encoded.as_str());
    source.push_str("\"]\nmore text");
    let lines = split_lines(source.as_str());
    let records = scan_records(&lines, "JNI_FN_DATA").expect("well-formed");
    assert_eq!(records.len(), 1);
    assert_eq!(decode_function(records[0].as_str()), Some(f));
}

#[test]
fn package_name_is_found_in_the_declaration_line() {
    let init = jni_init_code("com.example.bindings");
    let lines = split_lines(init.as_str());
    let package = extract_package_name(&lines).expect("declaration present");
    assert_eq!(package, "com.example.bindings");
}

#[test]
fn missing_package_name_yields_none() {
    let lines = split_lines("fn main() {}\n// nothing");
    assert_eq!(extract_package_name(&lines), None);
}

#[test]
fn header_comment_brackets_the_content() {
    let text = full_header_comment("JNI_CLASS payload");
    assert_eq!(
        text,
        "/// JNI_BINDING_START\n/// JNI_CLASS payload\n/// JNI_BINDING_END\n/// Auto generated header. This will be used by cargo-kotars to generate the Kotlin code that binds to the Rust code.\n"
    );
}

#[test]
fn functions_group_under_their_owner() {
    let mk = |owner: &str, name: &str| Function {
        owner_name: String::from(owner),
        name: String::from(name),
        parameters: vec![Parameter::Receiver { is_mutable: false }],
        return_type: None,
    };
    let fns = vec![mk("A", "one"), mk("B", "two"), mk("A", "three")];
    let for_a = functions_for_owner(&fns, "A");
    assert_eq!(for_a.len(), 2);
    assert_eq!(for_a[0].name, "one");
    assert_eq!(for_a[1].name, "three");
    let for_b = functions_for_owner(&fns, "B");
    assert_eq!(for_b.len(), 1);
    assert_eq!(for_b[0].name, "two");
    assert_eq!(functions_for_owner(&fns, "C").len(), 0);
}
