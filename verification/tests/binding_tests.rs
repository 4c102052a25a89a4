use kotars::functions::{generate_rust_jni_binding_function, generate_rust_jni_binding_functions};
use kotars::ir::{Function, JniType, Parameter, RsStruct};
use kotars::render::class_file_content;
use kotars::structs::Class;

fn kebab_is_yummy() -> Function {
    Function {
        owner_name: String::from("Kebab"),
        name: String::from("is_yummy"),
        parameters: vec![],
        return_type: Some(JniType::Bool),
    }
}

#[test]
fn static_function_entry_point() {
    let f = kebab_is_yummy();
    let text = generate_rust_jni_binding_function("Kebab", &f);
    // the entry point carries the Obj-suffixed owner and the
    // camel-case method name, and returns the boundary boolean type
    assert!(text.contains("pub extern \"system\" fn Java_KebabObj_isYummy<'local>"));
    assert!(text.contains("-> jni::sys::jboolean"));
    assert!(text.contains("let result = <Kebab>::is_yummy();"));
    assert!(text.contains("let result = result as jni::sys::jboolean;"));
    assert!(text.contains("return result;"));
    // the embedded record frame
    assert!(text.contains("/// JNI_BINDING_START"));
    assert!(text.contains("/// JNI_FN_DATA "));
    assert!(text.contains("/// JNI_BINDING_END"));
}

#[test]
fn instance_method_unmarshals_receiver_first() {
    let f = Function {
        owner_name: String::from("FileWatcher"),
        name: String::from("watch_path"),
        parameters: vec![
            Parameter::Receiver { is_mutable: true },
            Parameter::Typed {
                name: String::from("path"),
                ty: JniType::Utf8String,
                is_borrow: false,
                is_mutable: false,
            },
        ],
        return_type: None,
    };
    let text = generate_rust_jni_binding_function("FileWatcher", &f);
    assert!(text.contains("fn Java_FileWatcherObj_watchPath<'local>"));
    assert!(text.contains("jobject: jni::sys::jlong"));
    assert!(text.contains("path: jni::objects::JString<'local>"));
    assert!(text.contains("let mut jobject = unsafe { &mut *(jobject as *mut FileWatcher) };"));
    assert!(text.contains("let result = <FileWatcher>::watch_path(&mut jobject, path, );"));
    assert!(!text.contains("return result;"));
}

#[test]
fn binding_list_matches_function_list() {
    let fs = vec![kebab_is_yummy()];
    let texts = generate_rust_jni_binding_functions("Kebab", &fs);
    assert_eq!(texts.len(), 1);
    assert!(texts[0].contains("Java_KebabObj_isYummy"));
}

#[test]
fn rendered_class_exposes_static_forwarder() {
    let st = RsStruct { name: String::from("Kebab"), fields: vec![] };
    let fs = vec![kebab_is_yummy()];
    let text = class_file_content(&st, "", &fs);
    // the companion holds the static forwarder delegating to the
    // external declaration
    assert!(text.contains("companion object {"));
    assert!(text.contains("fun isYummy("));
    assert!(text.contains("): Boolean"));
    assert!(text.contains("KebabObj.isYummy()"));
    // no instance member besides the handle and disposer: the class
    // body between the handle line and close() holds no fun
    assert!(text.contains("class Kebab private constructor(private val pointer: Long)"));
    assert!(text.contains("    external fun isYummy("));
}

#[test]
fn rendered_class_has_exactly_one_disposer() {
    let st = RsStruct { name: String::from("Kebab"), fields: vec![] };
    let fs = vec![kebab_is_yummy()];
    let text = class_file_content(&st, "", &fs);
    let needle = "external fun destroy(pointer: Long)";
    let count = text.matches(needle).count();
    // the disposer is declared once; invoking it twice for one handle
    // is outside the safety envelope and is not asserted safe here
    assert_eq!(count, 1);
    assert!(text.contains("Kebab private constructor"));
    assert!(text.contains("override fun close() {"));
    assert!(text.contains("resource.close()"));
}

#[test]
fn disposer_entry_point_reconstructs_ownership_once() {
    let st = RsStruct { name: String::from("Kebab"), fields: vec![] };
    let class = Class::from(st);
    let text = class.drop_func();
    assert!(text.contains("fn Java_KebabObj_destroy"));
    assert!(text.contains("drop(Box::from_raw(jni_pointer as *mut Kebab))"));
    // the conversion and the disposer are the two generated methods
    let methods = class.generated_methods();
    assert_eq!(methods.len(), 2);
    assert!(methods[0].contains("/// JNI_CLASS "));
    assert!(methods[0].contains("Box::into_raw(Box::new(self)) as jni::sys::jlong"));
    assert!(methods[0].contains("\"(J)V\""));
    assert!(methods[1].contains("Java_KebabObj_destroy"));
}
