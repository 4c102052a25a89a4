use kotars::extract::{MethodDecl, ParamDecl, TraitDecl};
use kotars::interface::jni_interface_expand;
use kotars::ir::{Function, JniType, Parameter, RsInterface};
use kotars::render::interface_file_content;

fn watcher_decl() -> TraitDecl {
    TraitDecl {
        name: String::from("Watcher"),
        methods: vec![MethodDecl {
            name: String::from("detected_change"),
            params: vec![
                ParamDecl::Receiver { is_reference: true, is_mutable: false },
                ParamDecl::Typed {
                    pat: String::from("path"),
                    ty_text: String::from("FileChanged"),
                },
            ],
            return_ty: None,
        }],
    }
}

#[test]
fn bridge_forwards_by_camel_name_and_signature() {
    let decl = watcher_decl();
    let text = jni_interface_expand(&decl, "trait Watcher { fn detected_change(&self, path: FileChanged); }");
    // the bridge performs the boundary call by camel-case name with
    // the exact signature, and surfaces a pending exception afterwards
    assert!(text.contains("env.call_method(&self.callback, \"detectedChange\", \"(LFileChanged;)V\", method_args)"));
    assert!(text.contains("if env.exception_check().expect(\"Failed to check if there is an exception\")"));
    assert!(text.contains("env.exception_describe();"));
    assert!(text.contains("struct WatcherJniBridge<'a>"));
    assert!(text.contains("impl<'a> Watcher for WatcherJniBridge<'a>"));
    assert!(text.contains("fn detected_change(&self, path: FileChanged) {"));
    assert!(text.contains("/// JNI_INTERFACE "));
    // the failure message names the method and signature
    assert!(text.contains("Call method [detectedChange] with signature [(LFileChanged;)V] failed with error: {e}"));
}

#[test]
fn interface_rendering_drops_the_receiver() {
    let it = RsInterface {
        name: String::from("Watcher"),
        functions: vec![Function {
            owner_name: String::from("Watcher"),
            name: String::from("detected_change"),
            parameters: vec![
                Parameter::Receiver { is_mutable: false },
                Parameter::Typed {
                    name: String::from("path"),
                    ty: JniType::NamedType(String::from("FileChanged")),
                    is_borrow: false,
                    is_mutable: false,
                },
            ],
            return_type: None,
        }],
    };
    let text = interface_file_content(&it, "com.example");
    assert!(text.contains("interface Watcher {"));
    assert!(text.contains("fun detectedChange("));
    assert!(text.contains("path: FileChanged,"));
    // the receiver becomes the implicit host receiver and never
    // appears in the stub
    assert!(!text.contains("pointer: Long"));
}

#[test]
fn receiverless_interface_function_is_excluded_from_rendering() {
    let it = RsInterface {
        name: String::from("Watcher"),
        functions: vec![Function {
            owner_name: String::from("Watcher"),
            name: String::from("helper"),
            parameters: vec![],
            return_type: None,
        }],
    };
    let text = interface_file_content(&it, "");
    assert!(!text.contains("fun helper"));
}

#[test]
fn bridge_with_return_type_and_two_arguments() {
    let decl = TraitDecl {
        name: String::from("Scorer"),
        methods: vec![MethodDecl {
            name: String::from("rate_file"),
            params: vec![
                ParamDecl::Receiver { is_reference: true, is_mutable: true },
                ParamDecl::Typed { pat: String::from("name"), ty_text: String::from("String") },
                ParamDecl::Typed { pat: String::from("size"), ty_text: String::from("i64") },
            ],
            return_ty: Some(String::from("bool")),
        }],
    };
    let text = jni_interface_expand(
        &decl,
        "trait Scorer { fn rate_file(&mut self, name: String, size: i64) -> bool; }",
    );
    assert!(text.contains("fn rate_file(&mut self, name: String, size: i64) -> bool {"));
    assert!(text.contains("env.call_method(&self.callback, \"rateFile\", \"(Ljava/lang/String;J)Z\", method_args)"));
    // both arguments are converted and passed in order
    assert!(text.contains("name.into_env(&mut env)"));
    assert!(text.contains("let size = size as jni::sys::jlong;"));
    assert!(text.contains("&[name, size.into(), ]"));
}
