use kotars::expand::{jni_class_expand, jni_data_class_expand, jni_struct_impl_expand};
use kotars::extract::{ImplDecl, MethodDecl, ParamDecl, StructDecl, StructFieldDecl};

#[test]
fn class_expansion_appends_conversion_and_disposer() {
    let decl = StructDecl { name: String::from("FileWatcher"), fields: vec![] };
    let source = "struct FileWatcher {}";
    let text = jni_class_expand(&decl, source);
    assert!(text.starts_with("struct FileWatcher {}\n"));
    assert!(text.contains("/// JNI_CLASS "));
    assert!(text.contains("impl <'local> crate::IntoEnv<'local, jni::objects::JObject<'local>> for FileWatcher"));
    assert!(text.contains("Java_FileWatcherObj_destroy"));
}

#[test]
fn data_class_expansion_appends_the_conversion() {
    let decl = StructDecl {
        name: String::from("FileChanged"),
        fields: vec![StructFieldDecl {
            is_public: true,
            name: Some(String::from("path")),
            ty_text: String::from("String"),
        }],
    };
    let source = "struct FileChanged { pub path: String }";
    let text = jni_data_class_expand(&decl, source);
    assert!(text.starts_with(source));
    assert!(text.contains("/// JNI_DATA_CLASS "));
    assert!(text.contains("\"(Ljava/lang/String;)V\""));
}

#[test]
fn impl_expansion_appends_one_entry_point_per_method() {
    let decl = ImplDecl {
        self_ty: String::from("FileWatcher"),
        methods: vec![MethodDecl {
            name: String::from("test"),
            params: vec![ParamDecl::Typed {
                pat: String::from("value"),
                ty_text: String::from("Option < i32 >"),
            }],
            return_ty: Some(String::from("Option < i32 >")),
        }],
    };
    let source = "impl FileWatcher { fn test(value: Option<i32>) -> Option<i32> { value } }";
    let text = jni_struct_impl_expand(&decl, source);
    assert!(text.starts_with(source));
    assert!(text.contains("/// JNI_FN_DATA "));
    assert!(text.contains("fn Java_FileWatcherObj_test<'local>"));
    // the nullable parameter arrives as an object reference and is
    // guarded by a null check
    assert!(text.contains("value: jni::objects::JObject<'local>"));
    assert!(text.contains("is_same_object(&value, jni::objects::JObject::null())"));
}

#[test]
fn anonymous_data_class_field_is_positional_in_the_expansion() {
    let decl = StructDecl {
        name: String::from("Point"),
        fields: vec![StructFieldDecl {
            is_public: true,
            name: None,
            ty_text: String::from("i32"),
        }],
    };
    let text = jni_data_class_expand(&decl, "struct Point(i32);");
    assert!(text.contains("let param0 = self.0 as jni::sys::jint;"));
}
