use kotars::extract::{
    get_parameters_from_method, get_return_type_from_method, rs_struct_from_decl, ExtractError,
    ParamDecl, StructDecl, StructFieldDecl,
};
use kotars::ir::{JniType, Parameter};

#[test]
fn receiver_position_is_preserved() {
    let decls = vec![
        ParamDecl::Receiver { is_reference: true, is_mutable: true },
        ParamDecl::Typed { pat: String::from("a"), ty_text: String::from("i32") },
        ParamDecl::Typed { pat: String::from("b"), ty_text: String::from("String") },
    ];
    let params = get_parameters_from_method(&decls).expect("reference receiver is accepted");
    assert_eq!(params.len(), 3);
    assert!(matches!(params[0], Parameter::Receiver { is_mutable: true }));
    // no receiver anywhere but first
    for p in params.iter().skip(1) {
        assert!(!matches!(p, Parameter::Receiver { .. }));
    }
}

#[test]
fn value_receiver_is_rejected() {
    let decls = vec![ParamDecl::Receiver { is_reference: false, is_mutable: false }];
    assert_eq!(get_parameters_from_method(&decls), Err(ExtractError::ValueReceiver));
}

#[test]
fn borrow_and_mutability_marks_are_read_from_the_type_text() {
    let decls = vec![ParamDecl::Typed {
        pat: String::from("buf"),
        ty_text: String::from("&mut Vec<u8>"),
    }];
    let params = get_parameters_from_method(&decls).expect("no receiver");
    match &params[0] {
        Parameter::Typed { name, ty, is_borrow, is_mutable } => {
            assert_eq!(name, "buf");
            assert_eq!(*ty, JniType::ByteBuffer);
            assert!(*is_borrow);
            assert!(*is_mutable);
        },
        Parameter::Receiver { .. } => panic!("not a receiver"),
    }
}

#[test]
fn plain_parameter_has_no_marks() {
    let decls = vec![ParamDecl::Typed {
        pat: String::from("n"),
        ty_text: String::from("i64"),
    }];
    let params = get_parameters_from_method(&decls).expect("no receiver");
    match &params[0] {
        Parameter::Typed { ty, is_borrow, is_mutable, .. } => {
            assert_eq!(*ty, JniType::Int64);
            assert!(!*is_borrow);
            assert!(!*is_mutable);
        },
        Parameter::Receiver { .. } => panic!("not a receiver"),
    }
}

#[test]
fn return_type_goes_through_the_type_mapper() {
    assert_eq!(get_return_type_from_method(&None), None);
    assert_eq!(
        get_return_type_from_method(&Some(String::from("Option < i32 >"))),
        Some(JniType::Optional(Box::new(JniType::Int32)))
    );
}

#[test]
fn struct_extraction_keeps_visibility_and_names() {
    let decl = StructDecl {
        name: String::from("FileChanged"),
        fields: vec![
            StructFieldDecl {
                is_public: true,
                name: Some(String::from("path")),
                ty_text: String::from("String"),
            },
            StructFieldDecl { is_public: false, name: None, ty_text: String::from("i32") },
        ],
    };
    let st = rs_struct_from_decl(&decl);
    assert_eq!(st.name, "FileChanged");
    assert_eq!(st.fields.len(), 2);
    assert_eq!(st.fields[0].name, Some(String::from("path")));
    assert_eq!(st.fields[0].ty, JniType::Utf8String);
    assert!(st.fields[0].is_public);
    assert_eq!(st.fields[1].name, None);
    assert!(!st.fields[1].is_public);
    // some field is not public
    assert!(st.all_fields_are_public());
}

#[test]
fn static_derivation_from_receiver_absence() {
    let decls = vec![ParamDecl::Typed { pat: String::from("x"), ty_text: String::from("i32") }];
    let params = get_parameters_from_method(&decls).expect("no receiver");
    let f = kotars::ir::Function {
        owner_name: String::from("Kebab"),
        name: String::from("is_yummy"),
        parameters: params,
        return_type: Some(JniType::Bool),
    };
    assert!(f.is_static());
    let decls2 = vec![ParamDecl::Receiver { is_reference: true, is_mutable: false }];
    let params2 = get_parameters_from_method(&decls2).expect("reference receiver");
    let g = kotars::ir::Function {
        owner_name: String::from("Kebab"),
        name: String::from("eat"),
        parameters: params2,
        return_type: None,
    };
    assert!(!g.is_static());
}
