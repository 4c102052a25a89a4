use kotars::ir::{Function, JniType, Parameter};
use kotars::render::{
    format_func_parameters, format_function, format_function_mapping, format_interface_function,
    formatted_return_ty,
};

fn eat() -> Function {
    Function {
        owner_name: String::from("Kebab"),
        name: String::from("eat"),
        parameters: vec![
            Parameter::Receiver { is_mutable: true },
            Parameter::Typed {
                name: String::from("x"),
                ty: JniType::Int32,
                is_borrow: false,
                is_mutable: false,
            },
        ],
        return_type: None,
    }
}

#[test]
fn return_type_rendering() {
    assert_eq!(formatted_return_ty(&None), "");
    assert_eq!(formatted_return_ty(&Some(JniType::Bool)), ": Boolean");
    assert_eq!(
        formatted_return_ty(&Some(JniType::Optional(Box::new(JniType::Int32)))),
        ": Int?"
    );
}

#[test]
fn parameter_rendering_depends_on_position() {
    let f = eat();
    // in an instance forwarder the receiver is implicit
    assert_eq!(format_func_parameters(&f.parameters, false), "x: Int,");
    // in a static context the receiver appears as the raw handle
    assert_eq!(
        format_func_parameters(&f.parameters, true),
        "pointer: Long,\n        x: Int,"
    );
}

#[test]
fn external_declaration_rendering() {
    let f = eat();
    assert_eq!(
        format_function(&f),
        "    external fun eat(\n        pointer: Long,\n        x: Int,\n    )"
    );
}

#[test]
fn forwarder_rendering() {
    let f = eat();
    assert_eq!(
        format_function_mapping(&f, false),
        "\n    fun eat(\n        x: Int,\n    ) =\n        KebabObj.eat(this.pointer, x)\n    "
    );
}

#[test]
fn interface_stub_rendering() {
    let f = Function {
        owner_name: String::from("Watcher"),
        name: String::from("detected_change"),
        parameters: vec![
            Parameter::Receiver { is_mutable: false },
            Parameter::Typed {
                name: String::from("path"),
                ty: JniType::NamedType(String::from("FileChanged")),
                is_borrow: false,
                is_mutable: false,
            },
        ],
        return_type: None,
    };
    assert_eq!(
        format_interface_function(&f),
        "fun detectedChange(\n        path: FileChanged,\n    )"
    );
}
