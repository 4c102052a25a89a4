//! Generation of the boundary entry points: for each extracted
//! function, a native `extern "system"` function that unmarshals every
//! parameter in declaration order, invokes the native function with
//! the receiver first where present, marshals the return value if
//! there is one, and returns — preceded by the embedded record that
//! carries the function's own representation.

use vstd::prelude::*;

use crate::codec::{enc_function, encode_function};
use crate::descriptor::{rust_jni_ok, rust_jni_ty_of, rust_jni_type};
use crate::emit::{full_header_comment, header_comment_of};
use crate::ir::{Function, FunctionV, JniType, JniTypeV, Parameter, ParameterV};
use crate::marshal::{
    call_arg_of, call_arg_ok, marshal_of, marshal_ok, rust_fn_call_from_jni_type,
    transform_jni_type_to_rust, transform_rust_to_jni_type, unmarshal_of, unmarshal_ok,
};
use crate::names::{camel_of, string_to_camel_case};

verus! {

/// The boundary entry-point name of a function: prefix, owner with its
/// fixed suffix, and the camel-case method name.
pub open spec fn entry_point_name_of(owner: Seq<char>, name: Seq<char>) -> Seq<char> {
    "Java_"@ + owner + "Obj_"@ + camel_of(name)
}

/// A parameter the generator accepts: its wire type can appear in an
/// entry-point signature, be unmarshaled, and be passed on.
pub open spec fn param_ok(p: ParameterV) -> bool {
    match p {
        ParameterV::Typed { ty, .. } => unmarshal_ok(ty) && call_arg_ok(ty) && rust_jni_ok(ty),
        ParameterV::Receiver { .. } => true,
    }
}

/// A function the generator accepts: every parameter is acceptable and
/// a declared return type can be marshaled back.
pub open spec fn binding_ok(f: FunctionV) -> bool {
    (forall|i: int| 0 <= i < f.parameters.len() ==> param_ok(#[trigger] f.parameters[i]))
        && match f.return_type {
        Option::Some(ty) => marshal_ok(ty) && rust_jni_ok(ty),
        Option::None => true,
    }
}

/// The signature fragment a parameter contributes, comma-led since the
/// boundary environment and class parameters always come first.
pub open spec fn param_sig_of(p: ParameterV) -> Seq<char> {
    match p {
        ParameterV::Typed { name, ty, .. } => ",\n"@ + name + ": "@ + rust_jni_ty_of(ty, false),
        ParameterV::Receiver { .. } => ",\njobject: jni::sys::jlong"@,
    }
}

pub open spec fn params_sig_cat(ps: Seq<ParameterV>) -> Seq<char>
    decreases ps.len(),
{
    if ps.len() == 0 {
        Seq::empty()
    } else {
        params_sig_cat(ps.drop_last()) + param_sig_of(ps.last())
    }
}

/// The unmarshal statements a parameter contributes; the receiver is
/// unmarshaled as a handle of the owning type bound to `jobject`.
pub open spec fn param_transform_of(owner: Seq<char>, p: ParameterV) -> Seq<char> {
    match p {
        ParameterV::Typed { name, ty, .. } => unmarshal_of(ty, name, false),
        ParameterV::Receiver { .. } => unmarshal_of(
            JniTypeV::ObjectHandle(owner),
            "jobject"@,
            false,
        ),
    }
}

pub open spec fn params_transform_cat(owner: Seq<char>, ps: Seq<ParameterV>) -> Seq<char>
    decreases ps.len(),
{
    if ps.len() == 0 {
        Seq::empty()
    } else {
        params_transform_cat(owner, ps.drop_last()) + param_transform_of(owner, ps.last())
    }
}

/// The native call argument a parameter contributes.
pub open spec fn param_call_arg_of(p: ParameterV) -> Seq<char> {
    match p {
        ParameterV::Typed { name, ty, .. } => call_arg_of(ty, name) + ", "@,
        ParameterV::Receiver { is_mutable } => if is_mutable {
            "&mut jobject, "@
        } else {
            "& jobject, "@
        },
    }
}

pub open spec fn params_call_args_cat(ps: Seq<ParameterV>) -> Seq<char>
    decreases ps.len(),
{
    if ps.len() == 0 {
        Seq::empty()
    } else {
        params_call_args_cat(ps.drop_last()) + param_call_arg_of(ps.last())
    }
}

/// The return-type fragment of the entry-point signature.
pub open spec fn return_sig_of(rt: Option<JniTypeV>) -> Seq<char> {
    match rt {
        Option::Some(ty) => "-> "@ + rust_jni_ty_of(ty, false) + " "@,
        Option::None => Seq::empty(),
    }
}

/// The marshal statements and return statement of the entry point.
pub open spec fn return_body_of(rt: Option<JniTypeV>) -> Seq<char> {
    match rt {
        Option::Some(ty) => marshal_of(ty, "result"@, false) + "return result;\n"@,
        Option::None => Seq::empty(),
    }
}

/// The whole generated entry point for one function: embedded record,
/// signature, unmarshal statements in declaration order, the native
/// call, and the marshaled return.
pub open spec fn binding_of(owner: Seq<char>, f: FunctionV) -> Seq<char> {
    header_comment_of("JNI_FN_DATA "@ + enc_function(f)) + "#[no_mangle]\npub extern \"system\" fn "@
        + entry_point_name_of(owner, f.name)
        + "<'local>(\nmut env: jni::JNIEnv<'local>,\n_class: jni::objects::JClass<'local>"@
        + params_sig_cat(f.parameters) + "\n) "@ + return_sig_of(f.return_type)
        + "{\nlet rc_env = std::rc::Rc::new(std::cell::RefCell::new(env));\n"@
        + params_transform_cat(owner, f.parameters) + "let result = <"@ + owner + ">::"@ + f.name
        + "("@ + params_call_args_cat(f.parameters) + ");\n"@ + return_body_of(f.return_type)
        + "}\n"@
}

/// Emit the boundary entry point for one function of the given owner.
pub fn generate_rust_jni_binding_function(struct_name: &str, func: &Function) -> (out: String)
    requires
        binding_ok(func@),
    ensures
        out@ == binding_of(struct_name@, func@),
{
    let encoded = encode_function(func);
    let mut header_content = String::from_str("JNI_FN_DATA ");
    header_content.append(encoded.as_str());
    let header = full_header_comment(header_content.as_str());

    let mut out = header;
    out.append("#[no_mangle]\npub extern \"system\" fn ");
    out.append("Java_");
    out.append(struct_name);
    out.append("Obj_");
    let camel = string_to_camel_case(func.name.as_str());
    out.append(camel.as_str());
    out.append("<'local>(\nmut env: jni::JNIEnv<'local>,\n_class: jni::objects::JClass<'local>");

    let n = func.parameters.len();
    let ghost sig_base = out@;
    let mut i: usize = 0;
    proof {
        assert(func@.parameters.take(0) =~= Seq::<ParameterV>::empty());
        assert(sig_base + Seq::<char>::empty() =~= sig_base);
    }
    while i < n
        invariant
            n == func.parameters@.len(),
            func@.parameters.len() == n,
            i <= n,
            binding_ok(func@),
            out@ == sig_base + params_sig_cat(func@.parameters.take(i as int)),
        decreases n - i,
    {
        let ghost pre = func@.parameters.take(i as int);
        proof {
            assert(func@.parameters[i as int] == func.parameters@[i as int]@);
            assert(param_ok(func@.parameters[i as int]));
            assert(func@.parameters.take(i as int + 1).drop_last() =~= pre);
            assert(func@.parameters.take(i as int + 1).last() == func@.parameters[i as int]);
        }
        match &func.parameters[i] {
            Parameter::Typed { name, ty, .. } => {
                out.append(",\n");
                out.append(name.as_str());
                out.append(": ");
                let ty_text = rust_jni_type(ty, false);
                out.append(ty_text.as_str());
            },
            Parameter::Receiver { .. } => {
                out.append(",\njobject: jni::sys::jlong");
            },
        }
        i = i + 1;
        proof {
            assert(out@ =~= sig_base + params_sig_cat(func@.parameters.take(i as int)));
        }
    }
    proof {
        assert(func@.parameters.take(n as int) =~= func@.parameters);
    }
    out.append("\n) ");
    match &func.return_type {
        Option::Some(ty) => {
            out.append("-> ");
            let ty_text = rust_jni_type(ty, false);
            out.append(ty_text.as_str());
            out.append(" ");
        },
        Option::None => {},
    }
    out.append("{\nlet rc_env = std::rc::Rc::new(std::cell::RefCell::new(env));\n");

    let ghost sig_done = out@;
    let mut i: usize = 0;
    proof {
        assert(func@.parameters.take(0) =~= Seq::<ParameterV>::empty());
        assert(sig_done + Seq::<char>::empty() =~= sig_done);
    }
    while i < n
        invariant
            n == func.parameters@.len(),
            func@.parameters.len() == n,
            i <= n,
            binding_ok(func@),
            out@ == sig_done + params_transform_cat(
                struct_name@,
                func@.parameters.take(i as int),
            ),
        decreases n - i,
    {
        let ghost pre = func@.parameters.take(i as int);
        proof {
            assert(func@.parameters[i as int] == func.parameters@[i as int]@);
            assert(param_ok(func@.parameters[i as int]));
            assert(func@.parameters.take(i as int + 1).drop_last() =~= pre);
            assert(func@.parameters.take(i as int + 1).last() == func@.parameters[i as int]);
        }
        match &func.parameters[i] {
            Parameter::Typed { name, ty, .. } => {
                let t = transform_jni_type_to_rust(ty, name.as_str(), false);
                out.append(t.as_str());
            },
            Parameter::Receiver { .. } => {
                let owner_ty = JniType::ObjectHandle(String::from_str(struct_name));
                let t = transform_jni_type_to_rust(&owner_ty, "jobject", false);
                out.append(t.as_str());
            },
        }
        i = i + 1;
        proof {
            assert(out@ =~= sig_done + params_transform_cat(
                struct_name@,
                func@.parameters.take(i as int),
            ));
        }
    }
    proof {
        assert(func@.parameters.take(n as int) =~= func@.parameters);
    }

    out.append("let result = <");
    out.append(struct_name);
    out.append(">::");
    out.append(func.name.as_str());
    out.append("(");

    let ghost call_done = out@;
    let mut i: usize = 0;
    proof {
        assert(func@.parameters.take(0) =~= Seq::<ParameterV>::empty());
        assert(call_done + Seq::<char>::empty() =~= call_done);
    }
    while i < n
        invariant
            n == func.parameters@.len(),
            func@.parameters.len() == n,
            i <= n,
            binding_ok(func@),
            out@ == call_done + params_call_args_cat(func@.parameters.take(i as int)),
        decreases n - i,
    {
        let ghost pre = func@.parameters.take(i as int);
        proof {
            assert(func@.parameters[i as int] == func.parameters@[i as int]@);
            assert(param_ok(func@.parameters[i as int]));
            assert(func@.parameters.take(i as int + 1).drop_last() =~= pre);
            assert(func@.parameters.take(i as int + 1).last() == func@.parameters[i as int]);
        }
        match &func.parameters[i] {
            Parameter::Typed { name, ty, .. } => {
                let a = rust_fn_call_from_jni_type(ty, name.as_str());
                out.append(a.as_str());
                out.append(", ");
            },
            Parameter::Receiver { is_mutable } => {
                if *is_mutable {
                    out.append("&mut jobject, ");
                } else {
                    out.append("& jobject, ");
                }
            },
        }
        i = i + 1;
        proof {
            assert(out@ =~= call_done + params_call_args_cat(func@.parameters.take(i as int)));
        }
    }
    proof {
        assert(func@.parameters.take(n as int) =~= func@.parameters);
    }

    out.append(");\n");
    match &func.return_type {
        Option::Some(ty) => {
            let t = transform_rust_to_jni_type(ty, "result", false);
            out.append(t.as_str());
            out.append("return result;\n");
        },
        Option::None => {},
    }
    out.append("}\n");
    proof {
        assert(out@ =~= binding_of(struct_name@, func@));
    }
    out
}

/// Emit the boundary entry points for every function of an impl block.
pub fn generate_rust_jni_binding_functions(struct_name: &str, functions: &Vec<Function>) -> (out:
    Vec<String>)
    requires
        forall|i: int| 0 <= i < functions.deep_view().len() ==> binding_ok(
            #[trigger] functions.deep_view()[i],
        ),
    ensures
        out@.len() == functions@.len(),
        forall|i: int|
            0 <= i < out@.len() ==> (#[trigger] out@[i])@ == binding_of(
                struct_name@,
                functions.deep_view()[i],
            ),
{
    let mut out: Vec<String> = Vec::new();
    let mut i: usize = 0;
    while i < functions.len()
        invariant
            i <= functions@.len(),
            functions.deep_view().len() == functions@.len(),
            forall|j: int| 0 <= j < functions.deep_view().len() ==> binding_ok(
                #[trigger] functions.deep_view()[j],
            ),
            out@.len() == i,
            forall|j: int|
                0 <= j < i ==> (#[trigger] out@[j])@ == binding_of(
                    struct_name@,
                    functions.deep_view()[j],
                ),
        decreases functions@.len() - i,
    {
        proof {
            assert(functions.deep_view()[i as int] == functions@[i as int]@);
        }
        let b = generate_rust_jni_binding_function(struct_name, &functions[i]);
        out.push(b);
        i = i + 1;
    }
    out
}

} // verus!
