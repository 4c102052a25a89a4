//! Expansion of a callback interface declaration: the embedded record
//! carrying the interface's representation, and a bridge type that
//! implements the native trait by forwarding every call to the
//! boundary-side callback object through the shared environment
//! handle, checking for a pending boundary exception after the call.

use vstd::prelude::*;

use crate::codec::{enc_interface, encode_interface};
use crate::descriptor::{descriptor_of, jni_type_to_jni_method_signature_type};
use crate::emit::{full_header_comment, header_comment_of};
use crate::extract::{
    decl_receiver_ok, get_parameters_from_method, get_return_type_from_method, param_of_decl,
    MethodDecl, MethodDeclV, ParamDecl, ParamDeclV, TraitDecl, TraitDeclV,
};
use crate::ir::{
    Field, FieldV, Function, FunctionV, JniType, JniTypeV, Parameter, RsInterface, RsInterfaceV,
};
use crate::marshal::{
    array_arg_of, array_ok, generate_field_mapping_into_array, property_of, property_ok,
    rust_property_to_jni_type,
};
use crate::names::{camel_of, string_to_camel_case};
use crate::type_mapper::{parse_jni_type, parse_ty};

verus! {

/// A declaration parameter the bridge generator accepts: the receiver
/// by reference, and every argument type convertible to a boundary
/// call argument.
pub open spec fn bridge_param_ok(d: ParamDeclV) -> bool {
    match d {
        ParamDeclV::Receiver { is_reference, .. } => is_reference,
        ParamDeclV::Typed { ty_text, .. } => property_ok(parse_ty(ty_text)) && array_ok(
            parse_ty(ty_text),
        ),
    }
}

/// A method the bridge generator accepts.
pub open spec fn bridge_method_ok(m: MethodDeclV) -> bool {
    forall|i: int| 0 <= i < m.params.len() ==> bridge_param_ok(#[trigger] m.params[i])
}

/// A trait declaration the bridge generator accepts.
pub open spec fn bridge_trait_ok(t: TraitDeclV) -> bool {
    forall|i: int| 0 <= i < t.methods.len() ==> bridge_method_ok(#[trigger] t.methods[i])
}

/// The spelling of one parameter in the bridge method's signature.
pub open spec fn input_of(d: ParamDeclV) -> Seq<char> {
    match d {
        ParamDeclV::Receiver { is_mutable, .. } => if is_mutable {
            "&mut self"@
        } else {
            "&self"@
        },
        ParamDeclV::Typed { pat, ty_text } => pat + ": "@ + ty_text,
    }
}

/// The parameter list of the bridge method, comma-separated.
pub open spec fn inputs_join(ds: Seq<ParamDeclV>) -> Seq<char>
    decreases ds.len(),
{
    if ds.len() == 0 {
        Seq::empty()
    } else if ds.len() == 1 {
        input_of(ds[0])
    } else {
        inputs_join(ds.drop_last()) + ", "@ + input_of(ds.last())
    }
}

/// The descriptor fragment of the non-receiver parameters.
pub open spec fn sig_cat(ds: Seq<ParamDeclV>) -> Seq<char>
    decreases ds.len(),
{
    if ds.len() == 0 {
        Seq::empty()
    } else {
        sig_cat(ds.drop_last()) + (match ds.last() {
            ParamDeclV::Typed { ty_text, .. } => descriptor_of(parse_ty(ty_text)),
            ParamDeclV::Receiver { .. } => Seq::<char>::empty(),
        })
    }
}

/// The return-type descriptor of a bridge method: the unit descriptor
/// where no return type is declared.
pub open spec fn ret_desc_of(rt: Option<Seq<char>>) -> Seq<char> {
    match rt {
        Option::Some(t) => descriptor_of(parse_ty(t)),
        Option::None => "V"@,
    }
}

/// The whole boundary method signature of a bridge method.
pub open spec fn method_sig_of(m: MethodDeclV) -> Seq<char> {
    "("@ + sig_cat(m.params) + ")"@ + ret_desc_of(m.return_ty)
}

/// The declared return-type spelling of a bridge method.
pub open spec fn ret_text_of(rt: Option<Seq<char>>) -> Seq<char> {
    match rt {
        Option::Some(t) => " -> "@ + t,
        Option::None => Seq::empty(),
    }
}

/// The conversion statements of the non-receiver parameters, each
/// bound under its declared name.
pub open spec fn bridge_transforms_cat(ds: Seq<ParamDeclV>) -> Seq<char>
    decreases ds.len(),
{
    if ds.len() == 0 {
        Seq::empty()
    } else {
        bridge_transforms_cat(ds.drop_last()) + (match ds.last() {
            ParamDeclV::Typed { pat, ty_text } => property_of(parse_ty(ty_text), pat, pat),
            ParamDeclV::Receiver { .. } => Seq::<char>::empty(),
        })
    }
}

/// The boundary argument array of the non-receiver parameters.
pub open spec fn bridge_args_cat(ds: Seq<ParamDeclV>) -> Seq<char>
    decreases ds.len(),
{
    if ds.len() == 0 {
        Seq::empty()
    } else {
        bridge_args_cat(ds.drop_last()) + (match ds.last() {
            ParamDeclV::Typed { pat, ty_text } => array_arg_of(parse_ty(ty_text), pat) + ", "@,
            ParamDeclV::Receiver { .. } => Seq::<char>::empty(),
        })
    }
}

/// The bridge implementation of one trait method: convert every
/// argument, perform the boundary call by camel-case name and
/// signature, surface a pending boundary exception, and fail loudly if
/// the call itself failed.
pub open spec fn bridge_method_of(m: MethodDeclV) -> Seq<char> {
    "fn "@ + m.name + "("@ + inputs_join(m.params) + ")"@ + ret_text_of(m.return_ty)
        + " {\nlet rc_env = &self.env;\n"@ + bridge_transforms_cat(m.params)
        + "let method_args: &[jni::objects::JValue] = &["@ + bridge_args_cat(m.params)
        + "];\nlet result = {\nlet mut env = rc_env.borrow_mut();\nlet r = env.call_method(&self.callback, \""@
        + camel_of(m.name) + "\", \""@ + method_sig_of(m)
        + "\", method_args);\nif env.exception_check().expect(\"Failed to check if there is an exception\") {\nenv.exception_describe();\n}\nr.unwrap_or_else(|e| panic!(\"Call method ["@
        + camel_of(m.name) + "] with signature ["@ + method_sig_of(m)
        + "] failed with error: {e}\"))\n};\n}\n"@
}

pub open spec fn bridge_methods_cat(ms: Seq<MethodDeclV>) -> Seq<char>
    decreases ms.len(),
{
    if ms.len() == 0 {
        Seq::empty()
    } else {
        bridge_methods_cat(ms.drop_last()) + bridge_method_of(ms.last())
    }
}

/// The function node serialized for one trait method.
pub open spec fn fn_of_method(owner: Seq<char>, m: MethodDeclV) -> FunctionV {
    FunctionV {
        owner_name: owner,
        name: m.name,
        parameters: Seq::new(m.params.len(), |i: int| param_of_decl(m.params[i])),
        return_type: match m.return_ty {
            Option::Some(t) => Option::Some(parse_ty(t)),
            Option::None => Option::None,
        },
    }
}

/// The interface node serialized for a trait declaration.
pub open spec fn interface_of(t: TraitDeclV) -> RsInterfaceV {
    RsInterfaceV {
        name: t.name,
        functions: Seq::new(t.methods.len(), |i: int| fn_of_method(t.name, t.methods[i])),
    }
}

/// The whole expansion of an interface declaration: the embedded
/// record, the declaration itself unchanged, the bridge type holding
/// the shared environment handle and the callback object, and the
/// bridge implementation of the trait.
pub open spec fn interface_expand_of(t: TraitDeclV, trait_source: Seq<char>) -> Seq<char> {
    header_comment_of("JNI_INTERFACE "@ + enc_interface(interface_of(t))) + trait_source
        + "\nstruct "@ + t.name
        + "JniBridge<'a> {\nenv: std::rc::Rc<std::cell::RefCell<jni::JNIEnv<'a>>>,\ncallback: std::rc::Rc<jni::objects::JObject<'a>>,\n}\nimpl<'a> "@
        + t.name + " for "@ + t.name + "JniBridge<'a> {\n"@ + bridge_methods_cat(t.methods)
        + "}\n"@
}

/// Emit the bridge implementation of one trait method.
pub fn bridge_method_text(m: &MethodDecl) -> (out: String)
    requires
        bridge_method_ok(m@),
    ensures
        out@ == bridge_method_of(m@),
{
    let n = m.params.len();
    let ghost params_v = m.params.deep_view();

    let mut out = String::from_str("fn ");
    out.append(m.name.as_str());
    out.append("(");

    let ghost inputs_base = out@;
    let mut i: usize = 0;
    proof {
        assert(params_v.take(0) =~= Seq::<ParamDeclV>::empty());
        assert(inputs_base + Seq::<char>::empty() =~= inputs_base);
    }
    while i < n
        invariant
            n == m.params@.len(),
            params_v == m.params.deep_view(),
            params_v.len() == n,
            i <= n,
            bridge_method_ok(m@),
            out@ == inputs_base + inputs_join(params_v.take(i as int)),
        decreases n - i,
    {
        proof {
            assert(params_v[i as int] == m.params@[i as int]@);
            assert(params_v.take(i as int + 1).drop_last() =~= params_v.take(i as int));
            assert(params_v.take(i as int + 1).last() == params_v[i as int]);
            assert(params_v.take(i as int + 1).len() == i + 1);
            if i == 0 {
                assert(params_v.take(1)[0] == params_v[0]);
            }
        }
        if i > 0 {
            out.append(", ");
        }
        match &m.params[i] {
            ParamDecl::Receiver { is_mutable, .. } => {
                if *is_mutable {
                    out.append("&mut self");
                } else {
                    out.append("&self");
                }
            },
            ParamDecl::Typed { pat, ty_text } => {
                out.append(pat.as_str());
                out.append(": ");
                out.append(ty_text.as_str());
            },
        }
        i = i + 1;
        proof {
            assert(out@ =~= inputs_base + inputs_join(params_v.take(i as int)));
        }
    }
    proof {
        assert(params_v.take(n as int) =~= params_v);
    }

    out.append(")");
    match &m.return_ty {
        Option::Some(t) => {
            out.append(" -> ");
            out.append(t.as_str());
        },
        Option::None => {},
    }
    out.append(" {\nlet rc_env = &self.env;\n");

    let ghost tr_base = out@;
    let mut i: usize = 0;
    proof {
        assert(tr_base + Seq::<char>::empty() =~= tr_base);
    }
    while i < n
        invariant
            n == m.params@.len(),
            params_v == m.params.deep_view(),
            params_v.len() == n,
            i <= n,
            bridge_method_ok(m@),
            out@ == tr_base + bridge_transforms_cat(params_v.take(i as int)),
        decreases n - i,
    {
        proof {
            assert(params_v == m@.params);
            assert(params_v[i as int] == m.params@[i as int]@);
            assert(bridge_param_ok(params_v[i as int]));
            assert(params_v.take(i as int + 1).drop_last() =~= params_v.take(i as int));
            assert(params_v.take(i as int + 1).last() == params_v[i as int]);
        }
        match &m.params[i] {
            ParamDecl::Receiver { .. } => {},
            ParamDecl::Typed { pat, ty_text } => {
                let ty = parse_jni_type(ty_text.as_str());
                let t = rust_property_to_jni_type(&ty, pat.as_str(), pat.as_str());
                out.append(t.as_str());
            },
        }
        i = i + 1;
        proof {
            assert(out@ =~= tr_base + bridge_transforms_cat(params_v.take(i as int)));
        }
    }
    proof {
        assert(params_v.take(n as int) =~= params_v);
    }

    out.append("let method_args: &[jni::objects::JValue] = &[");

    let ghost args_base = out@;
    let mut i: usize = 0;
    proof {
        assert(args_base + Seq::<char>::empty() =~= args_base);
    }
    while i < n
        invariant
            n == m.params@.len(),
            params_v == m.params.deep_view(),
            params_v.len() == n,
            i <= n,
            bridge_method_ok(m@),
            out@ == args_base + bridge_args_cat(params_v.take(i as int)),
        decreases n - i,
    {
        proof {
            assert(params_v == m@.params);
            assert(params_v[i as int] == m.params@[i as int]@);
            assert(bridge_param_ok(params_v[i as int]));
            assert(params_v.take(i as int + 1).drop_last() =~= params_v.take(i as int));
            assert(params_v.take(i as int + 1).last() == params_v[i as int]);
        }
        match &m.params[i] {
            ParamDecl::Receiver { .. } => {},
            ParamDecl::Typed { pat, ty_text } => {
                let ty = parse_jni_type(ty_text.as_str());
                let a = generate_field_mapping_into_array(&ty, pat.as_str());
                out.append(a.as_str());
                out.append(", ");
            },
        }
        i = i + 1;
        proof {
            assert(out@ =~= args_base + bridge_args_cat(params_v.take(i as int)));
        }
    }
    proof {
        assert(params_v.take(n as int) =~= params_v);
    }

    // the boundary signature: every non-receiver parameter's
    // descriptor between the parentheses, then the return descriptor
    let mut sig = String::from_str("(");
    let ghost sig_base = sig@;
    let mut i: usize = 0;
    proof {
        assert(sig_base + Seq::<char>::empty() =~= sig_base);
    }
    while i < n
        invariant
            n == m.params@.len(),
            params_v == m.params.deep_view(),
            params_v.len() == n,
            i <= n,
            sig@ == sig_base + sig_cat(params_v.take(i as int)),
        decreases n - i,
    {
        proof {
            assert(params_v[i as int] == m.params@[i as int]@);
            assert(params_v.take(i as int + 1).drop_last() =~= params_v.take(i as int));
            assert(params_v.take(i as int + 1).last() == params_v[i as int]);
        }
        match &m.params[i] {
            ParamDecl::Receiver { .. } => {},
            ParamDecl::Typed { ty_text, .. } => {
                let ty = parse_jni_type(ty_text.as_str());
                let d = jni_type_to_jni_method_signature_type(&ty);
                sig.append(d.as_str());
            },
        }
        i = i + 1;
        proof {
            assert(sig@ =~= sig_base + sig_cat(params_v.take(i as int)));
        }
    }
    proof {
        assert(params_v.take(n as int) =~= params_v);
    }
    sig.append(")");
    match &m.return_ty {
        Option::Some(t) => {
            let ty = parse_jni_type(t.as_str());
            let d = jni_type_to_jni_method_signature_type(&ty);
            sig.append(d.as_str());
        },
        Option::None => {
            sig.append("V");
        },
    }
    proof {
        assert(sig@ =~= method_sig_of(m@));
    }

    let camel = string_to_camel_case(m.name.as_str());

    out.append("];\nlet result = {\nlet mut env = rc_env.borrow_mut();\nlet r = env.call_method(&self.callback, \"");
    out.append(camel.as_str());
    out.append("\", \"");
    out.append(sig.as_str());
    out.append(
        "\", method_args);\nif env.exception_check().expect(\"Failed to check if there is an exception\") {\nenv.exception_describe();\n}\nr.unwrap_or_else(|e| panic!(\"Call method [",
    );
    out.append(camel.as_str());
    out.append("] with signature [");
    out.append(sig.as_str());
    out.append("] failed with error: {e}\"))\n};\n}\n");
    proof {
        assert(out@ =~= bridge_method_of(m@));
    }
    out
}

/// Build the interface node serialized for a trait declaration.
pub fn interface_node_of_trait(decl: &TraitDecl) -> (out: RsInterface)
    requires
        bridge_trait_ok(decl@),
    ensures
        out@ == interface_of(decl@),
{
    let mut functions: Vec<Function> = Vec::new();
    let mut i: usize = 0;
    while i < decl.methods.len()
        invariant
            i <= decl.methods@.len(),
            decl@.methods.len() == decl.methods@.len(),
            bridge_trait_ok(decl@),
            functions.deep_view().len() == i,
            forall|j: int|
                0 <= j < i ==> #[trigger] functions.deep_view()[j] == fn_of_method(
                    decl@.name,
                    decl@.methods[j],
                ),
        decreases decl.methods@.len() - i,
    {
        proof {
            assert(decl@.methods[i as int] == decl.methods@[i as int]@);
            assert(bridge_method_ok(decl@.methods[i as int]));
        }
        let ghost old_dv = functions.deep_view();
        let m = &decl.methods[i];
        let parameters = match get_parameters_from_method(&m.params) {
            Result::Ok(ps) => ps,
            Result::Err(_) => {
                proof {
                    assert(forall|k: int|
                        0 <= k < m.params.deep_view().len() ==> decl_receiver_ok(
                            #[trigger] m.params.deep_view()[k],
                        ));
                    assert(false);
                }
                Vec::new()
            },
        };
        let return_type = get_return_type_from_method(&m.return_ty);
        let f = Function {
            owner_name: decl.name.clone(),
            name: m.name.clone(),
            parameters,
            return_type,
        };
        proof {
            assert(f@.parameters =~= fn_of_method(decl@.name, decl@.methods[i as int]).parameters);
            assert(f@ == fn_of_method(decl@.name, decl@.methods[i as int]));
        }
        functions.push(f);
        i = i + 1;
        proof {
            assert(functions.deep_view() =~= old_dv.push(functions@[i - 1]@));
        }
    }
    let out = RsInterface { name: decl.name.clone(), functions };
    proof {
        assert(out@.functions =~= interface_of(decl@).functions);
        assert(out@ == interface_of(decl@));
    }
    out
}

/// Expand an interface declaration: emit the embedded record, carry
/// the declaration source through unchanged, and append the bridge.
pub fn jni_interface_expand(decl: &TraitDecl, trait_source: &str) -> (out: String)
    requires
        bridge_trait_ok(decl@),
    ensures
        out@ == interface_expand_of(decl@, trait_source@),
{
    let node = interface_node_of_trait(decl);
    let encoded = encode_interface(&node);
    let mut header_content = String::from_str("JNI_INTERFACE ");
    header_content.append(encoded.as_str());
    let mut out = full_header_comment(header_content.as_str());
    out.append(trait_source);
    out.append("\nstruct ");
    out.append(decl.name.as_str());
    out.append(
        "JniBridge<'a> {\nenv: std::rc::Rc<std::cell::RefCell<jni::JNIEnv<'a>>>,\ncallback: std::rc::Rc<jni::objects::JObject<'a>>,\n}\nimpl<'a> ",
    );
    out.append(decl.name.as_str());
    out.append(" for ");
    out.append(decl.name.as_str());
    out.append("JniBridge<'a> {\n");

    let n = decl.methods.len();
    let ghost methods_v = decl.methods.deep_view();
    let ghost body_base = out@;
    let mut i: usize = 0;
    proof {
        assert(methods_v.take(0) =~= Seq::<MethodDeclV>::empty());
        assert(body_base + Seq::<char>::empty() =~= body_base);
    }
    while i < n
        invariant
            n == decl.methods@.len(),
            methods_v == decl.methods.deep_view(),
            methods_v.len() == n,
            i <= n,
            bridge_trait_ok(decl@),
            decl@.methods == methods_v,
            out@ == body_base + bridge_methods_cat(methods_v.take(i as int)),
        decreases n - i,
    {
        proof {
            assert(methods_v[i as int] == decl.methods@[i as int]@);
            assert(bridge_method_ok(methods_v[i as int]));
            assert(methods_v.take(i as int + 1).drop_last() =~= methods_v.take(i as int));
            assert(methods_v.take(i as int + 1).last() == methods_v[i as int]);
        }
        let t = bridge_method_text(&decl.methods[i]);
        out.append(t.as_str());
        i = i + 1;
        proof {
            assert(out@ =~= body_base + bridge_methods_cat(methods_v.take(i as int)));
        }
    }
    proof {
        assert(methods_v.take(n as int) =~= methods_v);
    }
    out.append("}\n");
    proof {
        assert(out@ =~= interface_expand_of(decl@, trait_source@));
    }
    out
}

} // verus!
