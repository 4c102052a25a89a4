//! The attribute-level expansions: given a declaration and its source
//! text, emit the declaration unchanged followed by everything the
//! binding synthesis adds to it — boundary entry points for an impl
//! block, and the lifecycle or conversion methods for a class or data
//! class declaration.

use vstd::prelude::*;

use crate::extract::{
    decl_receiver_ok, get_parameters_from_method, get_return_type_from_method, rs_of_decl,
    rs_struct_from_decl, ImplDecl, ImplDeclV, MethodDecl, MethodDeclV, StructDecl,
};
use crate::functions::{binding_of, binding_ok, generate_rust_jni_binding_function};
use crate::interface::fn_of_method;
use crate::ir::{Function, FunctionV};
use crate::structs::{
    data_class_ok, drop_func_of, map_to_class_of, map_to_data_class_of, Class, DataClass,
};

verus! {

/// A method the impl-block expansion accepts: its receiver is taken by
/// reference and the extracted function can be bound.
pub open spec fn impl_method_ok(owner: Seq<char>, m: MethodDeclV) -> bool {
    (forall|i: int| 0 <= i < m.params.len() ==> decl_receiver_ok(#[trigger] m.params[i]))
        && binding_ok(fn_of_method(owner, m))
}

/// An impl block the expansion accepts.
pub open spec fn impl_ok(d: ImplDeclV) -> bool {
    forall|i: int| 0 <= i < d.methods.len() ==> impl_method_ok(d.self_ty, #[trigger] d.methods[i])
}

/// The entry points generated for the methods of an impl block.
pub open spec fn impl_bindings_cat(owner: Seq<char>, ms: Seq<MethodDeclV>) -> Seq<char>
    decreases ms.len(),
{
    if ms.len() == 0 {
        Seq::empty()
    } else {
        impl_bindings_cat(owner, ms.drop_last()) + binding_of(owner, fn_of_method(
            owner,
            ms.last(),
        ))
    }
}

/// The whole expansion of an impl block: the block unchanged, then one
/// boundary entry point per method.
pub open spec fn impl_expand_of(d: ImplDeclV, impl_source: Seq<char>) -> Seq<char> {
    impl_source + "\n"@ + impl_bindings_cat(d.self_ty, d.methods)
}

/// Expand an impl block.
pub fn jni_struct_impl_expand(decl: &ImplDecl, impl_source: &str) -> (out: String)
    requires
        impl_ok(decl@),
    ensures
        out@ == impl_expand_of(decl@, impl_source@),
{
    let mut out = String::from_str(impl_source);
    out.append("\n");

    let n = decl.methods.len();
    let ghost ms = decl.methods.deep_view();
    let ghost base = out@;
    let mut i: usize = 0;
    proof {
        assert(ms.take(0) =~= Seq::<MethodDeclV>::empty());
        assert(base + Seq::<char>::empty() =~= base);
        assert(ms == decl@.methods);
    }
    while i < n
        invariant
            n == decl.methods@.len(),
            ms == decl.methods.deep_view(),
            ms.len() == n,
            i <= n,
            impl_ok(decl@),
            ms == decl@.methods,
            out@ == base + impl_bindings_cat(decl@.self_ty, ms.take(i as int)),
        decreases n - i,
    {
        proof {
            assert(ms[i as int] == decl.methods@[i as int]@);
            assert(impl_method_ok(decl@.self_ty, ms[i as int]));
            assert(ms.take(i as int + 1).drop_last() =~= ms.take(i as int));
            assert(ms.take(i as int + 1).last() == ms[i as int]);
        }
        let m = &decl.methods[i];
        let parameters = match get_parameters_from_method(&m.params) {
            Result::Ok(ps) => ps,
            Result::Err(_) => {
                proof {
                    assert(forall|k: int|
                        0 <= k < m.params.deep_view().len() ==> decl_receiver_ok(
                            #[trigger] m.params.deep_view()[k],
                        ));
                    assert(false);
                }
                Vec::new()
            },
        };
        let return_type = get_return_type_from_method(&m.return_ty);
        let f = Function {
            owner_name: decl.self_ty.clone(),
            name: m.name.clone(),
            parameters,
            return_type,
        };
        proof {
            assert(f@.parameters =~= fn_of_method(decl@.self_ty, ms[i as int]).parameters);
            assert(f@ == fn_of_method(decl@.self_ty, ms[i as int]));
        }
        let b = generate_rust_jni_binding_function(decl.self_ty.as_str(), &f);
        out.append(b.as_str());
        i = i + 1;
        proof {
            assert(out@ =~= base + impl_bindings_cat(decl@.self_ty, ms.take(i as int)));
        }
    }
    proof {
        assert(ms.take(n as int) =~= ms);
        assert(out@ =~= impl_expand_of(decl@, impl_source@));
    }
    out
}

/// The whole expansion of a handle-backed class declaration: the
/// declaration unchanged, then its boundary-object conversion and its
/// disposer.
pub open spec fn class_expand_of(d: crate::extract::StructDeclV, source: Seq<char>) -> Seq<char> {
    source + "\n"@ + map_to_class_of(rs_of_decl(d)) + drop_func_of(rs_of_decl(d))
}

/// Expand a handle-backed class declaration.
pub fn jni_class_expand(decl: &StructDecl, source: &str) -> (out: String)
    ensures
        out@ == class_expand_of(decl@, source@),
{
    let rs = rs_struct_from_decl(decl);
    let class = Class::from(rs);
    let mut out = String::from_str(source);
    out.append("\n");
    let m1 = class.map_to_class_func();
    out.append(m1.as_str());
    let m2 = class.drop_func();
    out.append(m2.as_str());
    proof {
        assert(out@ =~= class_expand_of(decl@, source@));
    }
    out
}

/// The whole expansion of a data class declaration: the declaration
/// unchanged, then its full-field boundary-object conversion.
pub open spec fn data_class_expand_of(d: crate::extract::StructDeclV, source: Seq<char>) -> Seq<
    char,
> {
    source + "\n"@ + map_to_data_class_of(rs_of_decl(d))
}

/// Expand a data class declaration.
pub fn jni_data_class_expand(decl: &StructDecl, source: &str) -> (out: String)
    requires
        data_class_ok(rs_of_decl(decl@).fields),
    ensures
        out@ == data_class_expand_of(decl@, source@),
{
    let rs = rs_struct_from_decl(decl);
    let data_class = DataClass::from(rs);
    let mut out = String::from_str(source);
    out.append("\n");
    proof {
        assert(data_class.0@ == rs_of_decl(decl@));
    }
    let m1 = data_class.map_to_data_class_func();
    out.append(m1.as_str());
    proof {
        assert(out@ =~= data_class_expand_of(decl@, source@));
    }
    out
}

} // verus!
