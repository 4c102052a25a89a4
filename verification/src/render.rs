//! The host-language renderer: one source file per extracted entity.
//! A handle-backed class renders as a host class with a private handle,
//! instance and static forwarders delegating to a private companion of
//! external declarations, and a disposer; a data class renders as a
//! plain field list; an interface renders as a method-stub contract.

use vstd::prelude::*;

use crate::descriptor::{jni_to_kotlin_type, kotlin_of, kotlin_ok};
use crate::ir::{
    is_receiver, spec_is_static, Function, FunctionV, JniType, JniTypeV, Parameter, ParameterV,
    RsInterface, RsInterfaceV, RsStruct, RsStructV,
};
use crate::names::{camel_of, string_to_camel_case};
use crate::strutil::dec_of;

verus! {

/// A wire type that can appear in a rendered signature.
pub open spec fn render_param_ok(p: ParameterV) -> bool {
    match p {
        ParameterV::Typed { ty, .. } => kotlin_ok(ty),
        ParameterV::Receiver { .. } => true,
    }
}

/// A function whose signature can be rendered.
pub open spec fn render_fn_ok(f: FunctionV) -> bool {
    (forall|i: int| 0 <= i < f.parameters.len() ==> render_param_ok(#[trigger] f.parameters[i]))
        && match f.return_type {
        Option::Some(ty) => kotlin_ok(ty),
        Option::None => true,
    }
}

/// The fragment one parameter contributes to a rendered parameter
/// list; the receiver appears only in a static forwarder, as the raw
/// handle.
pub open spec fn param_fmt_of(p: ParameterV, is_static: bool) -> Seq<char> {
    match p {
        ParameterV::Typed { name, ty, .. } => name + ": "@ + kotlin_of(ty, false) + ","@,
        ParameterV::Receiver { .. } => if is_static {
            "pointer: Long,"@
        } else {
            Seq::empty()
        },
    }
}

/// The rendered parameter list: the nonempty fragments joined by a
/// newline and indentation.
pub open spec fn params_fmt_join(ps: Seq<ParameterV>, is_static: bool) -> Seq<char>
    decreases ps.len(),
{
    if ps.len() == 0 {
        Seq::empty()
    } else {
        let pre = params_fmt_join(ps.drop_last(), is_static);
        let last = param_fmt_of(ps.last(), is_static);
        if last.len() == 0 {
            pre
        } else if pre.len() == 0 {
            last
        } else {
            pre + "\n        "@ + last
        }
    }
}

/// A nonempty parameter list not already ending in a newline is set on
/// its own lines.
pub open spec fn params_wrapped(ps: Seq<ParameterV>, is_static: bool) -> Seq<char> {
    let p = params_fmt_join(ps, is_static);
    if p.len() > 0 && p.last() != '\n' {
        "\n        "@ + p + "\n    "@
    } else {
        p
    }
}

/// The rendered return type: absent, or a colon and the host type.
pub open spec fn return_ty_fmt_of(rt: Option<JniTypeV>) -> Seq<char> {
    match rt {
        Option::Some(ty) => ": "@ + kotlin_of(ty, false),
        Option::None => Seq::empty(),
    }
}

/// Render a parameter list.
pub fn format_func_parameters(params: &Vec<Parameter>, is_static: bool) -> (out: String)
    requires
        forall|i: int|
            0 <= i < params.deep_view().len() ==> render_param_ok(#[trigger] params.deep_view()[i]),
    ensures
        out@ == params_fmt_join(params.deep_view(), is_static),
{
    let mut out = String::new();
    let n = params.len();
    let ghost ps = params.deep_view();
    let mut i: usize = 0;
    proof {
        assert(ps.take(0) =~= Seq::<ParameterV>::empty());
    }
    while i < n
        invariant
            n == params@.len(),
            ps == params.deep_view(),
            ps.len() == n,
            i <= n,
            forall|j: int| 0 <= j < n ==> render_param_ok(#[trigger] ps[j]),
            out@ == params_fmt_join(ps.take(i as int), is_static),
        decreases n - i,
    {
        proof {
            assert(ps[i as int] == params@[i as int]@);
            assert(ps.take(i as int + 1).drop_last() =~= ps.take(i as int));
            assert(ps.take(i as int + 1).last() == ps[i as int]);
        }
        let piece: String = match &params[i] {
            Parameter::Typed { name, ty, .. } => {
                let mut s = String::from_str(name.as_str());
                s.append(": ");
                let k = jni_to_kotlin_type(ty, false);
                s.append(k.as_str());
                s.append(",");
                s
            },
            Parameter::Receiver { .. } => {
                if is_static {
                    String::from_str("pointer: Long,")
                } else {
                    String::new()
                }
            },
        };
        if piece.as_str().unicode_len() > 0 {
            if out.as_str().unicode_len() > 0 {
                out.append("\n        ");
            }
            out.append(piece.as_str());
        }
        i = i + 1;
        proof {
            assert(out@ =~= params_fmt_join(ps.take(i as int), is_static));
        }
    }
    proof {
        assert(ps.take(n as int) =~= ps);
    }
    out
}

/// Render a parameter list, set on its own lines when nonempty.
fn format_func_parameters_wrapped(params: &Vec<Parameter>, is_static: bool) -> (out: String)
    requires
        forall|i: int|
            0 <= i < params.deep_view().len() ==> render_param_ok(#[trigger] params.deep_view()[i]),
    ensures
        out@ == params_wrapped(params.deep_view(), is_static),
{
    let p = format_func_parameters(params, is_static);
    let n = p.as_str().unicode_len();
    if n > 0 && p.as_str().get_char(n - 1) != '\n' {
        let mut out = String::from_str("\n        ");
        out.append(p.as_str());
        out.append("\n    ");
        out
    } else {
        p
    }
}

/// Render a return type.
pub fn formatted_return_ty(return_ty: &Option<JniType>) -> (out: String)
    requires
        match *return_ty {
            Option::Some(ty) => kotlin_ok(ty@),
            Option::None => true,
        },
    ensures
        out@ == return_ty_fmt_of(
            match *return_ty {
                Option::Some(ty) => Option::Some(ty@),
                Option::None => Option::None,
            },
        ),
{
    match return_ty {
        Option::None => String::new(),
        Option::Some(ty) => {
            let mut out = String::from_str(": ");
            let k = jni_to_kotlin_type(ty, false);
            out.append(k.as_str());
            out
        },
    }
}

/// The rendered external declaration of one function.
pub open spec fn format_function_of(f: FunctionV) -> Seq<char> {
    "    external fun "@ + camel_of(f.name) + "("@ + params_wrapped(f.parameters, true) + ")"@
        + return_ty_fmt_of(f.return_type)
}

/// Render the external declaration of one function.
pub fn format_function(func: &Function) -> (out: String)
    requires
        render_fn_ok(func@),
    ensures
        out@ == format_function_of(func@),
{
    let mut out = String::from_str("    external fun ");
    let camel = string_to_camel_case(func.name.as_str());
    out.append(camel.as_str());
    out.append("(");
    proof {
        assert(func.parameters.deep_view() == func@.parameters);
    }
    let params = format_func_parameters_wrapped(&func.parameters, true);
    out.append(params.as_str());
    out.append(")");
    let ret = formatted_return_ty(&func.return_type);
    out.append(ret.as_str());
    proof {
        assert(out@ =~= format_function_of(func@));
    }
    out
}

/// The comma-separated arguments a forwarder passes on: each declared
/// name, with the receiver as the stored handle.
pub open spec fn args_of_params(ps: Seq<ParameterV>) -> Seq<char>
    decreases ps.len(),
{
    if ps.len() == 0 {
        Seq::empty()
    } else if ps.len() == 1 {
        arg_of_param(ps[0])
    } else {
        args_of_params(ps.drop_last()) + ", "@ + arg_of_param(ps.last())
    }
}

pub open spec fn arg_of_param(p: ParameterV) -> Seq<char> {
    match p {
        ParameterV::Typed { name, .. } => name,
        ParameterV::Receiver { .. } => "this.pointer"@,
    }
}

/// The rendered forwarder of one function, delegating to the external
/// declaration in the companion of its owner.
pub open spec fn format_function_mapping_of(f: FunctionV, is_static: bool) -> Seq<char> {
    "\n    fun "@ + camel_of(f.name) + "("@ + params_wrapped(f.parameters, is_static) + ")"@
        + return_ty_fmt_of(f.return_type) + " =\n        "@ + f.owner_name + "Obj."@ + camel_of(
        f.name,
    ) + "("@ + args_of_params(f.parameters) + ")\n    "@
}

/// Render the forwarder of one function.
pub fn format_function_mapping(func: &Function, is_static: bool) -> (out: String)
    requires
        render_fn_ok(func@),
    ensures
        out@ == format_function_mapping_of(func@, is_static),
{
    let mut out = String::from_str("\n    fun ");
    let camel = string_to_camel_case(func.name.as_str());
    out.append(camel.as_str());
    out.append("(");
    proof {
        assert(func.parameters.deep_view() == func@.parameters);
    }
    let params = format_func_parameters_wrapped(&func.parameters, is_static);
    out.append(params.as_str());
    out.append(")");
    let ret = formatted_return_ty(&func.return_type);
    out.append(ret.as_str());
    out.append(" =\n        ");
    out.append(func.owner_name.as_str());
    out.append("Obj.");
    out.append(camel.as_str());
    out.append("(");

    let n = func.parameters.len();
    let ghost ps = func.parameters.deep_view();
    let ghost args_base = out@;
    let mut i: usize = 0;
    proof {
        assert(ps.take(0) =~= Seq::<ParameterV>::empty());
        assert(args_base + Seq::<char>::empty() =~= args_base);
    }
    while i < n
        invariant
            n == func.parameters@.len(),
            ps == func.parameters.deep_view(),
            ps.len() == n,
            i <= n,
            out@ == args_base + args_of_params(ps.take(i as int)),
        decreases n - i,
    {
        proof {
            assert(ps[i as int] == func.parameters@[i as int]@);
            assert(ps.take(i as int + 1).drop_last() =~= ps.take(i as int));
            assert(ps.take(i as int + 1).last() == ps[i as int]);
            assert(ps.take(i as int + 1).len() == i + 1);
            if i == 0 {
                assert(ps.take(1)[0] == ps[0]);
            }
        }
        if i > 0 {
            out.append(", ");
        }
        match &func.parameters[i] {
            Parameter::Typed { name, .. } => {
                out.append(name.as_str());
            },
            Parameter::Receiver { .. } => {
                out.append("this.pointer");
            },
        }
        i = i + 1;
        proof {
            assert(out@ =~= args_base + args_of_params(ps.take(i as int)));
        }
    }
    proof {
        assert(ps.take(n as int) =~= ps);
    }
    out.append(")\n    ");
    proof {
        assert(out@ =~= format_function_mapping_of(func@, is_static));
    }
    out
}

/// The rendered method stub of one interface function; the receiver is
/// implicit in the host language and leaves the signature.
pub open spec fn format_interface_function_of(f: FunctionV) -> Seq<char> {
    "fun "@ + camel_of(f.name) + "("@ + params_wrapped(f.parameters, false) + ")"@
        + return_ty_fmt_of(f.return_type)
}

/// Render the method stub of one interface function.
pub fn format_interface_function(func: &Function) -> (out: String)
    requires
        render_fn_ok(func@),
    ensures
        out@ == format_interface_function_of(func@),
{
    let mut out = String::from_str("fun ");
    let camel = string_to_camel_case(func.name.as_str());
    out.append(camel.as_str());
    out.append("(");
    proof {
        assert(func.parameters.deep_view() == func@.parameters);
    }
    let params = format_func_parameters_wrapped(&func.parameters, false);
    out.append(params.as_str());
    out.append(")");
    let ret = formatted_return_ty(&func.return_type);
    out.append(ret.as_str());
    proof {
        assert(out@ =~= format_interface_function_of(func@));
    }
    out
}

/// Whether a function has a receiver parameter.
pub open spec fn has_receiver(f: FunctionV) -> bool {
    !spec_is_static(f)
}

/// The external declarations of all functions, double-spaced.
pub open spec fn externals_join(fs: Seq<FunctionV>) -> Seq<char>
    decreases fs.len(),
{
    if fs.len() == 0 {
        Seq::empty()
    } else if fs.len() == 1 {
        format_function_of(fs[0])
    } else {
        externals_join(fs.drop_last()) + "\n\n"@ + format_function_of(fs.last())
    }
}

/// The instance forwarders: one per function with a receiver.
pub open spec fn members_cat(fs: Seq<FunctionV>) -> Seq<char>
    decreases fs.len(),
{
    if fs.len() == 0 {
        Seq::empty()
    } else {
        members_cat(fs.drop_last()) + (if has_receiver(fs.last()) {
            format_function_mapping_of(fs.last(), false)
        } else {
            Seq::<char>::empty()
        })
    }
}

/// The static forwarders: one per function without a receiver.
pub open spec fn statics_cat(fs: Seq<FunctionV>) -> Seq<char>
    decreases fs.len(),
{
    if fs.len() == 0 {
        Seq::empty()
    } else {
        statics_cat(fs.drop_last()) + (if has_receiver(fs.last()) {
            Seq::<char>::empty()
        } else {
            format_function_mapping_of(fs.last(), true)
        })
    }
}

/// The interface stubs: one per function with a receiver; functions
/// without a receiver are excluded from the rendered contract.
pub open spec fn interface_members_cat(fs: Seq<FunctionV>) -> Seq<char>
    decreases fs.len(),
{
    if fs.len() == 0 {
        Seq::empty()
    } else {
        interface_members_cat(fs.drop_last()) + (if has_receiver(fs.last()) {
            format_interface_function_of(fs.last())
        } else {
            Seq::<char>::empty()
        })
    }
}

/// Every function of the list can be rendered.
pub open spec fn render_fns_ok(fs: Seq<FunctionV>) -> bool {
    forall|i: int| 0 <= i < fs.len() ==> render_fn_ok(#[trigger] fs[i])
}

/// The rendered host class of a handle-backed entity: private handle,
/// registered disposer, instance forwarders, static forwarders in the
/// companion, and the private object of external declarations with the
/// disposer's external declaration.
pub open spec fn class_file_of(name: Seq<char>, package_name: Seq<char>, fs: Seq<FunctionV>)
    -> Seq<char> {
    "\n//package "@ + package_name + "\n\nclass "@ + name
        + " private constructor(private val pointer: Long) : AutoCloseable {\n    private val resource: NativeResource = thread.addObject(this, pointer) { "@
        + name + "Obj.destroy(it) }\n\n"@ + members_cat(fs)
        + "\n\n    override fun close() {\n        resource.close()\n        thread.remove(resource)\n    }\n\n    companion object {\n    "@
        + statics_cat(fs) + "\n    }\n}\n\nprivate object "@ + name + "Obj {\n    "@
        + externals_join(fs) + "\n\n    external fun destroy(pointer: Long)\n}\n"@
}

/// Render the host class file for a handle-backed entity.
pub fn class_file_content(rs_struct: &RsStruct, package_name: &str, functions: &Vec<Function>) -> (
    out: String)
    requires
        render_fns_ok(functions.deep_view()),
    ensures
        out@ == class_file_of(rs_struct@.name, package_name@, functions.deep_view()),
{
    let ghost fs = functions.deep_view();
    let n = functions.len();

    let mut out = String::from_str("\n//package ");
    out.append(package_name);
    out.append("\n\nclass ");
    out.append(rs_struct.name.as_str());
    out.append(
        " private constructor(private val pointer: Long) : AutoCloseable {\n    private val resource: NativeResource = thread.addObject(this, pointer) { ",
    );
    out.append(rs_struct.name.as_str());
    out.append("Obj.destroy(it) }\n\n");

    let ghost members_base = out@;
    let mut i: usize = 0;
    proof {
        assert(fs.take(0) =~= Seq::<FunctionV>::empty());
        assert(members_base + Seq::<char>::empty() =~= members_base);
    }
    while i < n
        invariant
            n == functions@.len(),
            fs == functions.deep_view(),
            fs.len() == n,
            i <= n,
            render_fns_ok(fs),
            out@ == members_base + members_cat(fs.take(i as int)),
        decreases n - i,
    {
        proof {
            assert(fs[i as int] == functions@[i as int]@);
            assert(render_fn_ok(fs[i as int]));
            assert(fs.take(i as int + 1).drop_last() =~= fs.take(i as int));
            assert(fs.take(i as int + 1).last() == fs[i as int]);
        }
        if !functions[i].is_static() {
            let t = format_function_mapping(&functions[i], false);
            out.append(t.as_str());
        }
        i = i + 1;
        proof {
            assert(out@ =~= members_base + members_cat(fs.take(i as int)));
        }
    }
    proof {
        assert(fs.take(n as int) =~= fs);
    }

    out.append(
        "\n\n    override fun close() {\n        resource.close()\n        thread.remove(resource)\n    }\n\n    companion object {\n    ",
    );

    let ghost statics_base = out@;
    let mut i: usize = 0;
    proof {
        assert(statics_base + Seq::<char>::empty() =~= statics_base);
    }
    while i < n
        invariant
            n == functions@.len(),
            fs == functions.deep_view(),
            fs.len() == n,
            i <= n,
            render_fns_ok(fs),
            out@ == statics_base + statics_cat(fs.take(i as int)),
        decreases n - i,
    {
        proof {
            assert(fs[i as int] == functions@[i as int]@);
            assert(render_fn_ok(fs[i as int]));
            assert(fs.take(i as int + 1).drop_last() =~= fs.take(i as int));
            assert(fs.take(i as int + 1).last() == fs[i as int]);
        }
        if functions[i].is_static() {
            let t = format_function_mapping(&functions[i], true);
            out.append(t.as_str());
        }
        i = i + 1;
        proof {
            assert(out@ =~= statics_base + statics_cat(fs.take(i as int)));
        }
    }
    proof {
        assert(fs.take(n as int) =~= fs);
    }

    out.append("\n    }\n}\n\nprivate object ");
    out.append(rs_struct.name.as_str());
    out.append("Obj {\n    ");

    let ghost ext_base = out@;
    let mut i: usize = 0;
    proof {
        assert(ext_base + Seq::<char>::empty() =~= ext_base);
    }
    while i < n
        invariant
            n == functions@.len(),
            fs == functions.deep_view(),
            fs.len() == n,
            i <= n,
            render_fns_ok(fs),
            out@ == ext_base + externals_join(fs.take(i as int)),
        decreases n - i,
    {
        proof {
            assert(fs[i as int] == functions@[i as int]@);
            assert(render_fn_ok(fs[i as int]));
            assert(fs.take(i as int + 1).drop_last() =~= fs.take(i as int));
            assert(fs.take(i as int + 1).last() == fs[i as int]);
            assert(fs.take(i as int + 1).len() == i + 1);
            if i == 0 {
                assert(fs.take(1)[0] == fs[0]);
            }
        }
        if i > 0 {
            out.append("\n\n");
        }
        let t = format_function(&functions[i]);
        out.append(t.as_str());
        i = i + 1;
        proof {
            assert(out@ =~= ext_base + externals_join(fs.take(i as int)));
        }
    }
    proof {
        assert(fs.take(n as int) =~= fs);
    }

    out.append("\n\n    external fun destroy(pointer: Long)\n}\n");
    proof {
        assert(out@ =~= class_file_of(rs_struct@.name, package_name@, fs));
    }
    out
}

/// The rendered field line of a data class.
pub open spec fn data_field_of(f: crate::ir::FieldV, idx: nat) -> Seq<char> {
    "val "@ + camel_of(crate::ir::spec_safe_name(f, idx)) + ": "@ + kotlin_of(f.ty, false) + ","@
}

/// The rendered field lines, one per line.
pub open spec fn data_fields_join(fs: Seq<crate::ir::FieldV>) -> Seq<char>
    decreases fs.len(),
{
    if fs.len() == 0 {
        Seq::empty()
    } else if fs.len() == 1 {
        data_field_of(fs[0], 0)
    } else {
        data_fields_join(fs.drop_last()) + "\n    "@ + data_field_of(
            fs.last(),
            (fs.len() - 1) as nat,
        )
    }
}

/// Every field of the list can be rendered.
pub open spec fn render_fields_ok(fs: Seq<crate::ir::FieldV>) -> bool {
    forall|i: int| 0 <= i < fs.len() ==> kotlin_ok((#[trigger] fs[i]).ty)
}

/// The rendered data class: a plain value type listing every field.
pub open spec fn data_class_file_of(st: RsStructV) -> Seq<char> {
    "\ndata class "@ + st.name + " (\n    "@ + data_fields_join(st.fields) + "\n)\n"@
}

/// Render the host data class file.
pub fn data_class_file_content(rs_struct: &RsStruct) -> (out: String)
    requires
        render_fields_ok(rs_struct@.fields),
    ensures
        out@ == data_class_file_of(rs_struct@),
{
    let ghost fs = rs_struct.fields.deep_view();
    let n = rs_struct.fields.len();
    let mut out = String::from_str("\ndata class ");
    out.append(rs_struct.name.as_str());
    out.append(" (\n    ");

    let ghost base = out@;
    let mut i: usize = 0;
    proof {
        assert(fs.take(0) =~= Seq::<crate::ir::FieldV>::empty());
        assert(base + Seq::<char>::empty() =~= base);
        assert(rs_struct@.fields == fs);
    }
    while i < n
        invariant
            n == rs_struct.fields@.len(),
            fs == rs_struct.fields.deep_view(),
            fs.len() == n,
            i <= n,
            render_fields_ok(fs),
            out@ == base + data_fields_join(fs.take(i as int)),
        decreases n - i,
    {
        proof {
            assert(fs[i as int] == rs_struct.fields@[i as int]@);
            assert(kotlin_ok(fs[i as int].ty));
            assert(fs.take(i as int + 1).drop_last() =~= fs.take(i as int));
            assert(fs.take(i as int + 1).last() == fs[i as int]);
            assert(fs.take(i as int + 1).len() == i + 1);
            if i == 0 {
                assert(fs.take(1)[0] == fs[0]);
            }
        }
        if i > 0 {
            out.append("\n    ");
        }
        let field = &rs_struct.fields[i];
        let name = field.safe_name(&i);
        let camel = string_to_camel_case(name.as_str());
        out.append("val ");
        out.append(camel.as_str());
        out.append(": ");
        let k = jni_to_kotlin_type(&field.ty, false);
        out.append(k.as_str());
        out.append(",");
        i = i + 1;
        proof {
            assert(out@ =~= base + data_fields_join(fs.take(i as int)));
        }
    }
    proof {
        assert(fs.take(n as int) =~= fs);
    }
    out.append("\n)\n");
    proof {
        assert(out@ =~= data_class_file_of(rs_struct@));
    }
    out
}

/// The rendered interface: a contract type with one stub per function
/// that takes a receiver.
pub open spec fn interface_file_of(it: RsInterfaceV, package_name: Seq<char>) -> Seq<char> {
    "\n//package "@ + package_name + "\n\ninterface "@ + it.name + " {\n\n"@
        + interface_members_cat(it.functions) + "\n}\n"@
}

/// Render the host interface file.
pub fn interface_file_content(interface: &RsInterface, package_name: &str) -> (out: String)
    requires
        render_fns_ok(interface@.functions),
    ensures
        out@ == interface_file_of(interface@, package_name@),
{
    let ghost fs = interface.functions.deep_view();
    let n = interface.functions.len();
    let mut out = String::from_str("\n//package ");
    out.append(package_name);
    out.append("\n\ninterface ");
    out.append(interface.name.as_str());
    out.append(" {\n\n");

    let ghost base = out@;
    let mut i: usize = 0;
    proof {
        assert(fs.take(0) =~= Seq::<FunctionV>::empty());
        assert(base + Seq::<char>::empty() =~= base);
        assert(interface@.functions == fs);
    }
    while i < n
        invariant
            n == interface.functions@.len(),
            fs == interface.functions.deep_view(),
            fs.len() == n,
            i <= n,
            render_fns_ok(fs),
            out@ == base + interface_members_cat(fs.take(i as int)),
        decreases n - i,
    {
        proof {
            assert(fs[i as int] == interface.functions@[i as int]@);
            assert(render_fn_ok(fs[i as int]));
            assert(fs.take(i as int + 1).drop_last() =~= fs.take(i as int));
            assert(fs.take(i as int + 1).last() == fs[i as int]);
        }
        if !interface.functions[i].is_static() {
            let t = format_interface_function(&interface.functions[i]);
            out.append(t.as_str());
        }
        i = i + 1;
        proof {
            assert(out@ =~= base + interface_members_cat(fs.take(i as int)));
        }
    }
    proof {
        assert(fs.take(n as int) =~= fs);
    }
    out.append("\n}\n");
    proof {
        assert(out@ =~= interface_file_of(interface@, package_name@));
    }
    out
}

} // verus!
