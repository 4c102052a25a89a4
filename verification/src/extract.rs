//! The declaration extractors: plain models of native struct, trait
//! and impl declarations, and the conversion of their parts into the
//! intermediate representation.  A declaration model carries what the
//! extraction reads from a declaration: names, visibility, and type
//! text.

use vstd::prelude::*;

use crate::ir::{Field, FieldV, Function, JniType, Parameter, ParameterV, RsStruct, RsStructV};
use crate::strutil::{
    contains_mut, has_char, has_mut, remove_char, remove_char_exec, remove_mut, remove_mut_exec,
    str_contains_char, trim_spaces, trim_spaces_exec,
};
use crate::type_mapper::{parse_jni_type, parse_ty};

verus! {

/// A parameter as it stands in a native method declaration: the
/// receiver with its reference and mutability marks, or a named
/// argument with its type text.
#[derive(Debug, PartialEq, Eq)]
pub enum ParamDecl {
    Receiver { is_reference: bool, is_mutable: bool },
    Typed { pat: String, ty_text: String },
}

/// The model of a `ParamDecl`.
pub ghost enum ParamDeclV {
    Receiver { is_reference: bool, is_mutable: bool },
    Typed { pat: Seq<char>, ty_text: Seq<char> },
}

impl View for ParamDecl {
    type V = ParamDeclV;

    open spec fn view(&self) -> ParamDeclV {
        match self {
            ParamDecl::Receiver { is_reference, is_mutable } => ParamDeclV::Receiver {
                is_reference: *is_reference,
                is_mutable: *is_mutable,
            },
            ParamDecl::Typed { pat, ty_text } => ParamDeclV::Typed {
                pat: pat@,
                ty_text: ty_text@,
            },
        }
    }
}

impl DeepView for ParamDecl {
    type V = ParamDeclV;

    open spec fn deep_view(&self) -> ParamDeclV {
        self.view()
    }
}

/// A method as it stands in a trait or impl declaration.
#[derive(Debug, PartialEq, Eq)]
pub struct MethodDecl {
    pub name: String,
    pub params: Vec<ParamDecl>,
    pub return_ty: Option<String>,
}

/// The model of a `MethodDecl`.
pub ghost struct MethodDeclV {
    pub name: Seq<char>,
    pub params: Seq<ParamDeclV>,
    pub return_ty: Option<Seq<char>>,
}

impl View for MethodDecl {
    type V = MethodDeclV;

    open spec fn view(&self) -> MethodDeclV {
        MethodDeclV {
            name: self.name@,
            params: self.params.deep_view(),
            return_ty: match self.return_ty {
                Option::Some(t) => Option::Some(t@),
                Option::None => Option::None,
            },
        }
    }
}

impl DeepView for MethodDecl {
    type V = MethodDeclV;

    open spec fn deep_view(&self) -> MethodDeclV {
        self.view()
    }
}

/// A field as it stands in a struct declaration.
#[derive(Debug, PartialEq, Eq)]
pub struct StructFieldDecl {
    pub is_public: bool,
    pub name: Option<String>,
    pub ty_text: String,
}

/// The model of a `StructFieldDecl`.
pub ghost struct StructFieldDeclV {
    pub is_public: bool,
    pub name: Option<Seq<char>>,
    pub ty_text: Seq<char>,
}

impl View for StructFieldDecl {
    type V = StructFieldDeclV;

    open spec fn view(&self) -> StructFieldDeclV {
        StructFieldDeclV {
            is_public: self.is_public,
            name: match self.name {
                Option::Some(n) => Option::Some(n@),
                Option::None => Option::None,
            },
            ty_text: self.ty_text@,
        }
    }
}

impl DeepView for StructFieldDecl {
    type V = StructFieldDeclV;

    open spec fn deep_view(&self) -> StructFieldDeclV {
        self.view()
    }
}

/// A struct declaration.
#[derive(Debug, PartialEq, Eq)]
pub struct StructDecl {
    pub name: String,
    pub fields: Vec<StructFieldDecl>,
}

/// The model of a `StructDecl`.
pub ghost struct StructDeclV {
    pub name: Seq<char>,
    pub fields: Seq<StructFieldDeclV>,
}

impl View for StructDecl {
    type V = StructDeclV;

    open spec fn view(&self) -> StructDeclV {
        StructDeclV { name: self.name@, fields: self.fields.deep_view() }
    }
}

/// A trait declaration.
#[derive(Debug, PartialEq, Eq)]
pub struct TraitDecl {
    pub name: String,
    pub methods: Vec<MethodDecl>,
}

/// The model of a `TraitDecl`.
pub ghost struct TraitDeclV {
    pub name: Seq<char>,
    pub methods: Seq<MethodDeclV>,
}

impl View for TraitDecl {
    type V = TraitDeclV;

    open spec fn view(&self) -> TraitDeclV {
        TraitDeclV { name: self.name@, methods: self.methods.deep_view() }
    }
}

/// An impl-block declaration.
#[derive(Debug, PartialEq, Eq)]
pub struct ImplDecl {
    pub self_ty: String,
    pub methods: Vec<MethodDecl>,
}

/// The model of an `ImplDecl`.
pub ghost struct ImplDeclV {
    pub self_ty: Seq<char>,
    pub methods: Seq<MethodDeclV>,
}

impl View for ImplDecl {
    type V = ImplDeclV;

    open spec fn view(&self) -> ImplDeclV {
        ImplDeclV { self_ty: self.self_ty@, methods: self.methods.deep_view() }
    }
}

/// A declaration the extraction rejects, failing the generation pass.
#[derive(Debug, PartialEq, Eq)]
pub enum ExtractError {
    /// A method takes its receiver by value: the boundary side could
    /// then free the native object while it is still referenced.
    ValueReceiver,
}

/// The type text of an argument with reference and mutability marks
/// and surrounding spaces removed.
pub open spec fn clean_ty_text(t: Seq<char>) -> Seq<char> {
    trim_spaces(remove_mut(remove_char(t, '&')))
}

/// The parameter extracted from one declaration part.
pub open spec fn param_of_decl(d: ParamDeclV) -> ParameterV {
    match d {
        ParamDeclV::Receiver { is_mutable, .. } => ParameterV::Receiver { is_mutable },
        ParamDeclV::Typed { pat, ty_text } => ParameterV::Typed {
            name: pat,
            ty: parse_ty(clean_ty_text(ty_text)),
            is_borrow: has_char(ty_text, '&'),
            is_mutable: has_mut(ty_text),
        },
    }
}

/// A declared receiver taken by reference, as the extraction requires.
pub open spec fn decl_receiver_ok(d: ParamDeclV) -> bool {
    match d {
        ParamDeclV::Receiver { is_reference, .. } => is_reference,
        ParamDeclV::Typed { .. } => true,
    }
}

/// The receiver-position invariant: no receiver stands anywhere but
/// first, so a list holds at most one, at index zero.
pub open spec fn receiver_position_ok(ps: Seq<ParameterV>) -> bool {
    forall|i: int| 0 < i < ps.len() ==> !(#[trigger] ps[i] is Receiver)
}

/// The same shape on declarations.
pub open spec fn decl_receiver_position_ok(ds: Seq<ParamDeclV>) -> bool {
    forall|i: int| 0 < i < ds.len() ==> !(#[trigger] ds[i] is Receiver)
}

/// Extract the parameter list of a native method.  A receiver taken by
/// value is rejected: freeing the native object from the boundary side
/// while it is still referenced elsewhere must stay impossible.  The
/// extraction maps declarations one for one, so a list whose receiver
/// stands only first yields a list whose receiver stands only first.
pub fn get_parameters_from_method(inputs: &Vec<ParamDecl>) -> (r: Result<
    Vec<Parameter>,
    ExtractError,
>)
    ensures
        r is Ok <==> (forall|i: int|
            0 <= i < inputs.deep_view().len() ==> decl_receiver_ok(
                #[trigger] inputs.deep_view()[i],
            )),
        r matches Ok(ps) ==> ps.deep_view().len() == inputs.deep_view().len() && (forall|i: int|
            0 <= i < ps.deep_view().len() ==> #[trigger] ps.deep_view()[i] == param_of_decl(
                inputs.deep_view()[i],
            )),
        decl_receiver_position_ok(inputs.deep_view()) ==> (r matches Ok(ps)
            ==> receiver_position_ok(ps.deep_view())),
{
    let mut out: Vec<Parameter> = Vec::new();
    let mut i: usize = 0;
    while i < inputs.len()
        invariant
            i <= inputs@.len(),
            inputs.deep_view().len() == inputs@.len(),
            out.deep_view().len() == i,
            forall|j: int|
                0 <= j < i ==> decl_receiver_ok(#[trigger] inputs.deep_view()[j]),
            forall|j: int|
                0 <= j < i ==> #[trigger] out.deep_view()[j] == param_of_decl(
                    inputs.deep_view()[j],
                ),
        decreases inputs@.len() - i,
    {
        proof {
            assert(inputs.deep_view()[i as int] == inputs@[i as int]@);
        }
        let ghost old_dv = out.deep_view();
        match &inputs[i] {
            ParamDecl::Receiver { is_reference, is_mutable } => {
                if !*is_reference {
                    proof {
                        assert(!decl_receiver_ok(inputs.deep_view()[i as int]));
                    }
                    return Result::Err(ExtractError::ValueReceiver);
                }
                out.push(Parameter::Receiver { is_mutable: *is_mutable });
            },
            ParamDecl::Typed { pat, ty_text } => {
                let no_amp = remove_char_exec(ty_text.as_str(), '&');
                let no_mut = remove_mut_exec(no_amp.as_str());
                let cleaned = trim_spaces_exec(no_mut.as_str());
                let ty = parse_jni_type(cleaned.as_str());
                let is_borrow = str_contains_char(ty_text.as_str(), '&');
                let is_mutable = contains_mut(ty_text.as_str());
                out.push(
                    Parameter::Typed { name: pat.clone(), ty, is_borrow, is_mutable },
                );
            },
        }
        i = i + 1;
        proof {
            assert(out.deep_view() =~= old_dv.push(out@[i - 1]@));
        }
    }
    Result::Ok(out)
}

/// Extract the return type of a native method: absent, or the wire
/// type its text denotes.
pub fn get_return_type_from_method(return_type: &Option<String>) -> (r: Option<JniType>)
    ensures
        match *return_type {
            Option::None => r is None,
            Option::Some(t) => r matches Some(ty) && ty@ == parse_ty(t@),
        },
{
    match return_type {
        Option::None => Option::None,
        Option::Some(t) => Option::Some(parse_jni_type(t.as_str())),
    }
}

/// The field extracted from one struct field declaration.
pub open spec fn field_of_decl(is_public: bool, name: Option<Seq<char>>, ty_text: Seq<char>)
    -> FieldV {
    FieldV { is_public, name, ty: parse_ty(ty_text) }
}

/// The struct node extracted from a struct declaration.
pub open spec fn rs_of_decl(d: StructDeclV) -> RsStructV {
    RsStructV {
        name: d.name,
        fields: Seq::new(
            d.fields.len(),
            |i: int| field_of_decl(d.fields[i].is_public, d.fields[i].name, d.fields[i].ty_text),
        ),
    }
}

/// Extract a struct node from a struct declaration: each field keeps
/// its visibility and optional name, and its declared type text runs
/// through the type mapper unchanged.
pub fn rs_struct_from_decl(decl: &StructDecl) -> (out: RsStruct)
    ensures
        out@ == rs_of_decl(decl@),
        out@.name == decl.name@,
        out@.fields.len() == decl.fields@.len(),
        forall|i: int|
            0 <= i < out@.fields.len() ==> #[trigger] out@.fields[i] == field_of_decl(
                decl.fields@[i].is_public,
                match decl.fields@[i].name {
                    Option::Some(n) => Option::Some(n@),
                    Option::None => Option::None,
                },
                decl.fields@[i].ty_text@,
            ),
{
    let mut fields: Vec<Field> = Vec::new();
    let mut i: usize = 0;
    while i < decl.fields.len()
        invariant
            i <= decl.fields@.len(),
            fields.deep_view().len() == i,
            forall|j: int|
                0 <= j < i ==> #[trigger] fields.deep_view()[j] == field_of_decl(
                    decl.fields@[j].is_public,
                    match decl.fields@[j].name {
                        Option::Some(n) => Option::Some(n@),
                        Option::None => Option::None,
                    },
                    decl.fields@[j].ty_text@,
                ),
        decreases decl.fields@.len() - i,
    {
        let ghost old_dv = fields.deep_view();
        let fd = &decl.fields[i];
        let ty = parse_jni_type(fd.ty_text.as_str());
        let name = match &fd.name {
            Option::Some(n) => Option::Some(n.clone()),
            Option::None => Option::None,
        };
        fields.push(Field { is_public: fd.is_public, name, ty });
        i = i + 1;
        proof {
            assert(fields.deep_view() =~= old_dv.push(fields@[i - 1]@));
        }
    }
    let out = RsStruct { name: decl.name.clone(), fields };
    proof {
        assert(forall|j: int|
            0 <= j < decl.fields@.len() ==> #[trigger] decl@.fields[j] == decl.fields@[j]@);
        assert(out@.fields =~= rs_of_decl(decl@).fields);
        assert(out@ == rs_of_decl(decl@));
    }
    out
}

} // verus!
