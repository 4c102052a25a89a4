//! The intermediate representation: wire types, parameters, fields,
//! functions, structs and interfaces, together with their mathematical
//! models.  Every other component speaks about these types through the
//! views defined here.

use vstd::prelude::*;

verus! {

/// The closed set of types representable at the JNI boundary.
#[derive(Debug, PartialEq, Eq)]
pub enum JniType {
    Int32,
    Int64,
    UInt64,
    Float32,
    Float64,
    Bool,
    Utf8String,
    ByteBuffer,
    Void,
    /// A native object living behind an opaque 64-bit handle; the
    /// payload names the owning type.
    ObjectHandle(String),
    /// A data-class entity that must itself be convertible across the
    /// boundary.
    NamedType(String),
    /// A callback bridge entity.
    CallbackType(String),
    /// A nullable value of the inner type.
    Optional(Box<JniType>),
}

/// The model of a `JniType`.
pub ghost enum JniTypeV {
    Int32,
    Int64,
    UInt64,
    Float32,
    Float64,
    Bool,
    Utf8String,
    ByteBuffer,
    Void,
    ObjectHandle(Seq<char>),
    NamedType(Seq<char>),
    CallbackType(Seq<char>),
    Optional(Box<JniTypeV>),
}

/// The model of a `JniType` value.
pub open spec fn ty_view(t: JniType) -> JniTypeV
    decreases t,
{
    match t {
        JniType::Int32 => JniTypeV::Int32,
        JniType::Int64 => JniTypeV::Int64,
        JniType::UInt64 => JniTypeV::UInt64,
        JniType::Float32 => JniTypeV::Float32,
        JniType::Float64 => JniTypeV::Float64,
        JniType::Bool => JniTypeV::Bool,
        JniType::Utf8String => JniTypeV::Utf8String,
        JniType::ByteBuffer => JniTypeV::ByteBuffer,
        JniType::Void => JniTypeV::Void,
        JniType::ObjectHandle(name) => JniTypeV::ObjectHandle(name@),
        JniType::NamedType(name) => JniTypeV::NamedType(name@),
        JniType::CallbackType(name) => JniTypeV::CallbackType(name@),
        JniType::Optional(inner) => JniTypeV::Optional(Box::new(ty_view(*inner))),
    }
}

impl View for JniType {
    type V = JniTypeV;

    open spec fn view(&self) -> JniTypeV {
        ty_view(*self)
    }
}

impl DeepView for JniType {
    type V = JniTypeV;

    open spec fn deep_view(&self) -> JniTypeV {
        ty_view(*self)
    }
}

/// A function parameter: either a typed argument or the method
/// receiver.
#[derive(Debug, PartialEq, Eq)]
pub enum Parameter {
    Typed { name: String, ty: JniType, is_borrow: bool, is_mutable: bool },
    Receiver { is_mutable: bool },
}

/// The model of a `Parameter`.
pub ghost enum ParameterV {
    Typed { name: Seq<char>, ty: JniTypeV, is_borrow: bool, is_mutable: bool },
    Receiver { is_mutable: bool },
}

impl View for Parameter {
    type V = ParameterV;

    open spec fn view(&self) -> ParameterV {
        match self {
            Parameter::Typed { name, ty, is_borrow, is_mutable } => ParameterV::Typed {
                name: name@,
                ty: ty@,
                is_borrow: *is_borrow,
                is_mutable: *is_mutable,
            },
            Parameter::Receiver { is_mutable } => ParameterV::Receiver { is_mutable: *is_mutable },
        }
    }
}

impl DeepView for Parameter {
    type V = ParameterV;

    open spec fn deep_view(&self) -> ParameterV {
        self.view()
    }
}

/// A function or method of a native type, as extracted from its
/// declaration.
#[derive(Debug, PartialEq, Eq)]
pub struct Function {
    pub owner_name: String,
    pub name: String,
    pub parameters: Vec<Parameter>,
    pub return_type: Option<JniType>,
}

/// The model of a `Function`.
pub ghost struct FunctionV {
    pub owner_name: Seq<char>,
    pub name: Seq<char>,
    pub parameters: Seq<ParameterV>,
    pub return_type: Option<JniTypeV>,
}

impl View for Function {
    type V = FunctionV;

    open spec fn view(&self) -> FunctionV {
        FunctionV {
            owner_name: self.owner_name@,
            name: self.name@,
            parameters: self.parameters.deep_view(),
            return_type: match self.return_type {
                Some(t) => Some(t@),
                None => None,
            },
        }
    }
}

impl DeepView for Function {
    type V = FunctionV;

    open spec fn deep_view(&self) -> FunctionV {
        self.view()
    }
}

/// A struct field: declared visibility, optional declared name, and
/// wire type.
#[derive(Debug, PartialEq, Eq)]
pub struct Field {
    pub is_public: bool,
    pub name: Option<String>,
    pub ty: JniType,
}

/// The model of a `Field`.
pub ghost struct FieldV {
    pub is_public: bool,
    pub name: Option<Seq<char>>,
    pub ty: JniTypeV,
}

impl View for Field {
    type V = FieldV;

    open spec fn view(&self) -> FieldV {
        FieldV {
            is_public: self.is_public,
            name: match self.name {
                Some(n) => Some(n@),
                None => None,
            },
            ty: self.ty@,
        }
    }
}

impl DeepView for Field {
    type V = FieldV;

    open spec fn deep_view(&self) -> FieldV {
        self.view()
    }
}

/// A native struct declaration: handle-backed class or transparent
/// data class.
#[derive(Debug, PartialEq, Eq)]
pub struct RsStruct {
    pub name: String,
    pub fields: Vec<Field>,
}

/// The model of an `RsStruct`.
pub ghost struct RsStructV {
    pub name: Seq<char>,
    pub fields: Seq<FieldV>,
}

impl View for RsStruct {
    type V = RsStructV;

    open spec fn view(&self) -> RsStructV {
        RsStructV { name: self.name@, fields: self.fields.deep_view() }
    }
}

impl DeepView for RsStruct {
    type V = RsStructV;

    open spec fn deep_view(&self) -> RsStructV {
        self.view()
    }
}

/// A callback contract: a named set of functions the host side
/// implements.
#[derive(Debug, PartialEq, Eq)]
pub struct RsInterface {
    pub name: String,
    pub functions: Vec<Function>,
}

/// The model of an `RsInterface`.
pub ghost struct RsInterfaceV {
    pub name: Seq<char>,
    pub functions: Seq<FunctionV>,
}

impl View for RsInterface {
    type V = RsInterfaceV;

    open spec fn view(&self) -> RsInterfaceV {
        RsInterfaceV { name: self.name@, functions: self.functions.deep_view() }
    }
}

impl DeepView for RsInterface {
    type V = RsInterfaceV;

    open spec fn deep_view(&self) -> RsInterfaceV {
        self.view()
    }
}

/// The functions of a trait declaration.
#[derive(Debug, PartialEq, Eq)]
pub struct RsTrait {
    pub functions: Vec<Function>,
}

/// The functions of an impl block.
#[derive(Debug, PartialEq, Eq)]
pub struct RsStructImpl {
    pub functions: Vec<Function>,
}

/// Whether a parameter is the method receiver.
pub open spec fn is_receiver(p: ParameterV) -> bool {
    p is Receiver
}

/// A function with no receiver parameter is static.
pub open spec fn spec_is_static(f: FunctionV) -> bool {
    forall|i: int| 0 <= i < f.parameters.len() ==> !is_receiver(#[trigger] f.parameters[i])
}

impl Function {
    /// A function is static exactly when no parameter is the method
    /// receiver.
    pub fn is_static(&self) -> (r: bool)
        ensures
            r == spec_is_static(self@),
    {
        let mut i: usize = 0;
        while i < self.parameters.len()
            invariant
                i <= self.parameters@.len(),
                self@.parameters.len() == self.parameters@.len(),
                forall|j: int| 0 <= j < i ==> !is_receiver(#[trigger] self@.parameters[j]),
            decreases self.parameters@.len() - i,
        {
            let is_rec = match &self.parameters[i] {
                Parameter::Receiver { .. } => true,
                _ => false,
            };
            proof {
                assert(self@.parameters[i as int] == self.parameters@[i as int]@);
            }
            if is_rec {
                return false;
            }
            i = i + 1;
        }
        true
    }
}

impl RsStruct {
    /// Whether some declared field is not public.  An empty field list
    /// is permitted and has no such field.
    pub fn all_fields_are_public(&self) -> (r: bool)
        ensures
            r == exists|i: int|
                0 <= i < self@.fields.len() && !(#[trigger] self@.fields[i]).is_public,
    {
        let mut i: usize = 0;
        while i < self.fields.len()
            invariant
                i <= self.fields@.len(),
                self@.fields.len() == self.fields@.len(),
                forall|j: int| 0 <= j < i ==> (#[trigger] self@.fields[j]).is_public,
            decreases self.fields@.len() - i,
        {
            proof {
                assert(self@.fields[i as int] == self.fields@[i as int]@);
            }
            if !self.fields[i].is_public {
                return true;
            }
            i = i + 1;
        }
        false
    }
}

/// The positional synthetic name `param<index>` used for anonymous
/// fields.
pub open spec fn spec_positional_name(index: nat) -> Seq<char> {
    "param"@ + crate::strutil::dec_of(index)
}

/// The name a field carries in generated code: the declared name, or a
/// positional synthetic name.
pub open spec fn spec_safe_name(f: FieldV, index: nat) -> Seq<char> {
    match f.name {
        Some(n) => n,
        None => spec_positional_name(index),
    }
}

impl Field {
    /// The name used for this field in generated code.
    pub fn safe_name(&self, index: &usize) -> (out: String)
        ensures
            out@ == spec_safe_name(self@, *index as nat),
    {
        match &self.name {
            Some(name) => name.clone(),
            None => {
                let mut out = String::from_str("param");
                let digits = crate::strutil::u64_to_dec(*index as u64);
                out.append(digits.as_str());
                out
            },
        }
    }
}

impl JniType {
    /// A structurally equal copy.
    pub fn duplicate(&self) -> (r: JniType)
        ensures
            r@ == self@,
        decreases *self,
    {
        match self {
            JniType::Int32 => JniType::Int32,
            JniType::Int64 => JniType::Int64,
            JniType::UInt64 => JniType::UInt64,
            JniType::Float32 => JniType::Float32,
            JniType::Float64 => JniType::Float64,
            JniType::Bool => JniType::Bool,
            JniType::Utf8String => JniType::Utf8String,
            JniType::ByteBuffer => JniType::ByteBuffer,
            JniType::Void => JniType::Void,
            JniType::ObjectHandle(name) => JniType::ObjectHandle(name.clone()),
            JniType::NamedType(name) => JniType::NamedType(name.clone()),
            JniType::CallbackType(name) => JniType::CallbackType(name.clone()),
            JniType::Optional(inner) => JniType::Optional(Box::new((&**inner).duplicate())),
        }
    }
}

impl Parameter {
    /// A structurally equal copy.
    pub fn duplicate(&self) -> (r: Parameter)
        ensures
            r@ == self@,
    {
        match self {
            Parameter::Typed { name, ty, is_borrow, is_mutable } => Parameter::Typed {
                name: name.clone(),
                ty: ty.duplicate(),
                is_borrow: *is_borrow,
                is_mutable: *is_mutable,
            },
            Parameter::Receiver { is_mutable } => Parameter::Receiver { is_mutable: *is_mutable },
        }
    }
}

impl Function {
    /// A structurally equal copy.
    pub fn duplicate(&self) -> (r: Function)
        ensures
            r@ == self@,
    {
        let mut parameters: Vec<Parameter> = Vec::new();
        let mut i: usize = 0;
        while i < self.parameters.len()
            invariant
                i <= self.parameters@.len(),
                parameters.deep_view().len() == i,
                forall|j: int|
                    0 <= j < i ==> #[trigger] parameters.deep_view()[j]
                        == self.parameters.deep_view()[j],
        decreases self.parameters@.len() - i,
        {
            let ghost old_dv = parameters.deep_view();
            let p = self.parameters[i].duplicate();
            parameters.push(p);
            i = i + 1;
            proof {
                assert(parameters.deep_view() =~= old_dv.push(parameters@[i - 1]@));
                assert(self.parameters.deep_view()[i - 1] == self.parameters@[i - 1]@);
            }
        }
        let return_type = match &self.return_type {
            Option::Some(t) => Option::Some(t.duplicate()),
            Option::None => Option::None,
        };
        let r = Function {
            owner_name: self.owner_name.clone(),
            name: self.name.clone(),
            parameters,
            return_type,
        };
        proof {
            assert(r@.parameters =~= self@.parameters);
            assert(r@ == self@);
        }
        r
    }
}

} // verus!
