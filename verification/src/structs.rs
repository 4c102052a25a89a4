//! Generation for struct declarations: the lifecycle shims of a
//! handle-backed class (conversion to a boundary object around a heap
//! handle, and the disposer), and the full-field conversion of a
//! transparent data class.

use vstd::prelude::*;

use crate::codec::{enc_struct, encode_struct};
use crate::descriptor::{descriptor_of, jni_type_to_jni_method_signature_type};
use crate::emit::{full_header_comment, header_comment_of};
use crate::ir::{spec_safe_name, Field, FieldV, RsStruct, RsStructV};
use crate::marshal::{
    array_arg_of, array_ok, generate_field_mapping_into_array, property_of, property_ok,
    rust_property_to_jni_type,
};
use crate::strutil::dec_of;

verus! {

/// The constructor descriptor fragment of a field list: the
/// descriptors of the field types in order.
pub open spec fn fields_desc_cat(fs: Seq<FieldV>) -> Seq<char>
    decreases fs.len(),
{
    if fs.len() == 0 {
        Seq::empty()
    } else {
        fields_desc_cat(fs.drop_last()) + descriptor_of(fs.last().ty)
    }
}

/// The expression reading a field out of `self`: by declared name, or
/// by position for an anonymous field.
pub open spec fn self_param_of(f: FieldV, idx: nat) -> Seq<char> {
    match f.name {
        Option::Some(n) => "self."@ + n,
        Option::None => "self."@ + dec_of(idx),
    }
}

/// The conversion statements of one struct field.
pub open spec fn struct_transform_of(f: FieldV, idx: nat) -> Seq<char> {
    property_of(f.ty, spec_safe_name(f, idx), self_param_of(f, idx))
}

pub open spec fn struct_transforms_cat(fs: Seq<FieldV>) -> Seq<char>
    decreases fs.len(),
{
    if fs.len() == 0 {
        Seq::empty()
    } else {
        struct_transforms_cat(fs.drop_last()) + struct_transform_of(
            fs.last(),
            (fs.len() - 1) as nat,
        )
    }
}

/// The conversion statements of one named method argument.
pub open spec fn method_transform_of(f: FieldV, idx: nat) -> Seq<char> {
    property_of(f.ty, spec_safe_name(f, idx), spec_safe_name(f, idx))
}

/// The argument-array fragment of a field list: each converted value
/// followed by a comma.
pub open spec fn fields_args_cat(fs: Seq<FieldV>) -> Seq<char>
    decreases fs.len(),
{
    if fs.len() == 0 {
        Seq::empty()
    } else {
        fields_args_cat(fs.drop_last()) + array_arg_of(
            fs.last().ty,
            spec_safe_name(fs.last(), (fs.len() - 1) as nat),
        ) + ", "@
    }
}

/// Every field of a data class can be converted and placed in the
/// constructor argument array.
pub open spec fn data_class_ok(fs: Seq<FieldV>) -> bool {
    forall|i: int|
        0 <= i < fs.len() ==> property_ok((#[trigger] fs[i]).ty) && array_ok(fs[i].ty)
}

/// Emit the conversion statements for every struct field, reading each
/// out of `self`.
pub fn generate_struct_fields_transformation(fields: &Vec<Field>) -> (out: Vec<String>)
    requires
        forall|i: int|
            0 <= i < fields.deep_view().len() ==> property_ok(
                (#[trigger] fields.deep_view()[i]).ty,
            ),
    ensures
        out@.len() == fields@.len(),
        forall|i: int|
            0 <= i < out@.len() ==> (#[trigger] out@[i])@ == struct_transform_of(
                fields.deep_view()[i],
                i as nat,
            ),
{
    let mut out: Vec<String> = Vec::new();
    let mut i: usize = 0;
    while i < fields.len()
        invariant
            i <= fields@.len(),
            fields.deep_view().len() == fields@.len(),
            forall|j: int|
                0 <= j < fields.deep_view().len() ==> property_ok(
                    (#[trigger] fields.deep_view()[j]).ty,
                ),
            out@.len() == i,
            forall|j: int|
                0 <= j < i ==> (#[trigger] out@[j])@ == struct_transform_of(
                    fields.deep_view()[j],
                    j as nat,
                ),
        decreases fields@.len() - i,
    {
        proof {
            assert(fields.deep_view()[i as int] == fields@[i as int]@);
        }
        let field = &fields[i];
        let name = field.safe_name(&i);
        let sp = match &field.name {
            Option::None => {
                let mut s = String::from_str("self.");
                let digits = crate::strutil::u64_to_dec(i as u64);
                s.append(digits.as_str());
                s
            },
            Option::Some(fname) => {
                let mut s = String::from_str("self.");
                s.append(fname.as_str());
                s
            },
        };
        let t = rust_property_to_jni_type(&field.ty, name.as_str(), sp.as_str());
        out.push(t);
        i = i + 1;
    }
    out
}

/// Emit the conversion statements for every named method argument.
pub fn generate_method_fields_transformation(fields: &Vec<Field>) -> (out: Vec<String>)
    requires
        forall|i: int|
            0 <= i < fields.deep_view().len() ==> property_ok(
                (#[trigger] fields.deep_view()[i]).ty,
            ) && fields.deep_view()[i].name is Some,
    ensures
        out@.len() == fields@.len(),
        forall|i: int|
            0 <= i < out@.len() ==> (#[trigger] out@[i])@ == method_transform_of(
                fields.deep_view()[i],
                i as nat,
            ),
{
    let mut out: Vec<String> = Vec::new();
    let mut i: usize = 0;
    while i < fields.len()
        invariant
            i <= fields@.len(),
            fields.deep_view().len() == fields@.len(),
            forall|j: int|
                0 <= j < fields.deep_view().len() ==> property_ok(
                    (#[trigger] fields.deep_view()[j]).ty,
                ) && fields.deep_view()[j].name is Some,
            out@.len() == i,
            forall|j: int|
                0 <= j < i ==> (#[trigger] out@[j])@ == method_transform_of(
                    fields.deep_view()[j],
                    j as nat,
                ),
        decreases fields@.len() - i,
    {
        proof {
            assert(fields.deep_view()[i as int] == fields@[i as int]@);
        }
        let field = &fields[i];
        let name = field.safe_name(&i);
        let t = rust_property_to_jni_type(&field.ty, name.as_str(), name.as_str());
        out.push(t);
        i = i + 1;
    }
    out
}

/// Emit the argument-array expression for every field.
pub fn generate_struct_fields_mapping_into_array(fields: &Vec<Field>) -> (out: Vec<String>)
    requires
        forall|i: int|
            0 <= i < fields.deep_view().len() ==> array_ok((#[trigger] fields.deep_view()[i]).ty),
    ensures
        out@.len() == fields@.len(),
        forall|i: int|
            0 <= i < out@.len() ==> (#[trigger] out@[i])@ == array_arg_of(
                fields.deep_view()[i].ty,
                spec_safe_name(fields.deep_view()[i], i as nat),
            ),
{
    let mut out: Vec<String> = Vec::new();
    let mut i: usize = 0;
    while i < fields.len()
        invariant
            i <= fields@.len(),
            fields.deep_view().len() == fields@.len(),
            forall|j: int|
                0 <= j < fields.deep_view().len() ==> array_ok(
                    (#[trigger] fields.deep_view()[j]).ty,
                ),
            out@.len() == i,
            forall|j: int|
                0 <= j < i ==> (#[trigger] out@[j])@ == array_arg_of(
                    fields.deep_view()[j].ty,
                    spec_safe_name(fields.deep_view()[j], j as nat),
                ),
        decreases fields@.len() - i,
    {
        proof {
            assert(fields.deep_view()[i as int] == fields@[i as int]@);
        }
        let field = &fields[i];
        let name = field.safe_name(&i);
        let t = generate_field_mapping_into_array(&field.ty, name.as_str());
        out.push(t);
        i = i + 1;
    }
    out
}

/// The boundary-object conversion of a handle-backed class: the native
/// value moves to the heap and its address, as a 64-bit handle, is the
/// sole constructor argument of the host object.
pub open spec fn map_to_class_of(st: RsStructV) -> Seq<char> {
    header_comment_of("JNI_CLASS "@ + enc_struct(st))
        + "impl <'local> crate::IntoEnv<'local, jni::objects::JObject<'local>> for "@ + st.name
        + " {\nfn into_env(self, env: &mut std::cell::RefMut<'_, jni::JNIEnv<'local>>) -> jni::objects::JObject<'local> {\nlet package_name_for_signature = crate::JNI_PACKAGE_NAME.replace(\".\", \"/\");\nlet class_path = if package_name_for_signature.is_empty() { format!(\"{}\", \""@
        + st.name + "\") } else { format!(\"{}/{}\", package_name_for_signature, \""@ + st.name
        + "\") };\nlet error_msg_new_object = format!(\"New object failed {class_path}\");\nlet pointer = Box::into_raw(Box::new(self)) as jni::sys::jlong;\nlet constructor_signature = \"(J)V\".replace(\"<PKG_NAME>/\", package_name_for_signature.as_str());\nlet error_msg = format!(\"Find class failed for {class_path}\");\nlet class = env.find_class(class_path).expect(error_msg.as_str());\nlet constructor_args: &[jni::objects::JValue] = &[pointer.into()];\nlet obj = env.new_object(class, constructor_signature.as_str(), constructor_args).expect(&error_msg_new_object);\nobj\n}\n}\n"@
}

/// The disposer of a handle-backed class: ownership is reconstructed
/// from the handle and the native value dropped, exactly once per live
/// handle; a second call for the same handle is outside the safety
/// envelope.
pub open spec fn drop_func_of(st: RsStructV) -> Seq<char> {
    "#[no_mangle]\npub unsafe extern \"system\" fn Java_"@ + st.name
        + "Obj_destroy(\n_env: jni::JNIEnv,\n_class: jni::objects::JClass,\njni_pointer: jni::sys::jlong,\n) {\ndrop(Box::from_raw(jni_pointer as *mut "@
        + st.name + "))\n}\n"@
}

/// The boundary-object conversion of a transparent data class: every
/// field is converted and passed to the host constructor, whose
/// descriptor is the concatenation of the field descriptors.
pub open spec fn map_to_data_class_of(st: RsStructV) -> Seq<char> {
    header_comment_of("JNI_DATA_CLASS "@ + enc_struct(st))
        + "impl <'local> crate::IntoEnv<'local, jni::objects::JObject<'local>> for "@ + st.name
        + " {\nfn into_env(self, env: &mut std::cell::RefMut<'_, jni::JNIEnv<'local>>) -> jni::objects::JObject<'local> {\nlet package_name_for_signature = crate::JNI_PACKAGE_NAME.replace(\".\", \"/\");\nlet rc_env = std::rc::Rc::new(std::cell::RefCell::new(env));\nlet class_path = if package_name_for_signature.is_empty() { format!(\"{}\", \""@
        + st.name + "\") } else { format!(\"{}/{}\", package_name_for_signature, \""@ + st.name
        + "\") };\nlet constructor_signature = \"("@ + fields_desc_cat(st.fields)
        + ")V\".replace(\"<PKG_NAME>\", package_name_for_signature.as_str());\nlet class = { let mut env = rc_env.borrow_mut(); let error_msg = format!(\"Could not find class {class_path}\"); env.find_class(class_path).expect(&error_msg) };\n"@
        + struct_transforms_cat(st.fields)
        + "let constructor_args: &[jni::objects::JValue] = &["@ + fields_args_cat(st.fields)
        + "];\nlet obj = { let mut env = rc_env.borrow_mut(); env.new_object(class, constructor_signature.as_str(), constructor_args).unwrap() };\nobj\n}\n}\n"@
}

/// A handle-backed class around a struct declaration.
pub struct Class(pub RsStruct);

impl From<RsStruct> for Class {
    fn from(value: RsStruct) -> Self {
        Class(value)
    }
}

impl vstd::std_specs::convert::FromSpecImpl<RsStruct> for Class {
    open spec fn obeys_from_spec() -> bool {
        true
    }

    open spec fn from_spec(value: RsStruct) -> Self {
        Class(value)
    }
}

/// A transparent data class around a struct declaration.
pub struct DataClass(pub RsStruct);

impl From<RsStruct> for DataClass {
    fn from(value: RsStruct) -> Self {
        DataClass(value)
    }
}

impl vstd::std_specs::convert::FromSpecImpl<RsStruct> for DataClass {
    open spec fn obeys_from_spec() -> bool {
        true
    }

    open spec fn from_spec(value: RsStruct) -> Self {
        DataClass(value)
    }
}

impl Class {
    /// Emit the boundary-object conversion for this class.
    pub fn map_to_class_func(&self) -> (out: String)
        ensures
            out@ == map_to_class_of(self.0@),
    {
        let encoded = encode_struct(&self.0);
        let mut header_content = String::from_str("JNI_CLASS ");
        header_content.append(encoded.as_str());
        let mut out = full_header_comment(header_content.as_str());
        out.append("impl <'local> crate::IntoEnv<'local, jni::objects::JObject<'local>> for ");
        out.append(self.0.name.as_str());
        out.append(
            " {\nfn into_env(self, env: &mut std::cell::RefMut<'_, jni::JNIEnv<'local>>) -> jni::objects::JObject<'local> {\nlet package_name_for_signature = crate::JNI_PACKAGE_NAME.replace(\".\", \"/\");\nlet class_path = if package_name_for_signature.is_empty() { format!(\"{}\", \"",
        );
        out.append(self.0.name.as_str());
        out.append("\") } else { format!(\"{}/{}\", package_name_for_signature, \"");
        out.append(self.0.name.as_str());
        out.append(
            "\") };\nlet error_msg_new_object = format!(\"New object failed {class_path}\");\nlet pointer = Box::into_raw(Box::new(self)) as jni::sys::jlong;\nlet constructor_signature = \"(J)V\".replace(\"<PKG_NAME>/\", package_name_for_signature.as_str());\nlet error_msg = format!(\"Find class failed for {class_path}\");\nlet class = env.find_class(class_path).expect(error_msg.as_str());\nlet constructor_args: &[jni::objects::JValue] = &[pointer.into()];\nlet obj = env.new_object(class, constructor_signature.as_str(), constructor_args).expect(&error_msg_new_object);\nobj\n}\n}\n",
        );
        proof {
            assert(out@ =~= map_to_class_of(self.0@));
        }
        out
    }

    /// Emit the disposer for this class.
    pub fn drop_func(&self) -> (out: String)
        ensures
            out@ == drop_func_of(self.0@),
    {
        let mut out = String::from_str("#[no_mangle]\npub unsafe extern \"system\" fn Java_");
        out.append(self.0.name.as_str());
        out.append(
            "Obj_destroy(\n_env: jni::JNIEnv,\n_class: jni::objects::JClass,\njni_pointer: jni::sys::jlong,\n) {\ndrop(Box::from_raw(jni_pointer as *mut ",
        );
        out.append(self.0.name.as_str());
        out.append("))\n}\n");
        proof {
            assert(out@ =~= drop_func_of(self.0@));
        }
        out
    }

    /// The methods generated alongside a handle-backed class: the
    /// conversion and the disposer.
    pub fn generated_methods(&self) -> (out: Vec<String>)
        ensures
            out@.len() == 2,
            out@[0]@ == map_to_class_of(self.0@),
            out@[1]@ == drop_func_of(self.0@),
    {
        let mut out: Vec<String> = Vec::new();
        out.push(self.map_to_class_func());
        out.push(self.drop_func());
        out
    }
}

impl DataClass {
    /// Emit the boundary-object conversion for this data class.
    pub fn map_to_data_class_func(&self) -> (out: String)
        requires
            data_class_ok(self.0@.fields),
        ensures
            out@ == map_to_data_class_of(self.0@),
    {
        let encoded = encode_struct(&self.0);
        let mut header_content = String::from_str("JNI_DATA_CLASS ");
        header_content.append(encoded.as_str());
        let mut out = full_header_comment(header_content.as_str());
        out.append("impl <'local> crate::IntoEnv<'local, jni::objects::JObject<'local>> for ");
        out.append(self.0.name.as_str());
        out.append(
            " {\nfn into_env(self, env: &mut std::cell::RefMut<'_, jni::JNIEnv<'local>>) -> jni::objects::JObject<'local> {\nlet package_name_for_signature = crate::JNI_PACKAGE_NAME.replace(\".\", \"/\");\nlet rc_env = std::rc::Rc::new(std::cell::RefCell::new(env));\nlet class_path = if package_name_for_signature.is_empty() { format!(\"{}\", \"",
        );
        out.append(self.0.name.as_str());
        out.append("\") } else { format!(\"{}/{}\", package_name_for_signature, \"");
        out.append(self.0.name.as_str());
        out.append("\") };\nlet constructor_signature = \"(");

        let n = self.0.fields.len();
        let ghost fields_v = self.0.fields.deep_view();
        let ghost desc_base = out@;
        let mut i: usize = 0;
        proof {
            assert(fields_v.take(0) =~= Seq::<FieldV>::empty());
            assert(desc_base + Seq::<char>::empty() =~= desc_base);
        }
        while i < n
            invariant
                n == self.0.fields@.len(),
                fields_v == self.0.fields.deep_view(),
                fields_v.len() == n,
                i <= n,
                out@ == desc_base + fields_desc_cat(fields_v.take(i as int)),
            decreases n - i,
        {
            proof {
                assert(fields_v[i as int] == self.0.fields@[i as int]@);
                assert(fields_v.take(i as int + 1).drop_last() =~= fields_v.take(i as int));
                assert(fields_v.take(i as int + 1).last() == fields_v[i as int]);
            }
            let d = jni_type_to_jni_method_signature_type(&self.0.fields[i].ty);
            out.append(d.as_str());
            i = i + 1;
        }
        proof {
            assert(fields_v.take(n as int) =~= fields_v);
        }

        out.append(
            ")V\".replace(\"<PKG_NAME>\", package_name_for_signature.as_str());\nlet class = { let mut env = rc_env.borrow_mut(); let error_msg = format!(\"Could not find class {class_path}\"); env.find_class(class_path).expect(&error_msg) };\n",
        );

        let ghost tr_base = out@;
        let transforms = generate_struct_fields_transformation(&self.0.fields);
        let mut i: usize = 0;
        proof {
            assert(tr_base + Seq::<char>::empty() =~= tr_base);
        }
        while i < n
            invariant
                n == self.0.fields@.len(),
                fields_v == self.0.fields.deep_view(),
                fields_v.len() == n,
                i <= n,
                transforms@.len() == n,
                forall|j: int|
                    0 <= j < n ==> (#[trigger] transforms@[j])@ == struct_transform_of(
                        fields_v[j],
                        j as nat,
                    ),
                out@ == tr_base + struct_transforms_cat(fields_v.take(i as int)),
            decreases n - i,
        {
            proof {
                assert(fields_v.take(i as int + 1).drop_last() =~= fields_v.take(i as int));
                assert(fields_v.take(i as int + 1).last() == fields_v[i as int]);
            }
            out.append(transforms[i].as_str());
            i = i + 1;
        }
        proof {
            assert(fields_v.take(n as int) =~= fields_v);
        }

        out.append("let constructor_args: &[jni::objects::JValue] = &[");

        let ghost args_base = out@;
        let args = generate_struct_fields_mapping_into_array(&self.0.fields);
        let mut i: usize = 0;
        proof {
            assert(args_base + Seq::<char>::empty() =~= args_base);
        }
        while i < n
            invariant
                n == self.0.fields@.len(),
                fields_v == self.0.fields.deep_view(),
                fields_v.len() == n,
                i <= n,
                args@.len() == n,
                forall|j: int|
                    0 <= j < n ==> (#[trigger] args@[j])@ == array_arg_of(
                        fields_v[j].ty,
                        spec_safe_name(fields_v[j], j as nat),
                    ),
                out@ == args_base + fields_args_cat(fields_v.take(i as int)),
            decreases n - i,
        {
            proof {
                assert(fields_v.take(i as int + 1).drop_last() =~= fields_v.take(i as int));
                assert(fields_v.take(i as int + 1).last() == fields_v[i as int]);
            }
            out.append(args[i].as_str());
            out.append(", ");
            i = i + 1;
            proof {
                assert(out@ =~= args_base + fields_args_cat(fields_v.take(i as int)));
            }
        }
        proof {
            assert(fields_v.take(n as int) =~= fields_v);
        }

        out.append(
            "];\nlet obj = { let mut env = rc_env.borrow_mut(); env.new_object(class, constructor_signature.as_str(), constructor_args).unwrap() };\nobj\n}\n}\n",
        );
        proof {
            assert(out@ =~= map_to_data_class_of(self.0@));
        }
        out
    }

    /// The methods generated alongside a transparent data class.
    pub fn generated_methods(&self) -> (out: Vec<String>)
        requires
            data_class_ok(self.0@.fields),
        ensures
            out@.len() == 1,
            out@[0]@ == map_to_data_class_of(self.0@),
    {
        let mut out: Vec<String> = Vec::new();
        out.push(self.map_to_data_class_func());
        out
    }
}

} // verus!
