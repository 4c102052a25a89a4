//! Emission of the fixed framing around generated artifacts: the
//! marker-bracketed record header that survives the external expansion
//! step, and the base definitions emitted at initialization, package
//! name included.

use vstd::prelude::*;


verus! {

/// The fixed notice placed under every record header.
pub open spec fn auto_generated_header_text() -> Seq<char> {
    "Auto generated header. This will be used by cargo-kotars to generate the Kotlin code that binds to the Rust code."@
}

/// A record header: the content line bracketed by the fixed start and
/// end markers, each line a doc comment so the external expansion step
/// carries it through unchanged.
pub open spec fn header_comment_of(content: Seq<char>) -> Seq<char> {
    "/// JNI_BINDING_START\n/// "@ + content + "\n/// JNI_BINDING_END\n/// "@
        + auto_generated_header_text() + "\n"@
}

/// Emit a record header around the given content line.
pub fn full_header_comment(content: &str) -> (out: String)
    ensures
        out@ == header_comment_of(content@),
{
    let mut out = String::from_str("/// JNI_BINDING_START\n/// ");
    out.append(content);
    out.append("\n/// JNI_BINDING_END\n/// ");
    out.append(
        "Auto generated header. This will be used by cargo-kotars to generate the Kotlin code that binds to the Rust code.",
    );
    out.append("\n");
    out
}

/// The one well-known constant-declaration line whose literal value
/// names the host-language package, followed by the boundary
/// conversion trait and its fixed implementations.
pub open spec fn jni_init_code_of(package_name: Seq<char>) -> Seq<char> {
    "pub const JNI_PACKAGE_NAME: &str = \""@ + package_name + "\";\n"@ + init_trait_text()
}

/// The fixed boundary conversion definitions emitted at
/// initialization.
pub open spec fn init_trait_text() -> Seq<char> {
    "trait IntoEnv<'a, T> {\nfn into_env(self, env: &mut std::cell::RefMut<'_, jni::JNIEnv<'a>>) -> T;\n}\n"@
        + "impl <'local> IntoEnv<'local, jni::objects::JString<'local>> for String {\nfn into_env(self, env: &mut std::cell::RefMut<'_, jni::JNIEnv<'local>>) -> jni::objects::JString<'local> {\nenv.new_string(self).expect(\"Couldn't create java string!\")\n}\n}\n"@
        + "impl IntoEnv<'_, String> for jni::objects::JString<'_> {\nfn into_env(self, env: &mut std::cell::RefMut<'_, jni::JNIEnv>) -> String {\nenv.get_string(&self).expect(\"Couldn't get java string!\").into()\n}\n}\n"@
        + "impl IntoEnv<'_, Vec<u8>> for jni::objects::JByteArray<'_> {\nfn into_env(self, env: &mut std::cell::RefMut<'_, jni::JNIEnv>) -> Vec<u8> {\nenv.convert_byte_array(self).unwrap()\n}\n}\n"@
        + "impl <'local> IntoEnv<'local, jni::objects::JByteArray<'local>> for Vec<u8> {\nfn into_env(self, env: &mut std::cell::RefMut<'_, jni::JNIEnv<'local>>) -> jni::objects::JByteArray<'local> {\nlet output = env.byte_array_from_slice(&self).unwrap();\noutput\n}\n}\n"@
}

/// Emit the initialization definitions for the given package name.
pub fn jni_init_code(package_name: &str) -> (out: String)
    ensures
        out@ == jni_init_code_of(package_name@),
{
    let mut out = String::from_str("pub const JNI_PACKAGE_NAME: &str = \"");
    out.append(package_name);
    out.append("\";\n");
    out.append(
        "trait IntoEnv<'a, T> {\nfn into_env(self, env: &mut std::cell::RefMut<'_, jni::JNIEnv<'a>>) -> T;\n}\n",
    );
    out.append(
        "impl <'local> IntoEnv<'local, jni::objects::JString<'local>> for String {\nfn into_env(self, env: &mut std::cell::RefMut<'_, jni::JNIEnv<'local>>) -> jni::objects::JString<'local> {\nenv.new_string(self).expect(\"Couldn't create java string!\")\n}\n}\n",
    );
    out.append(
        "impl IntoEnv<'_, String> for jni::objects::JString<'_> {\nfn into_env(self, env: &mut std::cell::RefMut<'_, jni::JNIEnv>) -> String {\nenv.get_string(&self).expect(\"Couldn't get java string!\").into()\n}\n}\n",
    );
    out.append(
        "impl IntoEnv<'_, Vec<u8>> for jni::objects::JByteArray<'_> {\nfn into_env(self, env: &mut std::cell::RefMut<'_, jni::JNIEnv>) -> Vec<u8> {\nenv.convert_byte_array(self).unwrap()\n}\n}\n",
    );
    out.append(
        "impl <'local> IntoEnv<'local, jni::objects::JByteArray<'local>> for Vec<u8> {\nfn into_env(self, env: &mut std::cell::RefMut<'_, jni::JNIEnv<'local>>) -> jni::objects::JByteArray<'local> {\nlet output = env.byte_array_from_slice(&self).unwrap();\noutput\n}\n}\n",
    );
    proof {
        assert(out@ =~= jni_init_code_of(package_name@));
    }
    out
}

} // verus!
