//! The type mapper: a total function from source type text to a wire
//! type.  Primitive spellings map to their primitive wire types; the
//! byte-buffer spelling maps to `ByteBuffer`; the optional wrapper
//! recurses on its payload; the borrowed-callback marker yields a
//! `CallbackType`; everything else, generic-list text included, is a
//! `NamedType` carrying the text unchanged.

use vstd::prelude::*;

use crate::ir::{JniType, JniTypeV};
use crate::strutil::{
    despace, ends_with, remove_spaces, starts_with, str_ends_with, str_eq, str_starts_with,
};

verus! {

/// The wire type denoted by a piece of source type text.  The rules
/// apply in order, first match wins.
pub open spec fn parse_ty(s: Seq<char>) -> JniTypeV
    decreases s.len(),
{
    if s == "i32"@ {
        JniTypeV::Int32
    } else if s == "i64"@ {
        JniTypeV::Int64
    } else if s == "u64"@ {
        JniTypeV::UInt64
    } else if s == "f32"@ {
        JniTypeV::Float32
    } else if s == "f64"@ {
        JniTypeV::Float64
    } else if s == "String"@ {
        JniTypeV::Utf8String
    } else if s == "bool"@ {
        JniTypeV::Bool
    } else if despace(s) == "Vec<u8>"@ {
        JniTypeV::ByteBuffer
    } else if starts_with(despace(s), "Vec<"@) && ends_with(despace(s), ">"@) {
        // generic-list text is reserved for future sequence support and
        // is carried through as a named type for now
        JniTypeV::NamedType(s)
    } else if starts_with(s, "Option < "@) && ends_with(s, " >"@) && s.len() >= 11 {
        JniTypeV::Optional(Box::new(parse_ty(s.subrange(9, s.len() - 2))))
    } else if starts_with(s, "impl "@) {
        JniTypeV::CallbackType(s.skip(5))
    } else {
        JniTypeV::NamedType(s)
    }
}

/// Map source type text to its wire type.
pub fn parse_jni_type(text: &str) -> (t: JniType)
    ensures
        t@ == parse_ty(text@),
    decreases text@.len(),
{
    if str_eq(text, "i32") {
        JniType::Int32
    } else if str_eq(text, "i64") {
        JniType::Int64
    } else if str_eq(text, "u64") {
        JniType::UInt64
    } else if str_eq(text, "f32") {
        JniType::Float32
    } else if str_eq(text, "f64") {
        JniType::Float64
    } else if str_eq(text, "String") {
        JniType::Utf8String
    } else if str_eq(text, "bool") {
        JniType::Bool
    } else {
        let no_spaces = remove_spaces(text);
        if str_eq(no_spaces.as_str(), "Vec<u8>") {
            JniType::ByteBuffer
        } else if str_starts_with(no_spaces.as_str(), "Vec<") && str_ends_with(
            no_spaces.as_str(),
            ">",
        ) {
            JniType::NamedType(String::from_str(text))
        } else if str_starts_with(text, "Option < ") && str_ends_with(text, " >")
            && text.unicode_len() >= 11 {
            let n: usize = text.unicode_len();
            let inner_text = text.substring_char(9, n - 2);
            let inner = parse_jni_type(inner_text);
            JniType::Optional(Box::new(inner))
        } else if str_starts_with(text, "impl ") {
            proof {
                reveal_strlit("impl ");
            }
            let n: usize = text.unicode_len();
            let rest = text.substring_char(5, n);
            proof {
                assert(rest@ =~= text@.skip(5));
            }
            JniType::CallbackType(String::from_str(rest))
        } else {
            JniType::NamedType(String::from_str(text))
        }
    }
}

/// Each primitive spelling always yields its primitive wire type,
/// never a named type.
pub proof fn lemma_primitive_spellings()
    ensures
        parse_ty("i32"@) == JniTypeV::Int32,
        parse_ty("i64"@) == JniTypeV::Int64,
        parse_ty("u64"@) == JniTypeV::UInt64,
        parse_ty("f32"@) == JniTypeV::Float32,
        parse_ty("f64"@) == JniTypeV::Float64,
        parse_ty("String"@) == JniTypeV::Utf8String,
        parse_ty("bool"@) == JniTypeV::Bool,
{
    reveal_strlit("i32");
    reveal_strlit("i64");
    reveal_strlit("u64");
    reveal_strlit("f32");
    reveal_strlit("f64");
    reveal_strlit("String");
    reveal_strlit("bool");
    assert("i64"@ != "i32"@) by {
        assert("i64"@[1] != "i32"@[1]);
    };
    assert("u64"@ != "i32"@ && "u64"@ != "i64"@) by {
        assert("u64"@[0] != "i32"@[0] && "u64"@[0] != "i64"@[0]);
    };
    assert("f32"@ != "i32"@ && "f32"@ != "i64"@ && "f32"@ != "u64"@) by {
        assert("f32"@[0] != "i32"@[0] && "f32"@[0] != "i64"@[0] && "f32"@[0] != "u64"@[0]);
    };
    assert("f64"@ != "i32"@ && "f64"@ != "i64"@ && "f64"@ != "u64"@ && "f64"@ != "f32"@) by {
        assert("f64"@[0] != "i32"@[0] && "f64"@[0] != "i64"@[0] && "f64"@[0] != "u64"@[0]
            && "f64"@[1] != "f32"@[1]);
    };
    assert("String"@.len() != "i32"@.len());
    assert("bool"@.len() != "i32"@.len() && "bool"@.len() != "String"@.len());
}

} // verus!
