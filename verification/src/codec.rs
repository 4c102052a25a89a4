//! The encoding protocol: each intermediate-representation node is
//! serialized to a compact single-line tagged text record, and a
//! decoder recovers the node from the record.  Strings and lists are
//! length-prefixed, so no character of a payload needs escaping and
//! decoding is unambiguous.  The round-trip laws at the end state that
//! decoding an encoded node yields the node back, for every node.

use vstd::prelude::*;

use crate::ir::{
    Field, FieldV, Function, FunctionV, JniType, JniTypeV, Parameter, ParameterV, RsInterface,
    RsInterfaceV, RsStruct, RsStructV,
};
use crate::strutil::{
    dec_of, digit_val, is_digit, lemma_dec_of_digits, lemma_scan_dec, scan_digits,
    scan_digits_exec, u64_to_dec,
};

verus! {

// ---------------------------------------------------------------------
// Encoding, at the model level.
// ---------------------------------------------------------------------
/// A string is encoded as its decimal character count, `:`, and its
/// characters verbatim.
pub open spec fn enc_str(s: Seq<char>) -> Seq<char> {
    dec_of(s.len()) + ":"@ + s
}

/// A truth value is encoded as a single tag character.
pub open spec fn enc_bool(b: bool) -> Seq<char> {
    if b {
        "T"@
    } else {
        "F"@
    }
}

/// An optional string: `N` for absent, `Y` and the string for present.
pub open spec fn enc_opt_str(o: Option<Seq<char>>) -> Seq<char> {
    match o {
        Option::None => "N"@,
        Option::Some(s) => "Y"@ + enc_str(s),
    }
}

/// A wire type: a tag character, then the payload of the variant.
pub open spec fn enc_ty(t: JniTypeV) -> Seq<char>
    decreases t,
{
    match t {
        JniTypeV::Int32 => "i"@,
        JniTypeV::Int64 => "j"@,
        JniTypeV::UInt64 => "u"@,
        JniTypeV::Float32 => "f"@,
        JniTypeV::Float64 => "d"@,
        JniTypeV::Bool => "z"@,
        JniTypeV::Utf8String => "s"@,
        JniTypeV::ByteBuffer => "b"@,
        JniTypeV::Void => "v"@,
        JniTypeV::ObjectHandle(name) => "h"@ + enc_str(name),
        JniTypeV::NamedType(name) => "n"@ + enc_str(name),
        JniTypeV::CallbackType(name) => "c"@ + enc_str(name),
        JniTypeV::Optional(inner) => "o"@ + enc_ty(*inner),
    }
}

/// An optional wire type.
pub open spec fn enc_opt_ty(o: Option<JniTypeV>) -> Seq<char> {
    match o {
        Option::None => "N"@,
        Option::Some(t) => "Y"@ + enc_ty(t),
    }
}

/// A parameter: a variant tag, then the payload fields in order.
pub open spec fn enc_param(p: ParameterV) -> Seq<char> {
    match p {
        ParameterV::Typed { name, ty, is_borrow, is_mutable } => "t"@ + enc_str(name) + enc_ty(ty)
            + enc_bool(is_borrow) + enc_bool(is_mutable),
        ParameterV::Receiver { is_mutable } => "r"@ + enc_bool(is_mutable),
    }
}

/// The concatenation of the encodings of a parameter list.
pub open spec fn enc_params_cat(ps: Seq<ParameterV>) -> Seq<char>
    decreases ps.len(),
{
    if ps.len() == 0 {
        Seq::empty()
    } else {
        enc_param(ps.first()) + enc_params_cat(ps.drop_first())
    }
}

/// A list is encoded as its decimal element count, `:`, and the
/// encodings of its elements in order.
pub open spec fn enc_params(ps: Seq<ParameterV>) -> Seq<char> {
    dec_of(ps.len()) + ":"@ + enc_params_cat(ps)
}

/// A function: owner name, name, parameter list, return type.
pub open spec fn enc_function(f: FunctionV) -> Seq<char> {
    enc_str(f.owner_name) + enc_str(f.name) + enc_params(f.parameters) + enc_opt_ty(f.return_type)
}

/// A field: visibility, optional declared name, wire type.
pub open spec fn enc_field(fd: FieldV) -> Seq<char> {
    enc_bool(fd.is_public) + enc_opt_str(fd.name) + enc_ty(fd.ty)
}

pub open spec fn enc_fields_cat(fs: Seq<FieldV>) -> Seq<char>
    decreases fs.len(),
{
    if fs.len() == 0 {
        Seq::empty()
    } else {
        enc_field(fs.first()) + enc_fields_cat(fs.drop_first())
    }
}

pub open spec fn enc_fields(fs: Seq<FieldV>) -> Seq<char> {
    dec_of(fs.len()) + ":"@ + enc_fields_cat(fs)
}

/// A struct: name and field list.
pub open spec fn enc_struct(st: RsStructV) -> Seq<char> {
    enc_str(st.name) + enc_fields(st.fields)
}

pub open spec fn enc_functions_cat(fs: Seq<FunctionV>) -> Seq<char>
    decreases fs.len(),
{
    if fs.len() == 0 {
        Seq::empty()
    } else {
        enc_function(fs.first()) + enc_functions_cat(fs.drop_first())
    }
}

pub open spec fn enc_functions(fs: Seq<FunctionV>) -> Seq<char> {
    dec_of(fs.len()) + ":"@ + enc_functions_cat(fs)
}

/// An interface: name and function list.
pub open spec fn enc_interface(it: RsInterfaceV) -> Seq<char> {
    enc_str(it.name) + enc_functions(it.functions)
}

// ---------------------------------------------------------------------
// Encoding, executable.
// ---------------------------------------------------------------------
/// Append the encoding of a string payload.
fn push_enc_str(out: &mut String, s: &str)
    ensures
        final (out)@ == old(out)@ + enc_str(s@),
{
    let n: usize = s.unicode_len();
    let digits = u64_to_dec(n as u64);
    out.append(digits.as_str());
    out.append(":");
    out.append(s);
}

/// Append the encoding of a truth value.
fn push_enc_bool(out: &mut String, b: bool)
    ensures
        final (out)@ == old(out)@ + enc_bool(b),
{
    if b {
        out.append("T");
    } else {
        out.append("F");
    }
}

/// Append the encoding of a wire type.
fn push_enc_ty(out: &mut String, t: &JniType)
    ensures
        final (out)@ == old(out)@ + enc_ty(t@),
    decreases *t,
{
    match t {
        JniType::Int32 => out.append("i"),
        JniType::Int64 => out.append("j"),
        JniType::UInt64 => out.append("u"),
        JniType::Float32 => out.append("f"),
        JniType::Float64 => out.append("d"),
        JniType::Bool => out.append("z"),
        JniType::Utf8String => out.append("s"),
        JniType::ByteBuffer => out.append("b"),
        JniType::Void => out.append("v"),
        JniType::ObjectHandle(name) => {
            out.append("h");
            push_enc_str(out, name.as_str());
        },
        JniType::NamedType(name) => {
            out.append("n");
            push_enc_str(out, name.as_str());
        },
        JniType::CallbackType(name) => {
            out.append("c");
            push_enc_str(out, name.as_str());
        },
        JniType::Optional(inner) => {
            out.append("o");
            push_enc_ty(out, &**inner);
        },
    }
}

/// Append the encoding of a parameter.
fn push_enc_param(out: &mut String, p: &Parameter)
    ensures
        final (out)@ == old(out)@ + enc_param(p@),
{
    match p {
        Parameter::Typed { name, ty, is_borrow, is_mutable } => {
            out.append("t");
            push_enc_str(out, name.as_str());
            push_enc_ty(out, ty);
            push_enc_bool(out, *is_borrow);
            push_enc_bool(out, *is_mutable);
        },
        Parameter::Receiver { is_mutable } => {
            out.append("r");
            push_enc_bool(out, *is_mutable);
        },
    }
}

/// Append the encoding of a parameter list.
fn push_enc_params(out: &mut String, ps: &Vec<Parameter>)
    ensures
        final (out)@ == old(out)@ + enc_params(ps.deep_view()),
{
    let n: usize = ps.len();
    let digits = u64_to_dec(n as u64);
    out.append(digits.as_str());
    out.append(":");
    let ghost base = out@;
    let mut i: usize = 0;
    proof {
        assert(ps.deep_view().take(0) =~= Seq::<ParameterV>::empty());
        assert(base + Seq::<char>::empty() =~= base);
    }
    while i < n
        invariant
            n == ps@.len(),
            ps.deep_view().len() == ps@.len(),
            i <= n,
            out@ == base + enc_params_cat(ps.deep_view().take(i as int)),
        decreases n - i,
    {
        let ghost pre = ps.deep_view().take(i as int);
        push_enc_param(out, &ps[i]);
        i = i + 1;
        proof {
            let post = ps.deep_view().take(i as int);
            assert(ps.deep_view()[i - 1] == ps@[i - 1].deep_view());
            lemma_cat_snoc_params(pre, ps.deep_view()[i - 1]);
            assert(post =~= pre.push(ps.deep_view()[i - 1]));
            assert(base + (enc_params_cat(pre) + enc_param(ps.deep_view()[i - 1])) =~= (base
                + enc_params_cat(pre)) + enc_param(ps.deep_view()[i - 1]));
        }
    }
    proof {
        assert(ps.deep_view().take(n as int) =~= ps.deep_view());
        assert(enc_params(ps.deep_view()) =~= dec_of(ps.deep_view().len()) + ":"@
            + enc_params_cat(ps.deep_view()));
        assert(old(out)@ + enc_params(ps.deep_view()) =~= base + enc_params_cat(ps.deep_view()));
    }
}

/// Appending one element extends the concatenated encoding at the end.
proof fn lemma_cat_snoc_params(ps: Seq<ParameterV>, p: ParameterV)
    ensures
        enc_params_cat(ps.push(p)) == enc_params_cat(ps) + enc_param(p),
    decreases ps.len(),
{
    if ps.len() == 0 {
        assert(ps.push(p).drop_first() =~= Seq::<ParameterV>::empty());
        assert(ps.push(p).first() == p);
        assert(enc_params_cat(Seq::<ParameterV>::empty()) == Seq::<char>::empty());
        assert(enc_params_cat(ps.push(p)) == enc_param(p) + Seq::<char>::empty());
        assert(enc_param(p) + Seq::<char>::empty() =~= enc_param(p));
        assert(enc_params_cat(ps) + enc_param(p) =~= enc_param(p));
    } else {
        assert(ps.push(p).drop_first() =~= ps.drop_first().push(p));
        assert(ps.push(p).first() == ps.first());
        lemma_cat_snoc_params(ps.drop_first(), p);
        assert(enc_param(ps.first()) + (enc_params_cat(ps.drop_first()) + enc_param(p)) =~= (
        enc_param(ps.first()) + enc_params_cat(ps.drop_first())) + enc_param(p));
    }
}

proof fn lemma_cat_snoc_fields(fs: Seq<FieldV>, f: FieldV)
    ensures
        enc_fields_cat(fs.push(f)) == enc_fields_cat(fs) + enc_field(f),
    decreases fs.len(),
{
    if fs.len() == 0 {
        assert(fs.push(f).drop_first() =~= Seq::<FieldV>::empty());
        assert(fs.push(f).first() == f);
        assert(enc_fields_cat(Seq::<FieldV>::empty()) == Seq::<char>::empty());
        assert(enc_fields_cat(fs.push(f)) == enc_field(f) + Seq::<char>::empty());
        assert(enc_field(f) + Seq::<char>::empty() =~= enc_field(f));
        assert(enc_fields_cat(fs) + enc_field(f) =~= enc_field(f));
    } else {
        assert(fs.push(f).drop_first() =~= fs.drop_first().push(f));
        assert(fs.push(f).first() == fs.first());
        lemma_cat_snoc_fields(fs.drop_first(), f);
        assert(enc_field(fs.first()) + (enc_fields_cat(fs.drop_first()) + enc_field(f)) =~= (
        enc_field(fs.first()) + enc_fields_cat(fs.drop_first())) + enc_field(f));
    }
}

proof fn lemma_cat_snoc_functions(fs: Seq<FunctionV>, f: FunctionV)
    ensures
        enc_functions_cat(fs.push(f)) == enc_functions_cat(fs) + enc_function(f),
    decreases fs.len(),
{
    if fs.len() == 0 {
        assert(fs.push(f).drop_first() =~= Seq::<FunctionV>::empty());
        assert(fs.push(f).first() == f);
        assert(enc_functions_cat(Seq::<FunctionV>::empty()) == Seq::<char>::empty());
        assert(enc_functions_cat(fs.push(f)) == enc_function(f) + Seq::<char>::empty());
        assert(enc_function(f) + Seq::<char>::empty() =~= enc_function(f));
        assert(enc_functions_cat(fs) + enc_function(f) =~= enc_function(f));
    } else {
        assert(fs.push(f).drop_first() =~= fs.drop_first().push(f));
        assert(fs.push(f).first() == fs.first());
        lemma_cat_snoc_functions(fs.drop_first(), f);
        assert(enc_function(fs.first()) + (enc_functions_cat(fs.drop_first()) + enc_function(f))
            =~= (enc_function(fs.first()) + enc_functions_cat(fs.drop_first())) + enc_function(f));
    }
}

/// Serialize a function node to its record payload.
pub fn encode_function(f: &Function) -> (out: String)
    ensures
        out@ == enc_function(f@),
{
    let mut out = String::new();
    push_enc_str(&mut out, f.owner_name.as_str());
    push_enc_str(&mut out, f.name.as_str());
    push_enc_params(&mut out, &f.parameters);
    match &f.return_type {
        Option::None => out.append("N"),
        Option::Some(t) => {
            out.append("Y");
            push_enc_ty(&mut out, t);
        },
    }
    proof {
        assert(Seq::<char>::empty() + enc_str(f@.owner_name) =~= enc_str(f@.owner_name));
    }
    out
}

/// Serialize a struct node to its record payload.
pub fn encode_struct(st: &RsStruct) -> (out: String)
    ensures
        out@ == enc_struct(st@),
{
    let mut out = String::new();
    push_enc_str(&mut out, st.name.as_str());
    let n: usize = st.fields.len();
    let digits = u64_to_dec(n as u64);
    out.append(digits.as_str());
    out.append(":");
    let ghost base = out@;
    let mut i: usize = 0;
    proof {
        assert(st.fields.deep_view().take(0) =~= Seq::<FieldV>::empty());
        assert(base + Seq::<char>::empty() =~= base);
    }
    while i < n
        invariant
            n == st.fields@.len(),
            st.fields.deep_view().len() == st.fields@.len(),
            i <= n,
            out@ == base + enc_fields_cat(st.fields.deep_view().take(i as int)),
        decreases n - i,
    {
        let ghost pre = st.fields.deep_view().take(i as int);
        let fd = &st.fields[i];
        push_enc_bool(&mut out, fd.is_public);
        match &fd.name {
            Option::None => out.append("N"),
            Option::Some(s) => {
                out.append("Y");
                push_enc_str(&mut out, s.as_str());
            },
        }
        push_enc_ty(&mut out, &fd.ty);
        i = i + 1;
        proof {
            let fv = st.fields.deep_view()[i - 1];
            assert(fv == st.fields@[i - 1].deep_view());
            lemma_cat_snoc_fields(pre, fv);
            assert(st.fields.deep_view().take(i as int) =~= pre.push(fv));
            assert(base + (enc_fields_cat(pre) + enc_field(fv)) =~= (base + enc_fields_cat(pre))
                + enc_field(fv));
            assert(enc_field(fv) =~= enc_bool(fv.is_public) + enc_opt_str(fv.name) + enc_ty(fv.ty));
        }
    }
    proof {
        assert(st.fields.deep_view().take(n as int) =~= st.fields.deep_view());
        assert(Seq::<char>::empty() + enc_str(st@.name) =~= enc_str(st@.name));
        assert(enc_struct(st@) =~= enc_str(st@.name) + (dec_of(st.fields.deep_view().len()) + ":"@)
            + enc_fields_cat(st.fields.deep_view()));
    }
    out
}

/// Serialize an interface node to its record payload.
pub fn encode_interface(it: &RsInterface) -> (out: String)
    ensures
        out@ == enc_interface(it@),
{
    let mut out = String::new();
    push_enc_str(&mut out, it.name.as_str());
    let n: usize = it.functions.len();
    let digits = u64_to_dec(n as u64);
    out.append(digits.as_str());
    out.append(":");
    let ghost base = out@;
    let mut i: usize = 0;
    proof {
        assert(it.functions.deep_view().take(0) =~= Seq::<FunctionV>::empty());
        assert(base + Seq::<char>::empty() =~= base);
    }
    while i < n
        invariant
            n == it.functions@.len(),
            it.functions.deep_view().len() == it.functions@.len(),
            i <= n,
            out@ == base + enc_functions_cat(it.functions.deep_view().take(i as int)),
        decreases n - i,
    {
        let ghost pre = it.functions.deep_view().take(i as int);
        let encoded = encode_function(&it.functions[i]);
        out.append(encoded.as_str());
        i = i + 1;
        proof {
            let fv = it.functions.deep_view()[i - 1];
            assert(fv == it.functions@[i - 1].deep_view());
            lemma_cat_snoc_functions(pre, fv);
            assert(it.functions.deep_view().take(i as int) =~= pre.push(fv));
            assert(base + (enc_functions_cat(pre) + enc_function(fv)) =~= (base + enc_functions_cat(
                pre,
            )) + enc_function(fv));
        }
    }
    proof {
        assert(it.functions.deep_view().take(n as int) =~= it.functions.deep_view());
        assert(Seq::<char>::empty() + enc_str(it@.name) =~= enc_str(it@.name));
        assert(enc_interface(it@) =~= enc_str(it@.name) + (dec_of(it.functions.deep_view().len())
            + ":"@) + enc_functions_cat(it.functions.deep_view()));
    }
    out
}

// ---------------------------------------------------------------------
// Decoding, at the model level.
// ---------------------------------------------------------------------
/// Parse a decimal element or character count and its `:` separator.
pub open spec fn p_len(s: Seq<char>, pos: int) -> Option<(nat, int)> {
    let r = scan_digits(s, pos, 0);
    if r.1 > pos && r.1 < s.len() && s[r.1] == ':' {
        Option::Some((r.0, r.1 + 1))
    } else {
        Option::None
    }
}

/// Parse a length-prefixed string.
pub open spec fn p_str(s: Seq<char>, pos: int) -> Option<(Seq<char>, int)> {
    match p_len(s, pos) {
        Option::Some((n, p1)) => if p1 + n <= s.len() {
            Option::Some((s.subrange(p1, p1 + n), p1 + n))
        } else {
            Option::None
        },
        Option::None => Option::None,
    }
}

/// Parse a truth value.
pub open spec fn p_bool(s: Seq<char>, pos: int) -> Option<(bool, int)> {
    if 0 <= pos < s.len() {
        if s[pos] == 'T' {
            Option::Some((true, pos + 1))
        } else if s[pos] == 'F' {
            Option::Some((false, pos + 1))
        } else {
            Option::None
        }
    } else {
        Option::None
    }
}

/// Parse a wire type.
pub open spec fn p_ty(s: Seq<char>, pos: int) -> Option<(JniTypeV, int)>
    decreases s.len() - pos,
{
    if 0 <= pos < s.len() {
        let c = s[pos];
        if c == 'i' {
            Option::Some((JniTypeV::Int32, pos + 1))
        } else if c == 'j' {
            Option::Some((JniTypeV::Int64, pos + 1))
        } else if c == 'u' {
            Option::Some((JniTypeV::UInt64, pos + 1))
        } else if c == 'f' {
            Option::Some((JniTypeV::Float32, pos + 1))
        } else if c == 'd' {
            Option::Some((JniTypeV::Float64, pos + 1))
        } else if c == 'z' {
            Option::Some((JniTypeV::Bool, pos + 1))
        } else if c == 's' {
            Option::Some((JniTypeV::Utf8String, pos + 1))
        } else if c == 'b' {
            Option::Some((JniTypeV::ByteBuffer, pos + 1))
        } else if c == 'v' {
            Option::Some((JniTypeV::Void, pos + 1))
        } else if c == 'h' {
            match p_str(s, pos + 1) {
                Option::Some((name, p)) => Option::Some((JniTypeV::ObjectHandle(name), p)),
                Option::None => Option::None,
            }
        } else if c == 'n' {
            match p_str(s, pos + 1) {
                Option::Some((name, p)) => Option::Some((JniTypeV::NamedType(name), p)),
                Option::None => Option::None,
            }
        } else if c == 'c' {
            match p_str(s, pos + 1) {
                Option::Some((name, p)) => Option::Some((JniTypeV::CallbackType(name), p)),
                Option::None => Option::None,
            }
        } else if c == 'o' {
            match p_ty(s, pos + 1) {
                Option::Some((inner, p)) => Option::Some(
                    (JniTypeV::Optional(Box::new(inner)), p),
                ),
                Option::None => Option::None,
            }
        } else {
            Option::None
        }
    } else {
        Option::None
    }
}

/// Parse an optional wire type.
pub open spec fn p_opt_ty(s: Seq<char>, pos: int) -> Option<(Option<JniTypeV>, int)> {
    if 0 <= pos < s.len() {
        if s[pos] == 'N' {
            Option::Some((Option::None, pos + 1))
        } else if s[pos] == 'Y' {
            match p_ty(s, pos + 1) {
                Option::Some((t, p)) => Option::Some((Option::Some(t), p)),
                Option::None => Option::None,
            }
        } else {
            Option::None
        }
    } else {
        Option::None
    }
}

/// Parse an optional string.
pub open spec fn p_opt_str(s: Seq<char>, pos: int) -> Option<(Option<Seq<char>>, int)> {
    if 0 <= pos < s.len() {
        if s[pos] == 'N' {
            Option::Some((Option::None, pos + 1))
        } else if s[pos] == 'Y' {
            match p_str(s, pos + 1) {
                Option::Some((v, p)) => Option::Some((Option::Some(v), p)),
                Option::None => Option::None,
            }
        } else {
            Option::None
        }
    } else {
        Option::None
    }
}

/// Parse a parameter.
pub open spec fn p_param(s: Seq<char>, pos: int) -> Option<(ParameterV, int)> {
    if 0 <= pos < s.len() {
        if s[pos] == 't' {
            match p_str(s, pos + 1) {
                Option::Some((name, p1)) => match p_ty(s, p1) {
                    Option::Some((ty, p2)) => match p_bool(s, p2) {
                        Option::Some((is_borrow, p3)) => match p_bool(s, p3) {
                            Option::Some((is_mutable, p4)) => Option::Some(
                                (ParameterV::Typed { name, ty, is_borrow, is_mutable }, p4),
                            ),
                            Option::None => Option::None,
                        },
                        Option::None => Option::None,
                    },
                    Option::None => Option::None,
                },
                Option::None => Option::None,
            }
        } else if s[pos] == 'r' {
            match p_bool(s, pos + 1) {
                Option::Some((is_mutable, p1)) => Option::Some(
                    (ParameterV::Receiver { is_mutable }, p1),
                ),
                Option::None => Option::None,
            }
        } else {
            Option::None
        }
    } else {
        Option::None
    }
}

/// Parse exactly `k` parameters.
pub open spec fn p_params_n(s: Seq<char>, pos: int, k: nat) -> Option<(Seq<ParameterV>, int)>
    decreases k,
{
    if k == 0 {
        Option::Some((Seq::empty(), pos))
    } else {
        match p_param(s, pos) {
            Option::Some((p0, p1)) => match p_params_n(s, p1, (k - 1) as nat) {
                Option::Some((rest, p2)) => Option::Some((seq![p0] + rest, p2)),
                Option::None => Option::None,
            },
            Option::None => Option::None,
        }
    }
}

/// Parse a count-prefixed parameter list.
pub open spec fn p_params(s: Seq<char>, pos: int) -> Option<(Seq<ParameterV>, int)> {
    match p_len(s, pos) {
        Option::Some((k, p1)) => p_params_n(s, p1, k),
        Option::None => Option::None,
    }
}

/// Parse a function node.
pub open spec fn p_function(s: Seq<char>, pos: int) -> Option<(FunctionV, int)> {
    match p_str(s, pos) {
        Option::Some((owner_name, p1)) => match p_str(s, p1) {
            Option::Some((name, p2)) => match p_params(s, p2) {
                Option::Some((parameters, p3)) => match p_opt_ty(s, p3) {
                    Option::Some((return_type, p4)) => Option::Some(
                        (FunctionV { owner_name, name, parameters, return_type }, p4),
                    ),
                    Option::None => Option::None,
                },
                Option::None => Option::None,
            },
            Option::None => Option::None,
        },
        Option::None => Option::None,
    }
}

/// Parse a field.
pub open spec fn p_field(s: Seq<char>, pos: int) -> Option<(FieldV, int)> {
    match p_bool(s, pos) {
        Option::Some((is_public, p1)) => match p_opt_str(s, p1) {
            Option::Some((name, p2)) => match p_ty(s, p2) {
                Option::Some((ty, p3)) => Option::Some((FieldV { is_public, name, ty }, p3)),
                Option::None => Option::None,
            },
            Option::None => Option::None,
        },
        Option::None => Option::None,
    }
}

/// Parse exactly `k` fields.
pub open spec fn p_fields_n(s: Seq<char>, pos: int, k: nat) -> Option<(Seq<FieldV>, int)>
    decreases k,
{
    if k == 0 {
        Option::Some((Seq::empty(), pos))
    } else {
        match p_field(s, pos) {
            Option::Some((f0, p1)) => match p_fields_n(s, p1, (k - 1) as nat) {
                Option::Some((rest, p2)) => Option::Some((seq![f0] + rest, p2)),
                Option::None => Option::None,
            },
            Option::None => Option::None,
        }
    }
}

/// Parse a count-prefixed field list.
pub open spec fn p_fields(s: Seq<char>, pos: int) -> Option<(Seq<FieldV>, int)> {
    match p_len(s, pos) {
        Option::Some((k, p1)) => p_fields_n(s, p1, k),
        Option::None => Option::None,
    }
}

/// Parse a struct node.
pub open spec fn p_struct(s: Seq<char>, pos: int) -> Option<(RsStructV, int)> {
    match p_str(s, pos) {
        Option::Some((name, p1)) => match p_fields(s, p1) {
            Option::Some((fields, p2)) => Option::Some((RsStructV { name, fields }, p2)),
            Option::None => Option::None,
        },
        Option::None => Option::None,
    }
}

/// Parse exactly `k` functions.
pub open spec fn p_functions_n(s: Seq<char>, pos: int, k: nat) -> Option<(Seq<FunctionV>, int)>
    decreases k,
{
    if k == 0 {
        Option::Some((Seq::empty(), pos))
    } else {
        match p_function(s, pos) {
            Option::Some((f0, p1)) => match p_functions_n(s, p1, (k - 1) as nat) {
                Option::Some((rest, p2)) => Option::Some((seq![f0] + rest, p2)),
                Option::None => Option::None,
            },
            Option::None => Option::None,
        }
    }
}

/// Parse a count-prefixed function list.
pub open spec fn p_functions(s: Seq<char>, pos: int) -> Option<(Seq<FunctionV>, int)> {
    match p_len(s, pos) {
        Option::Some((k, p1)) => p_functions_n(s, p1, k),
        Option::None => Option::None,
    }
}

/// Parse an interface node.
pub open spec fn p_interface(s: Seq<char>, pos: int) -> Option<(RsInterfaceV, int)> {
    match p_str(s, pos) {
        Option::Some((name, p1)) => match p_functions(s, p1) {
            Option::Some((functions, p2)) => Option::Some((RsInterfaceV { name, functions }, p2)),
            Option::None => Option::None,
        },
        Option::None => Option::None,
    }
}

/// Decode a whole record payload as a function node.
pub open spec fn dec_function(s: Seq<char>) -> Option<FunctionV> {
    match p_function(s, 0) {
        Option::Some((f, p)) => if p == s.len() {
            Option::Some(f)
        } else {
            Option::None
        },
        Option::None => Option::None,
    }
}

/// Decode a whole record payload as a struct node.
pub open spec fn dec_struct(s: Seq<char>) -> Option<RsStructV> {
    match p_struct(s, 0) {
        Option::Some((st, p)) => if p == s.len() {
            Option::Some(st)
        } else {
            Option::None
        },
        Option::None => Option::None,
    }
}

/// Decode a whole record payload as an interface node.
pub open spec fn dec_interface(s: Seq<char>) -> Option<RsInterfaceV> {
    match p_interface(s, 0) {
        Option::Some((it, p)) => if p == s.len() {
            Option::Some(it)
        } else {
            Option::None
        },
        Option::None => Option::None,
    }
}

// ---------------------------------------------------------------------
// Round-trip laws: decoding an encoding yields the node back.
// ---------------------------------------------------------------------
/// A subrange equal to a concatenation splits into subranges equal to
/// the two parts.
proof fn lemma_split(s: Seq<char>, pos: int, a: Seq<char>, b: Seq<char>)
    requires
        0 <= pos,
        pos + a.len() + b.len() <= s.len(),
        s.subrange(pos, pos + a.len() + b.len()) == a + b,
    ensures
        s.subrange(pos, pos + a.len()) == a,
        s.subrange(pos + a.len(), pos + a.len() + b.len()) == b,
{
    assert forall|i: int| 0 <= i < a.len() implies s.subrange(pos, pos + a.len())[i] == a[i] by {
        assert((a + b)[i] == a[i]);
        assert(s.subrange(pos, pos + a.len() + b.len())[i] == (a + b)[i]);
    }
    assert(s.subrange(pos, pos + a.len()) =~= a);
    assert forall|i: int|
        0 <= i < b.len() implies s.subrange(pos + a.len(), pos + a.len() + b.len())[i] == b[i] by {
        assert((a + b)[a.len() + i] == b[i]);
        assert(s.subrange(pos, pos + a.len() + b.len())[a.len() + i] == (a + b)[a.len() + i]);
    }
    assert(s.subrange(pos + a.len(), pos + a.len() + b.len()) =~= b);
}

proof fn lemma_p_len_enc(s: Seq<char>, pos: int, n: nat)
    requires
        0 <= pos,
        pos + dec_of(n).len() + 1 <= s.len(),
        s.subrange(pos, pos + dec_of(n).len() + 1) == dec_of(n) + ":"@,
    ensures
        p_len(s, pos) == Option::Some((n, pos + dec_of(n).len() + 1)),
{
    reveal_strlit(":");
    let l = dec_of(n).len() as int;
    lemma_split(s, pos, dec_of(n), ":"@);
    assert(s[pos + l] == (":"@)[0]);
    assert(s[pos + l] == ':');
    lemma_dec_of_digits(n);
    assert(!is_digit(':'));
    lemma_scan_dec(s, pos, n);
}

proof fn lemma_p_str_enc(s: Seq<char>, pos: int, v: Seq<char>)
    requires
        0 <= pos,
        pos + enc_str(v).len() <= s.len(),
        s.subrange(pos, pos + enc_str(v).len()) == enc_str(v),
    ensures
        p_str(s, pos) == Option::Some((v, pos + enc_str(v).len())),
{
    reveal_strlit(":");
    let l = dec_of(v.len()).len() as int;
    assert(enc_str(v) =~= (dec_of(v.len()) + ":"@) + v);
    lemma_split(s, pos, dec_of(v.len()) + ":"@, v);
    lemma_p_len_enc(s, pos, v.len());
    assert(p_len(s, pos) == Option::Some((v.len(), pos + l + 1)));
    assert(s.subrange(pos + l + 1, pos + l + 1 + v.len()) == v);
}

proof fn lemma_p_bool_enc(s: Seq<char>, pos: int, b: bool)
    requires
        0 <= pos,
        pos + 1 <= s.len(),
        s.subrange(pos, pos + 1) == enc_bool(b),
    ensures
        p_bool(s, pos) == Option::Some((b, pos + 1)),
        enc_bool(b).len() == 1,
{
    reveal_strlit("T");
    reveal_strlit("F");
    if b {
        assert(s[pos] == ("T"@)[0]);
    } else {
        assert(s[pos] == ("F"@)[0]);
    }
}

proof fn lemma_p_ty_enc(s: Seq<char>, pos: int, t: JniTypeV)
    requires
        0 <= pos,
        pos + enc_ty(t).len() <= s.len(),
        s.subrange(pos, pos + enc_ty(t).len()) == enc_ty(t),
    ensures
        p_ty(s, pos) == Option::Some((t, pos + enc_ty(t).len())),
    decreases t,
{
    reveal_strlit("i");
    reveal_strlit("j");
    reveal_strlit("u");
    reveal_strlit("f");
    reveal_strlit("d");
    reveal_strlit("z");
    reveal_strlit("s");
    reveal_strlit("b");
    reveal_strlit("v");
    reveal_strlit("h");
    reveal_strlit("n");
    reveal_strlit("c");
    reveal_strlit("o");
    match t {
        JniTypeV::ObjectHandle(name) => {
            lemma_split(s, pos, "h"@, enc_str(name));
            assert(s[pos] == ("h"@)[0]);
            lemma_p_str_enc(s, pos + 1, name);
        },
        JniTypeV::NamedType(name) => {
            lemma_split(s, pos, "n"@, enc_str(name));
            assert(s[pos] == ("n"@)[0]);
            lemma_p_str_enc(s, pos + 1, name);
        },
        JniTypeV::CallbackType(name) => {
            lemma_split(s, pos, "c"@, enc_str(name));
            assert(s[pos] == ("c"@)[0]);
            lemma_p_str_enc(s, pos + 1, name);
        },
        JniTypeV::Optional(inner) => {
            lemma_split(s, pos, "o"@, enc_ty(*inner));
            assert(s[pos] == ("o"@)[0]);
            lemma_p_ty_enc(s, pos + 1, *inner);
        },
        _ => {
            assert(s[pos] == enc_ty(t)[0]);
        },
    }
}

proof fn lemma_p_opt_ty_enc(s: Seq<char>, pos: int, o: Option<JniTypeV>)
    requires
        0 <= pos,
        pos + enc_opt_ty(o).len() <= s.len(),
        s.subrange(pos, pos + enc_opt_ty(o).len()) == enc_opt_ty(o),
    ensures
        p_opt_ty(s, pos) == Option::Some((o, pos + enc_opt_ty(o).len())),
{
    reveal_strlit("N");
    reveal_strlit("Y");
    match o {
        Option::None => {
            assert(s[pos] == ("N"@)[0]);
        },
        Option::Some(t) => {
            lemma_split(s, pos, "Y"@, enc_ty(t));
            assert(s[pos] == ("Y"@)[0]);
            lemma_p_ty_enc(s, pos + 1, t);
        },
    }
}

proof fn lemma_p_opt_str_enc(s: Seq<char>, pos: int, o: Option<Seq<char>>)
    requires
        0 <= pos,
        pos + enc_opt_str(o).len() <= s.len(),
        s.subrange(pos, pos + enc_opt_str(o).len()) == enc_opt_str(o),
    ensures
        p_opt_str(s, pos) == Option::Some((o, pos + enc_opt_str(o).len())),
{
    reveal_strlit("N");
    reveal_strlit("Y");
    match o {
        Option::None => {
            assert(s[pos] == ("N"@)[0]);
        },
        Option::Some(v) => {
            lemma_split(s, pos, "Y"@, enc_str(v));
            assert(s[pos] == ("Y"@)[0]);
            lemma_p_str_enc(s, pos + 1, v);
        },
    }
}

proof fn lemma_p_param_enc(s: Seq<char>, pos: int, p: ParameterV)
    requires
        0 <= pos,
        pos + enc_param(p).len() <= s.len(),
        s.subrange(pos, pos + enc_param(p).len()) == enc_param(p),
    ensures
        p_param(s, pos) == Option::Some((p, pos + enc_param(p).len())),
{
    reveal_strlit("t");
    reveal_strlit("r");
    match p {
        ParameterV::Typed { name, ty, is_borrow, is_mutable } => {
            let e1 = enc_str(name);
            let e2 = enc_ty(ty);
            let e3 = enc_bool(is_borrow);
            let e4 = enc_bool(is_mutable);
            assert(e3.len() == 1 && e4.len() == 1) by {
                reveal_strlit("T");
                reveal_strlit("F");
            };
            assert(enc_param(p) =~= "t"@ + (e1 + (e2 + (e3 + e4))));
            lemma_split(s, pos, "t"@, e1 + (e2 + (e3 + e4)));
            assert(s[pos] == ("t"@)[0]);
            lemma_split(s, pos + 1, e1, e2 + (e3 + e4));
            lemma_split(s, pos + 1 + e1.len(), e2, e3 + e4);
            lemma_split(s, pos + 1 + e1.len() + e2.len(), e3, e4);
            lemma_p_str_enc(s, pos + 1, name);
            lemma_p_ty_enc(s, pos + 1 + e1.len(), ty);
            lemma_p_bool_enc(s, pos + 1 + e1.len() + e2.len(), is_borrow);
            lemma_p_bool_enc(s, pos + 1 + e1.len() + e2.len() + e3.len(), is_mutable);
        },
        ParameterV::Receiver { is_mutable } => {
            assert(enc_bool(is_mutable).len() == 1) by {
                reveal_strlit("T");
                reveal_strlit("F");
            };
            lemma_split(s, pos, "r"@, enc_bool(is_mutable));
            assert(s[pos] == ("r"@)[0]);
            lemma_p_bool_enc(s, pos + 1, is_mutable);
        },
    }
}

proof fn lemma_p_params_n_enc(s: Seq<char>, pos: int, ps: Seq<ParameterV>)
    requires
        0 <= pos,
        pos + enc_params_cat(ps).len() <= s.len(),
        s.subrange(pos, pos + enc_params_cat(ps).len()) == enc_params_cat(ps),
    ensures
        p_params_n(s, pos, ps.len()) == Option::Some((ps, pos + enc_params_cat(ps).len())),
    decreases ps.len(),
{
    if ps.len() == 0 {
        assert(ps =~= Seq::<ParameterV>::empty());
    } else {
        let e1 = enc_param(ps.first());
        let e2 = enc_params_cat(ps.drop_first());
        assert(enc_params_cat(ps) == e1 + e2);
        lemma_split(s, pos, e1, e2);
        lemma_p_param_enc(s, pos, ps.first());
        lemma_p_params_n_enc(s, pos + e1.len(), ps.drop_first());
        assert(seq![ps.first()] + ps.drop_first() =~= ps);
    }
}

proof fn lemma_p_params_enc(s: Seq<char>, pos: int, ps: Seq<ParameterV>)
    requires
        0 <= pos,
        pos + enc_params(ps).len() <= s.len(),
        s.subrange(pos, pos + enc_params(ps).len()) == enc_params(ps),
    ensures
        p_params(s, pos) == Option::Some((ps, pos + enc_params(ps).len())),
{
    reveal_strlit(":");
    let l = dec_of(ps.len()).len() as int;
    assert(enc_params(ps) =~= (dec_of(ps.len()) + ":"@) + enc_params_cat(ps));
    lemma_split(s, pos, dec_of(ps.len()) + ":"@, enc_params_cat(ps));
    lemma_p_len_enc(s, pos, ps.len());
    lemma_p_params_n_enc(s, pos + l + 1, ps);
}

proof fn lemma_p_function_enc(s: Seq<char>, pos: int, f: FunctionV)
    requires
        0 <= pos,
        pos + enc_function(f).len() <= s.len(),
        s.subrange(pos, pos + enc_function(f).len()) == enc_function(f),
    ensures
        p_function(s, pos) == Option::Some((f, pos + enc_function(f).len())),
{
    let e1 = enc_str(f.owner_name);
    let e2 = enc_str(f.name);
    let e3 = enc_params(f.parameters);
    let e4 = enc_opt_ty(f.return_type);
    assert(enc_function(f) =~= e1 + (e2 + (e3 + e4)));
    lemma_split(s, pos, e1, e2 + (e3 + e4));
    lemma_split(s, pos + e1.len(), e2, e3 + e4);
    lemma_split(s, pos + e1.len() + e2.len(), e3, e4);
    lemma_p_str_enc(s, pos, f.owner_name);
    lemma_p_str_enc(s, pos + e1.len(), f.name);
    lemma_p_params_enc(s, pos + e1.len() + e2.len(), f.parameters);
    lemma_p_opt_ty_enc(s, pos + e1.len() + e2.len() + e3.len(), f.return_type);
}

proof fn lemma_p_field_enc(s: Seq<char>, pos: int, fd: FieldV)
    requires
        0 <= pos,
        pos + enc_field(fd).len() <= s.len(),
        s.subrange(pos, pos + enc_field(fd).len()) == enc_field(fd),
    ensures
        p_field(s, pos) == Option::Some((fd, pos + enc_field(fd).len())),
{
    let e1 = enc_bool(fd.is_public);
    let e2 = enc_opt_str(fd.name);
    let e3 = enc_ty(fd.ty);
    assert(e1.len() == 1) by {
        reveal_strlit("T");
        reveal_strlit("F");
    };
    assert(enc_field(fd) =~= e1 + (e2 + e3));
    lemma_split(s, pos, e1, e2 + e3);
    lemma_split(s, pos + e1.len(), e2, e3);
    lemma_p_bool_enc(s, pos, fd.is_public);
    lemma_p_opt_str_enc(s, pos + e1.len(), fd.name);
    lemma_p_ty_enc(s, pos + e1.len() + e2.len(), fd.ty);
}

proof fn lemma_p_fields_n_enc(s: Seq<char>, pos: int, fs: Seq<FieldV>)
    requires
        0 <= pos,
        pos + enc_fields_cat(fs).len() <= s.len(),
        s.subrange(pos, pos + enc_fields_cat(fs).len()) == enc_fields_cat(fs),
    ensures
        p_fields_n(s, pos, fs.len()) == Option::Some((fs, pos + enc_fields_cat(fs).len())),
    decreases fs.len(),
{
    if fs.len() == 0 {
        assert(fs =~= Seq::<FieldV>::empty());
    } else {
        let e1 = enc_field(fs.first());
        let e2 = enc_fields_cat(fs.drop_first());
        assert(enc_fields_cat(fs) == e1 + e2);
        lemma_split(s, pos, e1, e2);
        lemma_p_field_enc(s, pos, fs.first());
        lemma_p_fields_n_enc(s, pos + e1.len(), fs.drop_first());
        assert(seq![fs.first()] + fs.drop_first() =~= fs);
    }
}

proof fn lemma_p_fields_enc(s: Seq<char>, pos: int, fs: Seq<FieldV>)
    requires
        0 <= pos,
        pos + enc_fields(fs).len() <= s.len(),
        s.subrange(pos, pos + enc_fields(fs).len()) == enc_fields(fs),
    ensures
        p_fields(s, pos) == Option::Some((fs, pos + enc_fields(fs).len())),
{
    reveal_strlit(":");
    let l = dec_of(fs.len()).len() as int;
    assert(enc_fields(fs) =~= (dec_of(fs.len()) + ":"@) + enc_fields_cat(fs));
    lemma_split(s, pos, dec_of(fs.len()) + ":"@, enc_fields_cat(fs));
    lemma_p_len_enc(s, pos, fs.len());
    lemma_p_fields_n_enc(s, pos + l + 1, fs);
}

proof fn lemma_p_struct_enc(s: Seq<char>, pos: int, st: RsStructV)
    requires
        0 <= pos,
        pos + enc_struct(st).len() <= s.len(),
        s.subrange(pos, pos + enc_struct(st).len()) == enc_struct(st),
    ensures
        p_struct(s, pos) == Option::Some((st, pos + enc_struct(st).len())),
{
    let e1 = enc_str(st.name);
    let e2 = enc_fields(st.fields);
    lemma_split(s, pos, e1, e2);
    lemma_p_str_enc(s, pos, st.name);
    lemma_p_fields_enc(s, pos + e1.len(), st.fields);
}

proof fn lemma_p_functions_n_enc(s: Seq<char>, pos: int, fs: Seq<FunctionV>)
    requires
        0 <= pos,
        pos + enc_functions_cat(fs).len() <= s.len(),
        s.subrange(pos, pos + enc_functions_cat(fs).len()) == enc_functions_cat(fs),
    ensures
        p_functions_n(s, pos, fs.len()) == Option::Some((fs, pos + enc_functions_cat(fs).len())),
    decreases fs.len(),
{
    if fs.len() == 0 {
        assert(fs =~= Seq::<FunctionV>::empty());
    } else {
        let e1 = enc_function(fs.first());
        let e2 = enc_functions_cat(fs.drop_first());
        assert(enc_functions_cat(fs) == e1 + e2);
        lemma_split(s, pos, e1, e2);
        lemma_p_function_enc(s, pos, fs.first());
        lemma_p_functions_n_enc(s, pos + e1.len(), fs.drop_first());
        assert(seq![fs.first()] + fs.drop_first() =~= fs);
    }
}

proof fn lemma_p_interface_enc(s: Seq<char>, pos: int, it: RsInterfaceV)
    requires
        0 <= pos,
        pos + enc_interface(it).len() <= s.len(),
        s.subrange(pos, pos + enc_interface(it).len()) == enc_interface(it),
    ensures
        p_interface(s, pos) == Option::Some((it, pos + enc_interface(it).len())),
{
    reveal_strlit(":");
    let e1 = enc_str(it.name);
    let l = dec_of(it.functions.len()).len() as int;
    assert(enc_interface(it) =~= e1 + ((dec_of(it.functions.len()) + ":"@) + enc_functions_cat(
        it.functions,
    )));
    lemma_split(s, pos, e1, (dec_of(it.functions.len()) + ":"@) + enc_functions_cat(it.functions));
    lemma_p_str_enc(s, pos, it.name);
    lemma_split(
        s,
        pos + e1.len(),
        dec_of(it.functions.len()) + ":"@,
        enc_functions_cat(it.functions),
    );
    lemma_p_len_enc(s, pos + e1.len(), it.functions.len());
    lemma_p_functions_n_enc(s, pos + e1.len() + l + 1, it.functions);
}

/// Decode a whole payload as a wire type.
pub open spec fn dec_ty_whole(s: Seq<char>) -> Option<JniTypeV> {
    match p_ty(s, 0) {
        Option::Some((t, p)) => if p == s.len() {
            Option::Some(t)
        } else {
            Option::None
        },
        Option::None => Option::None,
    }
}

/// Decode a whole payload as a parameter.
pub open spec fn dec_param_whole(s: Seq<char>) -> Option<ParameterV> {
    match p_param(s, 0) {
        Option::Some((p0, p)) => if p == s.len() {
            Option::Some(p0)
        } else {
            Option::None
        },
        Option::None => Option::None,
    }
}

/// Decode a whole payload as a field.
pub open spec fn dec_field_whole(s: Seq<char>) -> Option<FieldV> {
    match p_field(s, 0) {
        Option::Some((f, p)) => if p == s.len() {
            Option::Some(f)
        } else {
            Option::None
        },
        Option::None => Option::None,
    }
}

/// Round trip: decoding the encoding of any wire type yields the type
/// back, structurally equal — nullable, byte-buffer and callback
/// payloads included.
pub proof fn lemma_roundtrip_ty(t: JniTypeV)
    ensures
        dec_ty_whole(enc_ty(t)) == Option::Some(t),
{
    let s = enc_ty(t);
    assert(s.subrange(0, s.len() as int) =~= s);
    lemma_p_ty_enc(s, 0, t);
}

/// Round trip: decoding the encoding of any parameter yields the
/// parameter back, structurally equal.
pub proof fn lemma_roundtrip_param(p: ParameterV)
    ensures
        dec_param_whole(enc_param(p)) == Option::Some(p),
{
    let s = enc_param(p);
    assert(s.subrange(0, s.len() as int) =~= s);
    lemma_p_param_enc(s, 0, p);
}

/// Round trip: decoding the encoding of any field yields the field
/// back, structurally equal.
pub proof fn lemma_roundtrip_field(fd: FieldV)
    ensures
        dec_field_whole(enc_field(fd)) == Option::Some(fd),
{
    let s = enc_field(fd);
    assert(s.subrange(0, s.len() as int) =~= s);
    lemma_p_field_enc(s, 0, fd);
}

/// Round trip: decoding the encoding of any function node yields the
/// node back, structurally equal.
pub proof fn lemma_roundtrip_function(f: FunctionV)
    ensures
        dec_function(enc_function(f)) == Option::Some(f),
{
    let s = enc_function(f);
    assert(s.subrange(0, s.len() as int) =~= s);
    lemma_p_function_enc(s, 0, f);
}

/// Round trip: decoding the encoding of any struct node yields the
/// node back, structurally equal.
pub proof fn lemma_roundtrip_struct(st: RsStructV)
    ensures
        dec_struct(enc_struct(st)) == Option::Some(st),
{
    let s = enc_struct(st);
    assert(s.subrange(0, s.len() as int) =~= s);
    lemma_p_struct_enc(s, 0, st);
}

/// Round trip: decoding the encoding of any interface node yields the
/// node back, structurally equal.
pub proof fn lemma_roundtrip_interface(it: RsInterfaceV)
    ensures
        dec_interface(enc_interface(it)) == Option::Some(it),
{
    let s = enc_interface(it);
    assert(s.subrange(0, s.len() as int) =~= s);
    lemma_p_interface_enc(s, 0, it);
}

// ---------------------------------------------------------------------
// Bounds of the parsers: a successful parse moves forward and stays
// inside the input.
// ---------------------------------------------------------------------
proof fn lemma_p_len_bounds(s: Seq<char>, pos: int)
    requires
        0 <= pos <= s.len(),
    ensures
        p_len(s, pos) matches Option::Some(t) ==> pos < t.1 <= s.len(),
{
}

proof fn lemma_p_str_bounds(s: Seq<char>, pos: int)
    requires
        0 <= pos <= s.len(),
    ensures
        p_str(s, pos) matches Option::Some(t) ==> pos < t.1 <= s.len(),
{
    lemma_p_len_bounds(s, pos);
}

proof fn lemma_p_ty_bounds(s: Seq<char>, pos: int)
    requires
        0 <= pos <= s.len(),
    ensures
        p_ty(s, pos) matches Option::Some(t) ==> pos < t.1 <= s.len(),
    decreases s.len() - pos,
{
    if 0 <= pos < s.len() {
        lemma_p_str_bounds(s, pos + 1);
        lemma_p_ty_bounds(s, pos + 1);
    }
}

proof fn lemma_p_opt_ty_bounds(s: Seq<char>, pos: int)
    requires
        0 <= pos <= s.len(),
    ensures
        p_opt_ty(s, pos) matches Option::Some(t) ==> pos < t.1 <= s.len(),
{
    if 0 <= pos < s.len() {
        lemma_p_ty_bounds(s, pos + 1);
    }
}

proof fn lemma_p_opt_str_bounds(s: Seq<char>, pos: int)
    requires
        0 <= pos <= s.len(),
    ensures
        p_opt_str(s, pos) matches Option::Some(t) ==> pos < t.1 <= s.len(),
{
    if 0 <= pos < s.len() {
        lemma_p_str_bounds(s, pos + 1);
    }
}

proof fn lemma_p_param_bounds(s: Seq<char>, pos: int)
    requires
        0 <= pos <= s.len(),
    ensures
        p_param(s, pos) matches Option::Some(t) ==> pos < t.1 <= s.len(),
{
    if 0 <= pos < s.len() {
        lemma_p_str_bounds(s, pos + 1);
        match p_str(s, pos + 1) {
            Option::Some((name, p1)) => {
                lemma_p_ty_bounds(s, p1);
                match p_ty(s, p1) {
                    Option::Some((ty, p2)) => {
                        lemma_p_bool_bounds(s, p2);
                        match p_bool(s, p2) {
                            Option::Some((b1, p3)) => {
                                lemma_p_bool_bounds(s, p3);
                            },
                            Option::None => {},
                        }
                    },
                    Option::None => {},
                }
            },
            Option::None => {},
        }
        lemma_p_bool_bounds(s, pos + 1);
    }
}

proof fn lemma_p_bool_bounds(s: Seq<char>, pos: int)
    requires
        0 <= pos <= s.len(),
    ensures
        p_bool(s, pos) matches Option::Some(t) ==> pos < t.1 <= s.len(),
{
}

/// Parsing `k` elements consumes at least `k` characters.
proof fn lemma_p_params_n_min(s: Seq<char>, pos: int, k: nat)
    requires
        0 <= pos <= s.len(),
    ensures
        p_params_n(s, pos, k) matches Option::Some(t) ==> pos + k <= t.1 <= s.len(),
    decreases k,
{
    if k > 0 {
        lemma_p_param_bounds(s, pos);
        match p_param(s, pos) {
            Option::Some((p0, p1)) => {
                lemma_p_params_n_min(s, p1, (k - 1) as nat);
            },
            Option::None => {},
        }
    }
}

proof fn lemma_p_field_bounds(s: Seq<char>, pos: int)
    requires
        0 <= pos <= s.len(),
    ensures
        p_field(s, pos) matches Option::Some(t) ==> pos < t.1 <= s.len(),
{
    lemma_p_bool_bounds(s, pos);
    match p_bool(s, pos) {
        Option::Some((b, p1)) => {
            lemma_p_opt_str_bounds(s, p1);
            match p_opt_str(s, p1) {
                Option::Some((name, p2)) => {
                    lemma_p_ty_bounds(s, p2);
                },
                Option::None => {},
            }
        },
        Option::None => {},
    }
}

proof fn lemma_p_fields_n_min(s: Seq<char>, pos: int, k: nat)
    requires
        0 <= pos <= s.len(),
    ensures
        p_fields_n(s, pos, k) matches Option::Some(t) ==> pos + k <= t.1 <= s.len(),
    decreases k,
{
    if k > 0 {
        lemma_p_field_bounds(s, pos);
        match p_field(s, pos) {
            Option::Some((f0, p1)) => {
                lemma_p_fields_n_min(s, p1, (k - 1) as nat);
            },
            Option::None => {},
        }
    }
}

proof fn lemma_p_function_bounds(s: Seq<char>, pos: int)
    requires
        0 <= pos <= s.len(),
    ensures
        p_function(s, pos) matches Option::Some(t) ==> pos < t.1 <= s.len(),
{
    lemma_p_str_bounds(s, pos);
    match p_str(s, pos) {
        Option::Some((o, p1)) => {
            lemma_p_str_bounds(s, p1);
            match p_str(s, p1) {
                Option::Some((nm, p2)) => {
                    lemma_p_len_bounds(s, p2);
                    match p_len(s, p2) {
                        Option::Some((k, p3)) => {
                            lemma_p_params_n_min(s, p3, k);
                            match p_params_n(s, p3, k) {
                                Option::Some((ps, p4)) => {
                                    lemma_p_opt_ty_bounds(s, p4);
                                },
                                Option::None => {},
                            }
                        },
                        Option::None => {},
                    }
                },
                Option::None => {},
            }
        },
        Option::None => {},
    }
}

proof fn lemma_p_functions_n_min(s: Seq<char>, pos: int, k: nat)
    requires
        0 <= pos <= s.len(),
    ensures
        p_functions_n(s, pos, k) matches Option::Some(t) ==> pos + k <= t.1 <= s.len(),
    decreases k,
{
    if k > 0 {
        lemma_p_function_bounds(s, pos);
        match p_function(s, pos) {
            Option::Some((f0, p1)) => {
                lemma_p_functions_n_min(s, p1, (k - 1) as nat);
            },
            Option::None => {},
        }
    }
}

// ---------------------------------------------------------------------
// Decoding, executable.
// ---------------------------------------------------------------------
/// Read a length-prefixed string out of the characters.
fn p_str_exec(v: &Vec<char>, pos: usize) -> (r: Option<(String, usize)>)
    requires
        pos <= v@.len(),
    ensures
        match r {
            Option::Some(t) => p_str(v@, pos as int) == Option::Some((t.0@, t.1 as int)) && t.1
                <= v@.len(),
            Option::None => p_str(v@, pos as int) is None,
        },
{
    let total: usize = v.len();
    match scan_digits_exec(v, pos) {
        Option::None => {
            proof {
                crate::strutil::lemma_scan_bounds(v@, pos as int, 0);
                assert(v@.len() == total as int);
            }
            Option::None
        },
        Option::Some((n, end)) => {
            if end > pos && end < v.len() {
                if v[end] == ':' {
                    let p1 = end + 1;
                    let avail: usize = v.len() - p1;
                    if n <= avail as u64 {
                        let nn = n as usize;
                        let sub = crate::strutil::subvec_chars(v, p1, p1 + nn);
                        let out = crate::strutil::chars_to_string(&sub);
                        Option::Some((out, p1 + nn))
                    } else {
                        Option::None
                    }
                } else {
                    Option::None
                }
            } else {
                Option::None
            }
        },
    }
}

/// Read a truth value.
fn p_bool_exec(v: &Vec<char>, pos: usize) -> (r: Option<(bool, usize)>)
    requires
        pos <= v@.len(),
    ensures
        match r {
            Option::Some(t) => p_bool(v@, pos as int) == Option::Some((t.0, t.1 as int)) && t.1
                <= v@.len(),
            Option::None => p_bool(v@, pos as int) is None,
        },
{
    if pos < v.len() {
        let c = v[pos];
        if c == 'T' {
            Option::Some((true, pos + 1))
        } else if c == 'F' {
            Option::Some((false, pos + 1))
        } else {
            Option::None
        }
    } else {
        Option::None
    }
}

/// Read a wire type.
fn p_ty_exec(v: &Vec<char>, pos: usize) -> (r: Option<(JniType, usize)>)
    requires
        pos <= v@.len(),
    ensures
        match r {
            Option::Some(t) => p_ty(v@, pos as int) == Option::Some((t.0@, t.1 as int)) && t.1
                <= v@.len(),
            Option::None => p_ty(v@, pos as int) is None,
        },
    decreases v@.len() - pos,
{
    if pos < v.len() {
        let c = v[pos];
        if c == 'i' {
            Option::Some((JniType::Int32, pos + 1))
        } else if c == 'j' {
            Option::Some((JniType::Int64, pos + 1))
        } else if c == 'u' {
            Option::Some((JniType::UInt64, pos + 1))
        } else if c == 'f' {
            Option::Some((JniType::Float32, pos + 1))
        } else if c == 'd' {
            Option::Some((JniType::Float64, pos + 1))
        } else if c == 'z' {
            Option::Some((JniType::Bool, pos + 1))
        } else if c == 's' {
            Option::Some((JniType::Utf8String, pos + 1))
        } else if c == 'b' {
            Option::Some((JniType::ByteBuffer, pos + 1))
        } else if c == 'v' {
            Option::Some((JniType::Void, pos + 1))
        } else if c == 'h' {
            match p_str_exec(v, pos + 1) {
                Option::Some((name, p)) => Option::Some((JniType::ObjectHandle(name), p)),
                Option::None => Option::None,
            }
        } else if c == 'n' {
            match p_str_exec(v, pos + 1) {
                Option::Some((name, p)) => Option::Some((JniType::NamedType(name), p)),
                Option::None => Option::None,
            }
        } else if c == 'c' {
            match p_str_exec(v, pos + 1) {
                Option::Some((name, p)) => Option::Some((JniType::CallbackType(name), p)),
                Option::None => Option::None,
            }
        } else if c == 'o' {
            match p_ty_exec(v, pos + 1) {
                Option::Some((inner, p)) => Option::Some((JniType::Optional(Box::new(inner)), p)),
                Option::None => Option::None,
            }
        } else {
            Option::None
        }
    } else {
        Option::None
    }
}

/// Read an optional wire type.
fn p_opt_ty_exec(v: &Vec<char>, pos: usize) -> (r: Option<(Option<JniType>, usize)>)
    requires
        pos <= v@.len(),
    ensures
        match r {
            Option::Some(t) => ({
                let m = match t.0 {
                    Option::Some(ty) => Option::Some(ty@),
                    Option::None => Option::None,
                };
                p_opt_ty(v@, pos as int) == Option::Some((m, t.1 as int)) && t.1 <= v@.len()
            }),
            Option::None => p_opt_ty(v@, pos as int) is None,
        },
{
    if pos < v.len() {
        let c = v[pos];
        if c == 'N' {
            Option::Some((Option::None, pos + 1))
        } else if c == 'Y' {
            match p_ty_exec(v, pos + 1) {
                Option::Some((t, p)) => Option::Some((Option::Some(t), p)),
                Option::None => Option::None,
            }
        } else {
            Option::None
        }
    } else {
        Option::None
    }
}

/// Read an optional string.
fn p_opt_str_exec(v: &Vec<char>, pos: usize) -> (r: Option<(Option<String>, usize)>)
    requires
        pos <= v@.len(),
    ensures
        match r {
            Option::Some(t) => ({
                let m = match t.0 {
                    Option::Some(sv) => Option::Some(sv@),
                    Option::None => Option::None,
                };
                p_opt_str(v@, pos as int) == Option::Some((m, t.1 as int)) && t.1 <= v@.len()
            }),
            Option::None => p_opt_str(v@, pos as int) is None,
        },
{
    if pos < v.len() {
        let c = v[pos];
        if c == 'N' {
            Option::Some((Option::None, pos + 1))
        } else if c == 'Y' {
            match p_str_exec(v, pos + 1) {
                Option::Some((sv, p)) => Option::Some((Option::Some(sv), p)),
                Option::None => Option::None,
            }
        } else {
            Option::None
        }
    } else {
        Option::None
    }
}

/// Read a parameter.
fn p_param_exec(v: &Vec<char>, pos: usize) -> (r: Option<(Parameter, usize)>)
    requires
        pos <= v@.len(),
    ensures
        match r {
            Option::Some(t) => p_param(v@, pos as int) == Option::Some((t.0@, t.1 as int)) && t.1
                <= v@.len(),
            Option::None => p_param(v@, pos as int) is None,
        },
{
    if pos < v.len() {
        let c = v[pos];
        if c == 't' {
            match p_str_exec(v, pos + 1) {
                Option::Some((name, p1)) => match p_ty_exec(v, p1) {
                    Option::Some((ty, p2)) => match p_bool_exec(v, p2) {
                        Option::Some((is_borrow, p3)) => match p_bool_exec(v, p3) {
                            Option::Some((is_mutable, p4)) => Option::Some(
                                (Parameter::Typed { name, ty, is_borrow, is_mutable }, p4),
                            ),
                            Option::None => Option::None,
                        },
                        Option::None => Option::None,
                    },
                    Option::None => Option::None,
                },
                Option::None => Option::None,
            }
        } else if c == 'r' {
            match p_bool_exec(v, pos + 1) {
                Option::Some((is_mutable, p1)) => Option::Some(
                    (Parameter::Receiver { is_mutable }, p1),
                ),
                Option::None => Option::None,
            }
        } else {
            Option::None
        }
    } else {
        Option::None
    }
}

/// Read a count-prefixed parameter list.
fn p_params_exec(v: &Vec<char>, pos: usize) -> (r: Option<(Vec<Parameter>, usize)>)
    requires
        pos <= v@.len(),
    ensures
        match r {
            Option::Some(t) => p_params(v@, pos as int) == Option::Some(
                (t.0.deep_view(), t.1 as int),
            ) && t.1 <= v@.len(),
            Option::None => p_params(v@, pos as int) is None,
        },
{
    let total: usize = v.len();
    match scan_digits_exec(v, pos) {
        Option::None => {
            proof {
                crate::strutil::lemma_scan_bounds(v@, pos as int, 0);
                assert(v@.len() == total as int);
                match p_len(v@, pos as int) {
                    Option::Some((k, p1)) => {
                        lemma_p_params_n_min(v@, p1, k);
                    },
                    Option::None => {},
                }
            }
            Option::None
        },
        Option::Some((k, end)) => {
            if end > pos && end < v.len() {
                if v[end] == ':' {
                    let p1 = end + 1;
                    if k > (v.len() - p1) as u64 {
                        proof {
                            lemma_p_params_n_min(v@, p1 as int, k as nat);
                        }
                        return Option::None;
                    }
                    let kk = k as usize;
                    let mut ps: Vec<Parameter> = Vec::new();
                    let mut cur: usize = p1;
                    let mut i: usize = 0;
                    proof {
                        assert(ps.deep_view() =~= Seq::<ParameterV>::empty());
                    }
                    while i < kk
                        invariant
                            i <= kk,
                            cur <= v@.len(),
                            p_len(v@, pos as int) == Option::Some((kk as nat, p1 as int)),
                            p_params_n(v@, p1 as int, kk as nat) == (match p_params_n(
                                v@,
                                cur as int,
                                (kk - i) as nat,
                            ) {
                                Option::Some(t2) => Option::Some(
                                    (ps.deep_view() + t2.0, t2.1),
                                ),
                                Option::None => Option::None,
                            }),
                        decreases kk - i,
                    {
                        let ghost old_dv = ps.deep_view();
                        match p_param_exec(v, cur) {
                            Option::Some((p0, np)) => {
                                ps.push(p0);
                                proof {
                                    assert(ps.deep_view() =~= old_dv.push(p0@));
                                    let rem = p_params_n(v@, np as int, (kk - i - 1) as nat);
                                    match rem {
                                        Option::Some(t2) => {
                                            assert(old_dv + (seq![p0@] + t2.0) =~= ps.deep_view()
                                                + t2.0);
                                        },
                                        Option::None => {},
                                    }
                                }
                                cur = np;
                                i = i + 1;
                            },
                            Option::None => {
                                proof {
                                    assert(p_param(v@, cur as int) is None);
                                    assert(p_params_n(v@, cur as int, (kk - i) as nat) is None);
                                    assert(p_params_n(v@, p1 as int, kk as nat) is None);
                                }
                                return Option::None;
                            },
                        }
                    }
                    proof {
                        assert(p_params_n(v@, cur as int, 0) == Option::Some(
                            (Seq::<ParameterV>::empty(), cur as int),
                        ));
                        assert(ps.deep_view() + Seq::<ParameterV>::empty() =~= ps.deep_view());
                    }
                    Option::Some((ps, cur))
                } else {
                    Option::None
                }
            } else {
                Option::None
            }
        },
    }
}

/// Read a function node.
fn p_function_exec(v: &Vec<char>, pos: usize) -> (r: Option<(Function, usize)>)
    requires
        pos <= v@.len(),
    ensures
        match r {
            Option::Some(t) => p_function(v@, pos as int) == Option::Some((t.0@, t.1 as int))
                && t.1 <= v@.len(),
            Option::None => p_function(v@, pos as int) is None,
        },
{
    match p_str_exec(v, pos) {
        Option::Some((owner_name, p1)) => match p_str_exec(v, p1) {
            Option::Some((name, p2)) => match p_params_exec(v, p2) {
                Option::Some((parameters, p3)) => match p_opt_ty_exec(v, p3) {
                    Option::Some((return_type, p4)) => Option::Some(
                        (Function { owner_name, name, parameters, return_type }, p4),
                    ),
                    Option::None => Option::None,
                },
                Option::None => Option::None,
            },
            Option::None => Option::None,
        },
        Option::None => Option::None,
    }
}

/// Read a field.
fn p_field_exec(v: &Vec<char>, pos: usize) -> (r: Option<(Field, usize)>)
    requires
        pos <= v@.len(),
    ensures
        match r {
            Option::Some(t) => p_field(v@, pos as int) == Option::Some((t.0@, t.1 as int)) && t.1
                <= v@.len(),
            Option::None => p_field(v@, pos as int) is None,
        },
{
    match p_bool_exec(v, pos) {
        Option::Some((is_public, p1)) => match p_opt_str_exec(v, p1) {
            Option::Some((name, p2)) => match p_ty_exec(v, p2) {
                Option::Some((ty, p3)) => Option::Some((Field { is_public, name, ty }, p3)),
                Option::None => Option::None,
            },
            Option::None => Option::None,
        },
        Option::None => Option::None,
    }
}

/// Read a struct node.
fn p_struct_exec(v: &Vec<char>, pos: usize) -> (r: Option<(RsStruct, usize)>)
    requires
        pos <= v@.len(),
    ensures
        match r {
            Option::Some(t) => p_struct(v@, pos as int) == Option::Some((t.0@, t.1 as int)) && t.1
                <= v@.len(),
            Option::None => p_struct(v@, pos as int) is None,
        },
{
    let name = match p_str_exec(v, pos) {
        Option::Some(t) => t,
        Option::None => {
            return Option::None;
        },
    };
    let p0 = name.1;
    let total: usize = v.len();
    match scan_digits_exec(v, p0) {
        Option::None => {
            proof {
                crate::strutil::lemma_scan_bounds(v@, p0 as int, 0);
                assert(v@.len() == total as int);
                match p_len(v@, p0 as int) {
                    Option::Some((k, p1)) => {
                        lemma_p_fields_n_min(v@, p1, k);
                    },
                    Option::None => {},
                }
            }
            Option::None
        },
        Option::Some((k, end)) => {
            if end > p0 && end < v.len() {
                if v[end] == ':' {
                    let p1 = end + 1;
                    if k > (v.len() - p1) as u64 {
                        proof {
                            lemma_p_fields_n_min(v@, p1 as int, k as nat);
                        }
                        return Option::None;
                    }
                    let kk = k as usize;
                    let mut fs: Vec<Field> = Vec::new();
                    let mut cur: usize = p1;
                    let mut i: usize = 0;
                    proof {
                        assert(fs.deep_view() =~= Seq::<FieldV>::empty());
                    }
                    while i < kk
                        invariant
                            i <= kk,
                            cur <= v@.len(),
                            p_str(v@, pos as int) == Option::Some((name.0@, p0 as int)),
                            p_len(v@, p0 as int) == Option::Some((kk as nat, p1 as int)),
                            p_fields_n(v@, p1 as int, kk as nat) == (match p_fields_n(
                                v@,
                                cur as int,
                                (kk - i) as nat,
                            ) {
                                Option::Some(t2) => Option::Some((fs.deep_view() + t2.0, t2.1)),
                                Option::None => Option::None,
                            }),
                        decreases kk - i,
                    {
                        let ghost old_dv = fs.deep_view();
                        match p_field_exec(v, cur) {
                            Option::Some((f0, np)) => {
                                fs.push(f0);
                                proof {
                                    assert(fs.deep_view() =~= old_dv.push(f0@));
                                    let rem = p_fields_n(v@, np as int, (kk - i - 1) as nat);
                                    match rem {
                                        Option::Some(t2) => {
                                            assert(old_dv + (seq![f0@] + t2.0) =~= fs.deep_view()
                                                + t2.0);
                                        },
                                        Option::None => {},
                                    }
                                }
                                cur = np;
                                i = i + 1;
                            },
                            Option::None => {
                                proof {
                                    assert(p_field(v@, cur as int) is None);
                                    assert(p_fields_n(v@, cur as int, (kk - i) as nat) is None);
                                    assert(p_fields_n(v@, p1 as int, kk as nat) is None);
                                }
                                return Option::None;
                            },
                        }
                    }
                    proof {
                        assert(p_fields_n(v@, cur as int, 0) == Option::Some(
                            (Seq::<FieldV>::empty(), cur as int),
                        ));
                        assert(fs.deep_view() + Seq::<FieldV>::empty() =~= fs.deep_view());
                    }
                    Option::Some((RsStruct { name: name.0, fields: fs }, cur))
                } else {
                    Option::None
                }
            } else {
                Option::None
            }
        },
    }
}

/// Read an interface node.
fn p_interface_exec(v: &Vec<char>, pos: usize) -> (r: Option<(RsInterface, usize)>)
    requires
        pos <= v@.len(),
    ensures
        match r {
            Option::Some(t) => p_interface(v@, pos as int) == Option::Some((t.0@, t.1 as int))
                && t.1 <= v@.len(),
            Option::None => p_interface(v@, pos as int) is None,
        },
{
    let name = match p_str_exec(v, pos) {
        Option::Some(t) => t,
        Option::None => {
            return Option::None;
        },
    };
    let p0 = name.1;
    let total: usize = v.len();
    match scan_digits_exec(v, p0) {
        Option::None => {
            proof {
                crate::strutil::lemma_scan_bounds(v@, p0 as int, 0);
                assert(v@.len() == total as int);
                match p_len(v@, p0 as int) {
                    Option::Some((k, p1)) => {
                        lemma_p_functions_n_min(v@, p1, k);
                    },
                    Option::None => {},
                }
            }
            Option::None
        },
        Option::Some((k, end)) => {
            if end > p0 && end < v.len() {
                if v[end] == ':' {
                    let p1 = end + 1;
                    if k > (v.len() - p1) as u64 {
                        proof {
                            lemma_p_functions_n_min(v@, p1 as int, k as nat);
                        }
                        return Option::None;
                    }
                    let kk = k as usize;
                    let mut fs: Vec<Function> = Vec::new();
                    let mut cur: usize = p1;
                    let mut i: usize = 0;
                    proof {
                        assert(fs.deep_view() =~= Seq::<FunctionV>::empty());
                    }
                    while i < kk
                        invariant
                            i <= kk,
                            cur <= v@.len(),
                            p_str(v@, pos as int) == Option::Some((name.0@, p0 as int)),
                            p_len(v@, p0 as int) == Option::Some((kk as nat, p1 as int)),
                            p_functions_n(v@, p1 as int, kk as nat) == (match p_functions_n(
                                v@,
                                cur as int,
                                (kk - i) as nat,
                            ) {
                                Option::Some(t2) => Option::Some((fs.deep_view() + t2.0, t2.1)),
                                Option::None => Option::None,
                            }),
                        decreases kk - i,
                    {
                        let ghost old_dv = fs.deep_view();
                        match p_function_exec(v, cur) {
                            Option::Some((f0, np)) => {
                                fs.push(f0);
                                proof {
                                    assert(fs.deep_view() =~= old_dv.push(f0@));
                                    let rem = p_functions_n(v@, np as int, (kk - i - 1) as nat);
                                    match rem {
                                        Option::Some(t2) => {
                                            assert(old_dv + (seq![f0@] + t2.0) =~= fs.deep_view()
                                                + t2.0);
                                        },
                                        Option::None => {},
                                    }
                                }
                                cur = np;
                                i = i + 1;
                            },
                            Option::None => {
                                proof {
                                    assert(p_function(v@, cur as int) is None);
                                    assert(p_functions_n(v@, cur as int, (kk - i) as nat) is None);
                                    assert(p_functions_n(v@, p1 as int, kk as nat) is None);
                                }
                                return Option::None;
                            },
                        }
                    }
                    proof {
                        assert(p_functions_n(v@, cur as int, 0) == Option::Some(
                            (Seq::<FunctionV>::empty(), cur as int),
                        ));
                        assert(fs.deep_view() + Seq::<FunctionV>::empty() =~= fs.deep_view());
                    }
                    Option::Some((RsInterface { name: name.0, functions: fs }, cur))
                } else {
                    Option::None
                }
            } else {
                Option::None
            }
        },
    }
}

/// Decode a record payload as a function node; the whole payload must
/// be consumed.
pub fn decode_function(text: &str) -> (r: Option<Function>)
    ensures
        match r {
            Option::Some(f) => dec_function(text@) == Option::Some(f@),
            Option::None => dec_function(text@) is None,
        },
{
    let chars = crate::strutil::str_to_chars(text);
    match p_function_exec(&chars, 0) {
        Option::Some((f, p)) => {
            if p == chars.len() {
                Option::Some(f)
            } else {
                Option::None
            }
        },
        Option::None => Option::None,
    }
}

/// Decode a record payload as a struct node; the whole payload must be
/// consumed.
pub fn decode_struct(text: &str) -> (r: Option<RsStruct>)
    ensures
        match r {
            Option::Some(st) => dec_struct(text@) == Option::Some(st@),
            Option::None => dec_struct(text@) is None,
        },
{
    let chars = crate::strutil::str_to_chars(text);
    match p_struct_exec(&chars, 0) {
        Option::Some((st, p)) => {
            if p == chars.len() {
                Option::Some(st)
            } else {
                Option::None
            }
        },
        Option::None => Option::None,
    }
}

/// Decode a record payload as an interface node; the whole payload
/// must be consumed.
pub fn decode_interface(text: &str) -> (r: Option<RsInterface>)
    ensures
        match r {
            Option::Some(it) => dec_interface(text@) == Option::Some(it@),
            Option::None => dec_interface(text@) is None,
        },
{
    let chars = crate::strutil::str_to_chars(text);
    match p_interface_exec(&chars, 0) {
        Option::Some((it, p)) => {
            if p == chars.len() {
                Option::Some(it)
            } else {
                Option::None
            }
        },
        Option::None => Option::None,
    }
}

} // verus!
