//! Generator core for bridging native Rust declarations to a JVM-hosted
//! language across the JNI boundary: an intermediate representation of
//! classes, data classes, interfaces and functions, a type mapper from
//! source type text to boundary-safe wire types, descriptor and
//! marshaling-code emitters, and a tagged record protocol that lets a
//! second stage recover the representation from emitted source text.

pub mod codec;
pub mod descriptor;
pub mod emit;
pub mod expand;
pub mod extract;
pub mod functions;
pub mod interface;
pub mod ir;
pub mod marshal;
pub mod names;
pub mod render;
pub mod scan;
pub mod structs;
pub mod strutil;
pub mod type_mapper;
