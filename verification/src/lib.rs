//! Type-directed conversion between schema-less documents and typed interface values.
//!
//! A [`document::Document`] is what JSON or YAML text denotes: null, booleans, numbers, text,
//! lists and objects. A [`value::TypedValue`] is a value of an interface description language:
//! numbers of a given width, options, vectors, records, variants and references. A
//! [`types::Type`] says which typed values there are, and a [`types::TypeEnv`] gives the named
//! types their meaning.
//!
//! [`json2idl`] converts a document to a typed value by a type, and says why where it cannot.
//! [`idl2json`] shows a typed value as a document, by a type or by the shape of the value alone,
//! and never fails. [`laws`] proves what the two have to do with each other: a value that is
//! shown by its type comes back from the document, a value that a document converts to is of
//! the type, a failure names what is missing or unknown exactly where something is, and no name
//! is unknown in a closed environment.
//! [`typing`] says which values are of which type, [`closed`] tells the environments in which
//! every name has a meaning, and [`cli`] decides which type a command line asks for.
//!
//! Text is read and written elsewhere: this crate works on the trees.

pub mod cli;
pub mod closed;
pub mod decimal;
pub mod document;
pub mod error;
pub mod hash;
pub mod hex;
pub mod idl2json;
pub mod json2idl;
pub mod laws;
pub mod principal;
pub mod types;
pub mod typing;
pub mod value;

pub use crate::cli::{main_idl2json, main_json2idl, Args, Json2IdlArgs};
pub use crate::idl2json::{
    idl2json, idl2json_with_weak_names, idl_args2json_with_weak_names, BytesFormat,
    Idl2JsonOptions,
};
pub use crate::json2idl::{
    json2idl_with_type, json2idl_with_type_name, json_args2idl_with_types,
};
