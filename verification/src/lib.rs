//! Descriptions of remote method params for `rpc.discover`, built from what
//! reflection tells about the params types, and the untyped JSON that
//! params may carry.
//!
//! - [`type_info`]: reflected types as plain values, numbered in a [`TypeTable`].
//! - [`json_value`]: JSON values, with objects as maps.
//! - [`params`]: the schema of a type, and the `OpenRPC` params and result of a method.
//! - [`json`]: untyped JSON params, and the errors that reading them gives.
//! - [`text`]: the text helpers that doc comments and numbers need.
//! - [`laws`]: what holds of every schema.
//! - [`doc_laws`]: what holds of every cleaned doc comment.

pub mod doc_laws;
pub mod error_codes;
pub mod json;
pub mod json_value;
pub mod laws;
pub mod params;
pub mod text;
pub mod type_info;

pub use json::{BrpError, Json};
pub use json_value::{JsonObject, JsonValue};
pub use params::{
    clean_docs, method_description, method_params, method_result, newtype_field, nullable,
    option_inner, takes_no_params, Parameter,
};
pub use type_info::{
    NamedField, Registration, TypeInfo, TypeKind, TypeRegistry, TypeTable, UnnamedField,
    VariantInfo,
};
