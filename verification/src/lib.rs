//! A verified core of the Rhai scripting engine.
use vstd::prelude::*;

pub mod ast;
pub mod custom_syntax;
pub mod dynamic;
pub mod engine;
pub mod entries;
pub mod error;
pub mod eval;
pub mod error_parsing;
pub mod fn_builtin;
pub mod fn_hash;
pub mod fn_native;
pub mod fn_ptr;
pub mod immutable_string;
pub mod map;
pub mod module;
pub mod optimize;
pub mod packages;
pub mod parse;
pub mod position;
pub mod scope;
pub mod serde;
pub mod static_vec;
pub mod text;
pub mod token;

verus! {

/// The system integer type.
pub type INT = i64;

} // verus!
