//! Binds a configuration schema to values from an environment-like source.
//!
//! A field is bound by its `Rule`: the text under its key is parsed, or a
//! default in its place, or the load fails where a required field has
//! neither. A `Schema` binds its fields in order and stops at the first
//! error. The source is an `Env` that the caller fills; a dotenv file is
//! merged into it beneath the values that it holds already.

pub mod attr;
pub mod dotenv;
pub mod env;
pub mod error;
pub mod field;
pub mod from_env;
pub mod integers;
pub mod laws;
pub mod number;
pub mod parse;
pub mod scalar;
pub mod schema;
pub mod tagged;
pub mod text;
pub mod value;

pub use dotenv::{load_env_file, load_env_file_iter, FileRead, Line, Preload};
pub use env::Env;
pub use error::{CfgError, ParseCause};
pub use field::{get_env, Rule};
pub use from_env::{first_of, load_or_default, FromEnv};
pub use parse::{parse_scalar, parse_vec};
pub use scalar::Scalar;
pub use schema::{FieldKind, FieldSpec, Schema};
pub use tagged::ScalarType;
pub use value::{Bound, Config, ScalarValue, Value};
