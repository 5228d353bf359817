//! Declarative configuration binding.
//!
//! Every configuration field names a source (an environment variable or a
//! command-line flag), says whether it is required, and gives the type its
//! text is parsed into. Initialization visits every field, parses what it
//! finds, and returns either every value or every problem at once.
pub mod args;
pub mod conf;
pub mod error;
pub mod parse;
pub mod value;

pub use args::{build_arg_map_from_vec, has_arg_prefix, ArgMap, StrMap};
pub use conf::{init, resolve_field, FieldDescriptor, FieldValue, SourceKind, ValueType};
pub use error::{ConfError, ConfErrors, MissingField, ParseError};
pub use parse::{
    err_to_parse_err, from_cli_arg, from_env_var, optional_from_cli_arg, optional_from_env_var,
    EnvVars,
};
pub use value::ConfValue;
