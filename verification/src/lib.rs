//! A dynamic value tree for configuration data, a parser for the
//! `key=value` command grammar, and the bridge that turns typed data into
//! value trees.

pub mod adaptor;
pub mod errors;
pub mod prelude;
pub mod text;
pub mod value;

pub use crate::errors::Error;
pub use crate::value::{Table, Value};
