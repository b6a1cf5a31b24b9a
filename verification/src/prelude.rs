//! The names that most users of the crate need.

pub use crate::adaptor::parser::cmd::CmdParser;
pub use crate::adaptor::parser::json::JsonParser;
pub use crate::adaptor::parser::Parser;
pub use crate::errors::Error;
pub use crate::value::expr::Expression;
pub use crate::value::key::Key;
pub use crate::value::ser::ValueSerializer;
pub use crate::value::{Table, Value};
