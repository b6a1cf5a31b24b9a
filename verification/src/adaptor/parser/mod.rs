//! Parsers from text to values.

use crate::errors::Error;
use crate::text::trimmed;
use vstd::prelude::*;

pub mod cmd;
pub mod json;

verus! {

/// A grammar that turns one text into one item.
pub trait Parser {
    /// What the grammar produces.
    type Item;

    /// Parses `args`, ignoring whitespace around it. A failure is a parse
    /// error that carries the text without that whitespace.
    fn parse(args: &str) -> (r: Result<Self::Item, Error>)
        ensures
            r matches Err(e) ==> e@ is Parse && e@->input == trimmed(args@),
    ;
}

} // verus!
