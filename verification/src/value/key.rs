//! Conversion of texts, integers and expressions into key expressions.

use crate::errors::{Error, ErrorView};
use crate::text::{decimal_string, decimal_text};
use crate::value::expr::{parse_path, yields, Expression};
use vstd::prelude::*;

verus! {

/// A value that can address an entry of a value tree.
pub trait Key {
    /// What the value converts to: the segments of a path, or the error that
    /// says why it is none.
    spec fn as_key(&self) -> Result<Seq<Seq<char>>, ErrorView>;

    /// Converts the value into a key expression.
    fn to_key(&self) -> (r: Result<Expression, Error>)
        ensures
            yields(r, self.as_key()),
    ;
}

/// A string slice is parsed as a dotted path.
impl Key for &str {
    open spec fn as_key(&self) -> Result<Seq<Seq<char>>, ErrorView> {
        parse_path(self@)
    }

    fn to_key(&self) -> (r: Result<Expression, Error>) {
        Expression::parse(self)
    }
}

/// A string is parsed as a dotted path.
impl Key for String {
    open spec fn as_key(&self) -> Result<Seq<Seq<char>>, ErrorView> {
        parse_path(self@)
    }

    fn to_key(&self) -> (r: Result<Expression, Error>) {
        Expression::parse(self.as_str())
    }
}

/// An integer is the name that its decimal text spells: a named segment, not
/// an index.
impl Key for isize {
    open spec fn as_key(&self) -> Result<Seq<Seq<char>>, ErrorView> {
        Ok(seq![decimal_text(*self as int)])
    }

    fn to_key(&self) -> (r: Result<Expression, Error>) {
        Ok(Expression::Identifier(decimal_string(*self)))
    }
}

/// An expression is its own key.
impl Key for Expression {
    open spec fn as_key(&self) -> Result<Seq<Seq<char>>, ErrorView> {
        Ok(self@)
    }

    fn to_key(&self) -> (r: Result<Expression, Error>) {
        Ok(self.clone())
    }
}

/// A borrowed expression is its own key.
impl Key for &Expression {
    open spec fn as_key(&self) -> Result<Seq<Seq<char>>, ErrorView> {
        Ok(self@)
    }

    fn to_key(&self) -> (r: Result<Expression, Error>) {
        Ok((*self).clone())
    }
}

} // verus!
