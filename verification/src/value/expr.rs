//! Key expressions: the parsed form of a lookup path.

use crate::errors::{Error, ErrorView};
use crate::text::{chars_of, scan, scan_run, segments, split_segments, texts_of, CharClass};
use vstd::prelude::*;

verus! {

/// A lookup path: one named segment, or a path followed by one more named
/// segment.
#[derive(Debug)]
pub enum Expression {
    /// A single named segment.
    Identifier(String),
    /// The segment `.1` below the path `.0`.
    Child(Box<Expression>, String),
}

impl View for Expression {
    /// The segments of the path, outermost first; there is at least one.
    type V = Seq<Seq<char>>;

    open spec fn view(&self) -> Seq<Seq<char>> {
        self.path()
    }
}

impl Expression {
    /// The segments of the path, outermost first.
    pub open spec fn path(&self) -> Seq<Seq<char>>
        decreases self,
    {
        match self {
            Expression::Identifier(name) => seq![name@],
            Expression::Child(parent, name) => parent.path().push(name@),
        }
    }
}

/// Whether `segment` is a name: one or more alphanumeric characters or
/// underscores.
pub open spec fn is_identifier(segment: Seq<char>) -> bool {
    segment.len() > 0 && scan(segment, 0, CharClass::Identifier) == segment.len()
}

/// The position of the first of `parts` from `from` on that is no name, or
/// the number of parts where all are names.
pub open spec fn first_fault(parts: Seq<Seq<char>>, from: int) -> int
    decreases parts.len() - from,
{
    if 0 <= from < parts.len() && is_identifier(parts[from]) {
        first_fault(parts, from + 1)
    } else {
        from
    }
}

/// What is wrong with a segment that is no name.
pub open spec fn fault_message(segment: Seq<char>) -> Seq<char> {
    if segment.len() == 0 {
        "empty segment in key"@
    } else {
        "invalid character in key"@
    }
}

/// What a key text parses to: its segments between the dots where each of
/// them is a name, else an error that names the text and says what is wrong
/// with the first segment that is none.
pub open spec fn parse_path(text: Seq<char>) -> Result<Seq<Seq<char>>, ErrorView> {
    let parts = segments(text, 0);
    let fault = first_fault(parts, 0);
    if fault >= parts.len() {
        Ok(parts)
    } else {
        Err(ErrorView::Key { key: text, message: fault_message(parts[fault]) })
    }
}

/// Whether `r` is the outcome that `expected` describes.
pub open spec fn yields(r: Result<Expression, Error>, expected: Result<Seq<Seq<char>>, ErrorView>)
    -> bool {
    match expected {
        Ok(path) => r matches Ok(e) && e@ == path,
        Err(fault) => r matches Err(e) && e@ == fault,
    }
}

impl Clone for Expression {
    fn clone(&self) -> (e: Expression)
        ensures
            e@ == self@,
        decreases self,
    {
        match self {
            Expression::Identifier(name) => Expression::Identifier(name.clone()),
            Expression::Child(parent, name) => {
                let parent_copy: Expression = (**parent).clone();
                Expression::Child(Box::new(parent_copy), name.clone())
            },
        }
    }
}

impl Expression {
    /// Whether `segment` is a name.
    pub fn check_identifier(segment: &str) -> (b: bool)
        ensures
            b == is_identifier(segment@),
    {
        let chars = chars_of(segment);
        chars.len() > 0 && scan_run(chars.as_slice(), 0, CharClass::Identifier) == chars.len()
    }

    /// The path with the given segments.
    pub fn from_segments(parts: &Vec<String>) -> (e: Expression)
        requires
            parts@.len() > 0,
        ensures
            e@ == texts_of(parts@),
    {
        let mut path = Expression::Identifier(parts[0].clone());
        let mut i: usize = 1;
        while i < parts.len()
            invariant
                1 <= i <= parts@.len(),
                path@ == texts_of(parts@).take(i as int),
            decreases parts@.len() - i,
        {
            path = Expression::Child(Box::new(path), parts[i].clone());
            assert(texts_of(parts@).take(i + 1) =~= texts_of(parts@).take(i as int).push(
                parts@[i as int]@,
            ));
            i += 1;
        }
        assert(texts_of(parts@).take(parts@.len() as int) =~= texts_of(parts@));
        path
    }

    /// Parses a dotted key into a path. Each segment must be a name.
    pub fn parse(text: &str) -> (r: Result<Expression, Error>)
        ensures
            yields(r, parse_path(text@)),
    {
        let parts = split_segments(text);
        let mut i: usize = 0;
        while i < parts.len()
            invariant
                i <= parts@.len(),
                parts@.len() > 0,
                texts_of(parts@) == segments(text@, 0),
                first_fault(texts_of(parts@), 0) == first_fault(texts_of(parts@), i as int),
            decreases parts@.len() - i,
        {
            assert(texts_of(parts@)[i as int] == parts@[i as int]@);
            if !Self::check_identifier(parts[i].as_str()) {
                let message = if parts[i].as_str().is_empty() {
                    "empty segment in key".to_owned()
                } else {
                    "invalid character in key".to_owned()
                };
                return Err(Error::Key { key: text.to_owned(), message });
            }
            i += 1;
        }
        assert(texts_of(parts@).take(0) =~= Seq::<Seq<char>>::empty());
        Ok(Self::from_segments(&parts))
    }
}

} // verus!
