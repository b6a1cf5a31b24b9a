//! The command grammar: comma-separated `key=value` assignments with dotted
//! keys, quoted strings and nested `[a; b]` arrays.

use crate::adaptor::parser::Parser;
use crate::errors::{Error, ErrorView};
use crate::text::{
    chars_of, scan, scan_run, segments, split_segments, string_of, texts_of, trim_bounds, trimmed,
    trimmed_range, trimmed_string, CharClass,
};
use crate::value::laws::{
    lemma_equals_reflexive, lemma_insert_entry_distinct, lemma_well_formed_parts,
};
use crate::value::{
    distinct_keys, has_key, index_of, insert_entry, lemma_array_view, views_of, Table, TableView,
    Value, ValueView,
};
use vstd::prelude::*;

verus! {

/// A non-empty run of characters of `class` at `i`: its text, trimmed, and
/// the position behind it.
pub open spec fn text_at(s: Seq<char>, i: int, class: CharClass) -> Option<(Seq<char>, int)> {
    let j = scan(s, i, class);
    if j > i {
        Some((trimmed_range(s, i, j), j))
    } else {
        None
    }
}

/// A quoted string at `i`: `"`, any number of characters other than `"`, and
/// `"`. Gives the trimmed content and the position behind the closing quote.
pub open spec fn quoted_at(s: Seq<char>, i: int) -> Option<(Seq<char>, int)> {
    if 0 <= i < s.len() && s[i] == '"' {
        let j = scan(s, i + 1, CharClass::Quoted);
        if j < s.len() {
            Some((trimmed_range(s, i + 1, j), j + 1))
        } else {
            None
        }
    } else {
        None
    }
}

/// An array at `i`: optional blanks, `[`, items separated by `;`, and `]`.
pub open spec fn array_at(s: Seq<char>, i: int) -> Option<(Seq<ValueView>, int)>
    decreases s.len() - i, 0int,
{
    let k = scan(s, i, CharClass::Blank);
    if 0 <= i <= k < s.len() && s[k] == '[' {
        let (items, j) = items_at(s, k + 1);
        if 0 <= j < s.len() && s[j] == ']' {
            Some((items, j + 1))
        } else {
            None
        }
    } else {
        None
    }
}

/// An array item at `i`: an array, or else a quoted string, or else a run of
/// characters other than `;` and `]`, trimmed.
pub open spec fn item_at(s: Seq<char>, i: int) -> Option<(ValueView, int)>
    decreases s.len() - i, 1int,
{
    match array_at(s, i) {
        Some((items, j)) => Some((ValueView::Array(items), j)),
        None => match quoted_at(s, i) {
            Some((text, j)) => Some((ValueView::String(text), j)),
            None => match text_at(s, i, CharClass::Item) {
                Some((text, j)) => Some((ValueView::String(text), j)),
                None => None,
            },
        },
    }
}

/// The items of an array from `i` on, and the position where they end. No
/// item at `i` gives the empty list. An item always ends behind its start
/// ([`lemma_item_at`]); the test on `j` is there for the definition to end.
pub open spec fn items_at(s: Seq<char>, i: int) -> (Seq<ValueView>, int)
    decreases s.len() - i, 3int,
{
    match item_at(s, i) {
        Some((item, j)) => if i < j <= s.len() {
            more_items(s, j, seq![item])
        } else {
            (seq![item], j)
        },
        None => (Seq::empty(), i),
    }
}

/// Continues a list of items that ends at `j`: as long as optional spaces,
/// `;` and another item follow, the item joins the list. A `;` that no item
/// follows is not consumed. An item always ends behind its start
/// ([`lemma_item_at`]); the test on `next` is there for the definition to end.
pub open spec fn more_items(s: Seq<char>, j: int, found: Seq<ValueView>) -> (Seq<ValueView>, int)
    decreases s.len() - j, 2int,
{
    let k = scan(s, j, CharClass::Space);
    if 0 <= j <= k < s.len() && s[k] == ';' {
        match item_at(s, k + 1) {
            Some((item, next)) => if k < next <= s.len() {
                more_items(s, next, found.push(item))
            } else {
                (found, j)
            },
            None => (found, j),
        }
    } else {
        (found, j)
    }
}

/// A value at `i`: an array, or else a quoted string, or else a run of
/// characters other than `,` and `]`, trimmed.
pub open spec fn value_at(s: Seq<char>, i: int) -> Option<(ValueView, int)> {
    match array_at(s, i) {
        Some((items, j)) => Some((ValueView::Array(items), j)),
        None => match quoted_at(s, i) {
            Some((text, j)) => Some((ValueView::String(text), j)),
            None => match text_at(s, i, CharClass::Bare) {
                Some((text, j)) => Some((ValueView::String(text), j)),
                None => None,
            },
        },
    }
}

/// An assignment at `i`: a key, `=` and a value.
pub open spec fn pair_at(s: Seq<char>, i: int) -> Option<((Seq<char>, ValueView), int)> {
    match text_at(s, i, CharClass::Key) {
        Some((key, j)) => if 0 <= j < s.len() && s[j] == '=' {
            match value_at(s, j + 1) {
                Some((value, next)) => Some(((key, value), next)),
                None => None,
            }
        } else {
            None
        },
        None => None,
    }
}

/// The assignments from `i` on, and the position where they end. No
/// assignment at `i` gives the empty list.
pub open spec fn pairs_at(s: Seq<char>, i: int) -> (TableView, int) {
    match pair_at(s, i) {
        Some((pair, j)) => more_pairs(s, j, seq![pair]),
        None => (Seq::empty(), i),
    }
}

/// Continues a list of assignments that ends at `j`: as long as a `,` with
/// optional blanks on either side and another assignment follow, the
/// assignment joins the list. A `,` that no assignment follows is not
/// consumed, nor are the blanks before it. An assignment always ends behind
/// its start ([`lemma_pair_at`]); the test on `next` is there for the
/// definition to end.
pub open spec fn more_pairs(s: Seq<char>, j: int, found: TableView) -> (TableView, int)
    decreases s.len() - j,
{
    let k = scan(s, j, CharClass::Blank);
    if 0 <= j <= k < s.len() && s[k] == ',' {
        match pair_at(s, scan(s, k + 1, CharClass::Blank)) {
            Some((pair, next)) => if j < next <= s.len() {
                more_pairs(s, next, found.push(pair))
            } else {
                (found, j)
            },
            None => (found, j),
        }
    } else {
        (found, j)
    }
}

/// `t` after storing `value` under the path `parts[from..]`. Each segment but
/// the last names a nested table, which is made where the key is new. Where a
/// segment but the last names a value that is no table, nothing changes.
pub open spec fn insert_path(
    t: TableView,
    parts: Seq<Seq<char>>,
    from: int,
    value: ValueView,
) -> TableView
    decreases parts.len() - from,
{
    if from < 0 || from >= parts.len() {
        t
    } else if from == parts.len() - 1 {
        insert_entry(t, parts[from], value)
    } else if !has_key(t, parts[from]) {
        t.push(
            (parts[from], ValueView::Table(insert_path(Seq::empty(), parts, from + 1, value))),
        )
    } else {
        let i = index_of(t, parts[from]);
        match t[i].1 {
            ValueView::Table(nested) => t.update(
                i,
                (parts[from], ValueView::Table(insert_path(nested, parts, from + 1, value))),
            ),
            _ => t,
        }
    }
}

/// The table that a list of assignments builds: each value is stored under
/// the path that its dotted key spells, one assignment after the other.
pub open spec fn table_of(pairs: TableView) -> TableView
    decreases pairs.len(),
{
    if pairs.len() == 0 {
        Seq::empty()
    } else {
        insert_path(table_of(pairs.drop_last()), segments(pairs.last().0, 0), 0, pairs.last().1)
    }
}

/// Whether the assignments found in `s` account for all of it: they end
/// where `s` ends, or only one `,` with blanks around it follows the last of
/// them.
pub open spec fn complete(s: Seq<char>, count: nat, end: int) -> bool {
    let k = scan(s, end, CharClass::Blank);
    ||| end == s.len()
    ||| count > 0 && 0 <= end <= k < s.len() && s[k] == ',' && scan(s, k + 1, CharClass::Blank)
        == s.len()
}

/// What the command grammar makes of `input`: the entries of the root table,
/// or `None` where the text is malformed. Whitespace around the text does not
/// count, and an empty text is an empty table.
pub open spec fn parse_cmd_text(input: Seq<char>) -> Option<TableView> {
    let s = trimmed(input);
    if s.len() == 0 {
        Some(Seq::empty())
    } else {
        let (pairs, end) = pairs_at(s, 0);
        if complete(s, pairs.len(), end) {
            Some(table_of(pairs))
        } else {
            None
        }
    }
}

/// Whether `r` is what parsing `input` has to give: the root table that the
/// grammar makes of it, or the parse error that carries the trimmed text.
pub open spec fn parse_outcome(input: Seq<char>, r: Result<Value, Error>) -> bool {
    match parse_cmd_text(input) {
        Some(table) => r matches Ok(value) && value@ == ValueView::Table(table),
        None => r matches Err(e) && e@ == (ErrorView::Parse {
            input: trimmed(input),
            message: failure_message(),
        }),
    }
}

/// The diagnostic of a text that the command grammar rejects.
pub open spec fn failure_message() -> Seq<char> {
    "Failed to parse from cmd"@
}

/// A parser for the command grammar.
#[derive(Debug, Default)]
pub struct CmdParser;

impl CmdParser {
    /// A non-empty run of characters of `class` at `start`: its text,
    /// trimmed, and the position behind it.
    pub fn parse_text(input: &[char], start: usize, class: CharClass) -> (r: Option<
        (String, usize),
    >)
        ensures
            match text_at(input@, start as int, class) {
                Some((text, end)) => r matches Some((found, stop)) && found@ == text && stop == end
                    && start < stop <= input@.len(),
                None => r is None,
            },
    {
        let end = scan_run(input, start, class);
        if end > start {
            Some((trimmed_string(input, start, end), end))
        } else {
            None
        }
    }

    /// Parses a key: a non-empty run of alphanumeric characters, dots and
    /// underscores.
    pub fn parse_key(input: &[char], start: usize) -> (r: Option<(String, usize)>)
        ensures
            match text_at(input@, start as int, CharClass::Key) {
                Some((text, end)) => r matches Some((found, stop)) && found@ == text && stop == end
                    && start < stop <= input@.len(),
                None => r is None,
            },
    {
        Self::parse_text(input, start, CharClass::Key)
    }

    /// Parses a quoted string: the trimmed text between two `"`, which may be
    /// empty.
    pub fn parse_quoted(input: &[char], start: usize) -> (r: Option<(String, usize)>)
        ensures
            match quoted_at(input@, start as int) {
                Some((text, end)) => r matches Some((found, stop)) && found@ == text && stop == end
                    && start < stop <= input@.len(),
                None => r is None,
            },
    {
        if start < input.len() && input[start] == '"' {
            let end = scan_run(input, start + 1, CharClass::Quoted);
            if end < input.len() {
                Some((trimmed_string(input, start + 1, end), end + 1))
            } else {
                None
            }
        } else {
            None
        }
    }

    /// Parses an array: `[`, items separated by `;`, and `]`. Items are
    /// arrays themselves, quoted strings or plain texts.
    pub fn parse_array(input: &[char], start: usize) -> (r: Option<(Value, usize)>)
        ensures
            match array_at(input@, start as int) {
                Some((items, end)) => r matches Some((value, stop)) && value@ == ValueView::Array(
                    items,
                ) && stop == end && start < stop <= input@.len(),
                None => r is None,
            },
        decreases input@.len() - start, 0int,
    {
        let open = scan_run(input, start, CharClass::Blank);
        if open < input.len() && input[open] == '[' {
            let (items, close) = Self::parse_items(input, open + 1);
            if close < input.len() && input[close] == ']' {
                proof {
                    lemma_array_view(items);
                }
                Some((Value::Array(items), close + 1))
            } else {
                None
            }
        } else {
            None
        }
    }

    /// Parses one array item: an array, or else a quoted string, or else a
    /// plain text that ends before `;` or `]`.
    pub fn parse_item(input: &[char], start: usize) -> (r: Option<(Value, usize)>)
        ensures
            match item_at(input@, start as int) {
                Some((item, end)) => r matches Some((value, stop)) && value@ == item && stop == end
                    && start < stop <= input@.len(),
                None => r is None,
            },
        decreases input@.len() - start, 1int,
    {
        match Self::parse_array(input, start) {
            Some(found) => Some(found),
            None => match Self::parse_quoted(input, start) {
                Some((text, end)) => Some((Value::String(text), end)),
                None => match Self::parse_text(input, start, CharClass::Item) {
                    Some((text, end)) => Some((Value::String(text), end)),
                    None => None,
                },
            },
        }
    }

    /// Parses the items of an array from `start` on; gives them with the
    /// position where they end.
    pub fn parse_items(input: &[char], start: usize) -> (r: (Vec<Value>, usize))
        ensures
            views_of(r.0@) == items_at(input@, start as int).0,
            r.1 == items_at(input@, start as int).1,
            start <= r.1,
            start <= input@.len() ==> r.1 <= input@.len(),
        decreases input@.len() - start, 3int,
    {
        let mut items: Vec<Value> = Vec::new();
        let mut end: usize = start;
        match Self::parse_item(input, start) {
            None => {
                assert(views_of(items@) =~= Seq::<ValueView>::empty());
                return (items, start);
            },
            Some((item, stop)) => {
                assert(views_of(items@.push(item)) =~= seq![item@]);
                items.push(item);
                end = stop;
            },
        }
        loop
            invariant
                start < end <= input@.len(),
                items_at(input@, start as int) == more_items(input@, end as int, views_of(items@)),
            ensures
                views_of(items@) == items_at(input@, start as int).0,
                end == items_at(input@, start as int).1,
                start < end <= input@.len(),
            decreases input@.len() - end,
        {
            let mark = scan_run(input, end, CharClass::Space);
            if mark < input.len() && input[mark] == ';' {
                match Self::parse_item(input, mark + 1) {
                    None => {
                        break ;
                    },
                    Some((item, stop)) => {
                        assert(views_of(items@.push(item)) =~= views_of(items@).push(item@));
                        items.push(item);
                        end = stop;
                    },
                }
            } else {
                break ;
            }
        }
        (items, end)
    }

    /// Parses a value: an array, or else a quoted string, or else a plain
    /// text that ends before `,` or `]`.
    pub fn parse_value(input: &[char], start: usize) -> (r: Option<(Value, usize)>)
        ensures
            match value_at(input@, start as int) {
                Some((view, end)) => r matches Some((value, stop)) && value@ == view && stop == end
                    && start < stop <= input@.len(),
                None => r is None,
            },
    {
        match Self::parse_array(input, start) {
            Some(found) => Some(found),
            None => match Self::parse_quoted(input, start) {
                Some((text, end)) => Some((Value::String(text), end)),
                None => match Self::parse_text(input, start, CharClass::Bare) {
                    Some((text, end)) => Some((Value::String(text), end)),
                    None => None,
                },
            },
        }
    }

    /// Parses one assignment: a key, `=` and a value.
    pub fn parse_pair(input: &[char], start: usize) -> (r: Option<((String, Value), usize)>)
        ensures
            match pair_at(input@, start as int) {
                Some((pair, end)) => r matches Some((found, stop)) && found.0@ == pair.0
                    && found.1@ == pair.1 && stop == end && start < stop <= input@.len(),
                None => r is None,
            },
    {
        match Self::parse_key(input, start) {
            Some((key, mark)) => {
                if mark < input.len() && input[mark] == '=' {
                    match Self::parse_value(input, mark + 1) {
                        Some((value, end)) => Some(((key, value), end)),
                        None => None,
                    }
                } else {
                    None
                }
            },
            None => None,
        }
    }

    /// Splits a key at its dots.
    pub fn split_key(key: &str) -> (parts: Vec<String>)
        ensures
            texts_of(parts@) == segments(key@, 0),
            parts@.len() > 0,
    {
        split_segments(key)
    }

    /// Stores `value` in `table` under the path `parts[from..]`. Each segment
    /// but the last names a nested table, which is made where the key is new.
    /// Where a segment but the last names a value that is no table, nothing
    /// is stored.
    pub fn insert_nested(table: &mut Table, parts: &Vec<String>, from: usize, value: Value)
        ensures
            final(table)@ == insert_path(old(table)@, texts_of(parts@), from as int, value@),
        decreases parts@.len() - from,
    {
        if from >= parts.len() {
            return ;
        }
        let head = &parts[from];
        assert(head@ == texts_of(parts@)[from as int]);
        if from == parts.len() - 1 {
            table.insert(head.clone(), value);
            return ;
        }
        match table.position(head.as_str()) {
            None => {
                let mut nested = Table::new();
                Self::insert_nested(&mut nested, parts, from + 1, value);
                table.insert(head.clone(), Value::Table(nested));
            },
            Some(i) => {
                let current = table.replace_at(i, Value::Null);
                match current {
                    Value::Table(mut nested) => {
                        Self::insert_nested(&mut nested, parts, from + 1, value);
                        table.replace_at(i, Value::Table(nested));
                        assert(table@ =~= insert_path(
                            old(table)@,
                            texts_of(parts@),
                            from as int,
                            value@,
                        ));
                    },
                    other => {
                        table.replace_at(i, other);
                        assert(table@ =~= old(table)@);
                    },
                }
            },
        }
    }

    /// Parses the assignments from `start` on and builds their table; gives
    /// it with the position where the assignments end.
    pub fn parse_cmd(input: &[char], start: usize) -> (r: (Table, usize))
        ensures
            r.0@ == table_of(pairs_at(input@, start as int).0),
            r.1 == pairs_at(input@, start as int).1,
            start <= r.1,
            start <= input@.len() ==> r.1 <= input@.len(),
            (r.1 > start) == (pairs_at(input@, start as int).0.len() > 0),
    {
        let mut table = Table::new();
        let mut end: usize = start;
        let ghost mut found: TableView = Seq::empty();
        match Self::parse_pair(input, start) {
            None => {
                return (table, start);
            },
            Some((pair, stop)) => {
                proof {
                    found = seq![(pair.0@, pair.1@)];
                    assert(found.drop_last() =~= Seq::<(Seq<char>, ValueView)>::empty());
                    assert(table_of(found.drop_last()) == table@);
                }
                let parts = Self::split_key(pair.0.as_str());
                Self::insert_nested(&mut table, &parts, 0, pair.1);
                end = stop;
            },
        }
        loop
            invariant
                start < end <= input@.len(),
                found.len() > 0,
                table@ == table_of(found),
                pairs_at(input@, start as int) == more_pairs(input@, end as int, found),
            ensures
                table@ == table_of(pairs_at(input@, start as int).0),
                end == pairs_at(input@, start as int).1,
                start < end <= input@.len(),
                pairs_at(input@, start as int).0.len() > 0,
            decreases input@.len() - end,
        {
            let comma = scan_run(input, end, CharClass::Blank);
            if comma < input.len() && input[comma] == ',' {
                let next = scan_run(input, comma + 1, CharClass::Blank);
                match Self::parse_pair(input, next) {
                    None => {
                        break ;
                    },
                    Some((pair, stop)) => {
                        proof {
                            let longer = found.push((pair.0@, pair.1@));
                            assert(longer.drop_last() =~= found);
                            found = longer;
                        }
                        let parts = Self::split_key(pair.0.as_str());
                        Self::insert_nested(&mut table, &parts, 0, pair.1);
                        end = stop;
                    },
                }
            } else {
                break ;
            }
        }
        (table, end)
    }
}

impl Parser for CmdParser {
    type Item = Value;

    /// Parses a text of comma-separated `key=value` assignments into the root
    /// table. Whitespace around the text and blanks around the commas are
    /// ignored, and an empty text gives an empty table. A text that the
    /// assignments do not account for, but for one trailing `,`, is rejected
    /// as a whole.
    fn parse(args: &str) -> (r: Result<Value, Error>)
        ensures
            parse_outcome(args@, r),
    {
        let chars = chars_of(args);
        let (lo, hi) = trim_bounds(chars.as_slice(), 0, chars.len());
        let input = vstd::slice::slice_subrange(chars.as_slice(), lo, hi);
        if input.len() == 0 {
            return Ok(Value::Table(Table::new()));
        }
        let (table, end) = Self::parse_cmd(input, 0);
        let comma = scan_run(input, end, CharClass::Blank);
        let whole = if end == input.len() {
            true
        } else if end > 0 && comma < input.len() && input[comma] == ',' {
            scan_run(input, comma + 1, CharClass::Blank) == input.len()
        } else {
            false
        };
        if whole {
            Ok(Value::Table(table))
        } else {
            let text = string_of(chars.as_slice(), lo, hi);
            Err(Error::new_parse_error(text, "Failed to parse from cmd".to_owned()))
        }
    }
}

/// Parsing is a function of the text: two parses of one text give the same
/// tree, which equals itself, or the same error.
pub proof fn lemma_parse_twice(
    input: Seq<char>,
    first: Result<Value, Error>,
    second: Result<Value, Error>,
)
    requires
        parse_outcome(input, first),
        parse_outcome(input, second),
    ensures
        match (first, second) {
            (Ok(a), Ok(b)) => a@ == b@ && a@.equals(b@),
            (Err(a), Err(b)) => a@ == b@,
            _ => false,
        },
{
    if let Ok(a) = first {
        lemma_equals_reflexive(a@);
    }
}

/// A scan ends between its start and the end of the text.
pub proof fn lemma_scan_bounds(s: Seq<char>, i: int, class: CharClass)
    requires
        0 <= i <= s.len(),
    ensures
        i <= scan(s, i, class) <= s.len(),
    decreases s.len() - i,
{
    if i < s.len() && class.holds(s[i]) {
        lemma_scan_bounds(s, i + 1, class);
    }
}

/// An array that is found ends behind its start and within the text, and is
/// well formed.
pub proof fn lemma_array_at(s: Seq<char>, i: int)
    ensures
        array_at(s, i) matches Some((items, end)) ==> i < end <= s.len() && ValueView::Array(
            items,
        ).well_formed(),
    decreases s.len() - i, 0int,
{
    let k = scan(s, i, CharClass::Blank);
    if 0 <= i <= k < s.len() && s[k] == '[' {
        lemma_items_at(s, k + 1);
    }
}

/// An item that is found ends behind its start and within the text, and is
/// well formed.
pub proof fn lemma_item_at(s: Seq<char>, i: int)
    ensures
        item_at(s, i) matches Some((item, end)) ==> i < end <= s.len() && item.well_formed(),
    decreases s.len() - i, 1int,
{
    lemma_array_at(s, i);
    if 0 <= i < s.len() {
        lemma_scan_bounds(s, i + 1, CharClass::Quoted);
    }
    if 0 <= i <= s.len() {
        lemma_scan_bounds(s, i, CharClass::Item);
    }
}

/// The items found from `i` on end within the text, and are well formed.
pub proof fn lemma_items_at(s: Seq<char>, i: int)
    requires
        0 <= i <= s.len(),
    ensures
        i <= items_at(s, i).1 <= s.len(),
        ValueView::Array(items_at(s, i).0).well_formed(),
    decreases s.len() - i, 3int,
{
    lemma_item_at(s, i);
    match item_at(s, i) {
        Some((item, j)) => {
            lemma_more_items(s, j, seq![item]);
        },
        None => {},
    }
}

/// Continuing a list of items keeps it within the text and well formed.
pub proof fn lemma_more_items(s: Seq<char>, j: int, found: Seq<ValueView>)
    requires
        0 <= j <= s.len(),
        ValueView::Array(found).well_formed(),
    ensures
        j <= more_items(s, j, found).1 <= s.len(),
        ValueView::Array(more_items(s, j, found).0).well_formed(),
    decreases s.len() - j, 2int,
{
    let k = scan(s, j, CharClass::Space);
    if 0 <= j <= k < s.len() && s[k] == ';' {
        lemma_item_at(s, k + 1);
        match item_at(s, k + 1) {
            Some((item, next)) => {
                let longer = found.push(item);
                assert forall|m: int| 0 <= m < longer.len() implies (#[trigger] longer[m]).well_formed() by {
                    if m < found.len() {
                        lemma_well_formed_parts(ValueView::Array(found), m);
                    }
                }
                assert(ValueView::Array(longer).well_formed());
                lemma_more_items(s, next, longer);
            },
            None => {},
        }
    }
}

/// A value that is found ends behind its start and within the text, and is
/// well formed.
pub proof fn lemma_value_at(s: Seq<char>, i: int)
    ensures
        value_at(s, i) matches Some((value, end)) ==> i < end <= s.len() && value.well_formed(),
{
    lemma_array_at(s, i);
    if 0 <= i < s.len() {
        lemma_scan_bounds(s, i + 1, CharClass::Quoted);
    }
    if 0 <= i <= s.len() {
        lemma_scan_bounds(s, i, CharClass::Bare);
    }
}

/// An assignment that is found ends behind its start and within the text,
/// and its value is well formed.
pub proof fn lemma_pair_at(s: Seq<char>, i: int)
    ensures
        pair_at(s, i) matches Some((pair, end)) ==> i < end <= s.len() && pair.1.well_formed(),
{
    if 0 <= i <= s.len() {
        lemma_scan_bounds(s, i, CharClass::Key);
    }
    match text_at(s, i, CharClass::Key) {
        Some((key, j)) => {
            lemma_value_at(s, j + 1);
        },
        None => {},
    }
}

/// Storing a value under a path keeps a table well formed.
pub proof fn lemma_insert_path_well_formed(
    t: TableView,
    parts: Seq<Seq<char>>,
    from: int,
    value: ValueView,
)
    requires
        ValueView::Table(t).well_formed(),
        value.well_formed(),
    ensures
        ValueView::Table(insert_path(t, parts, from, value)).well_formed(),
    decreases parts.len() - from,
{
    let after = insert_path(t, parts, from, value);
    if from < 0 || from >= parts.len() {
    } else if from == parts.len() - 1 {
        lemma_insert_entry_distinct(t, parts[from], value);
        assert forall|m: int| 0 <= m < after.len() implies (#[trigger] after[m]).1.well_formed() by {
            if m < t.len() {
                assert(t[m].1.well_formed());
            }
        }
    } else if !has_key(t, parts[from]) {
        lemma_insert_path_well_formed(Seq::empty(), parts, from + 1, value);
        assert forall|a: int, b: int| 0 <= a < b < after.len() implies (#[trigger] after[a]).0 != (
        #[trigger] after[b]).0 by {
            if b == after.len() - 1 {
                assert(t[a].0 != parts[from]);
            } else {
                assert(t[a].0 != t[b].0);
            }
        }
        assert forall|m: int| 0 <= m < after.len() implies (#[trigger] after[m]).1.well_formed() by {
            if m < t.len() {
                assert(t[m].1.well_formed());
            }
        }
    } else {
        let i = index_of(t, parts[from]);
        match t[i].1 {
            ValueView::Table(nested) => {
                assert(t[i].1.well_formed());
                lemma_insert_path_well_formed(nested, parts, from + 1, value);
                assert forall|a: int, b: int| 0 <= a < b < after.len() implies (
                #[trigger] after[a]).0 != (#[trigger] after[b]).0 by {
                    assert(t[a].0 != t[b].0);
                }
                assert forall|m: int| 0 <= m < after.len() implies (
                #[trigger] after[m]).1.well_formed() by {
                    if m != i {
                        assert(t[m].1.well_formed());
                    }
                }
            },
            _ => {},
        }
    }
}

/// The assignments found from `i` on end within the text, and each of their
/// values is well formed.
pub proof fn lemma_pairs_at(s: Seq<char>, i: int)
    requires
        0 <= i <= s.len(),
    ensures
        i <= pairs_at(s, i).1 <= s.len(),
        forall|m: int|
            0 <= m < pairs_at(s, i).0.len() ==> (#[trigger] pairs_at(s, i).0[m]).1.well_formed(),
{
    lemma_pair_at(s, i);
    match pair_at(s, i) {
        Some((pair, j)) => {
            lemma_more_pairs(s, j, seq![pair]);
        },
        None => {},
    }
}

/// Continuing a list of assignments keeps it within the text and its values
/// well formed.
pub proof fn lemma_more_pairs(s: Seq<char>, j: int, found: TableView)
    requires
        0 <= j <= s.len(),
        forall|m: int| 0 <= m < found.len() ==> (#[trigger] found[m]).1.well_formed(),
    ensures
        j <= more_pairs(s, j, found).1 <= s.len(),
        forall|m: int|
            0 <= m < more_pairs(s, j, found).0.len() ==> (#[trigger] more_pairs(
                s,
                j,
                found,
            ).0[m]).1.well_formed(),
    decreases s.len() - j,
{
    let comma = scan(s, j, CharClass::Blank);
    if 0 <= j <= comma < s.len() && s[comma] == ',' {
        let k = scan(s, comma + 1, CharClass::Blank);
        lemma_scan_bounds(s, comma + 1, CharClass::Blank);
        lemma_pair_at(s, k);
        match pair_at(s, k) {
            Some((pair, next)) => {
                assert forall|m: int| 0 <= m < found.push(pair).len() implies (#[trigger] found.push(
                    pair,
                )[m]).1.well_formed() by {
                    if m < found.len() {
                        assert(found[m].1.well_formed());
                    }
                }
                lemma_more_pairs(s, next, found.push(pair));
            },
            None => {},
        }
    }
}

/// The table that a list of assignments builds is well formed where the
/// values of the assignments are.
pub proof fn lemma_table_of_well_formed(pairs: TableView)
    requires
        forall|m: int| 0 <= m < pairs.len() ==> (#[trigger] pairs[m]).1.well_formed(),
    ensures
        ValueView::Table(table_of(pairs)).well_formed(),
    decreases pairs.len(),
{
    if pairs.len() > 0 {
        let before = pairs.drop_last();
        assert forall|m: int| 0 <= m < before.len() implies (#[trigger] before[m]).1.well_formed() by {
            assert(before[m] == pairs[m]);
        }
        lemma_table_of_well_formed(before);
        assert(pairs.last() == pairs[pairs.len() - 1]);
        lemma_insert_path_well_formed(
            table_of(before),
            segments(pairs.last().0, 0),
            0,
            pairs.last().1,
        );
    }
}

/// Whatever text is parsed, no table of the tree that comes out holds a key
/// twice.
pub proof fn lemma_parsed_tree_is_well_formed(input: Seq<char>)
    ensures
        parse_cmd_text(input) matches Some(table) ==> ValueView::Table(table).well_formed(),
{
    let s = trimmed(input);
    if s.len() > 0 {
        lemma_pairs_at(s, 0);
        lemma_table_of_well_formed(pairs_at(s, 0).0);
    }
}

} // verus!
