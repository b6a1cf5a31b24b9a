//! Characters and text: the classes of characters the grammars speak of,
//! conversion between strings and character sequences, trimming, and the few
//! facts about `std` text functions that the rest of the crate relies on.

use vstd::prelude::*;

verus! {

/// Whether `c` has the Unicode property `White_Space`: the controls U+0009
/// to U+000D and U+0085, the space, and the spaces and separators beyond
/// ASCII.
pub open spec fn unicode_whitespace(c: char) -> bool {
    ||| '\u{9}' <= c <= '\u{d}'
    ||| c == ' '
    ||| c == '\u{85}'
    ||| c == '\u{a0}'
    ||| c == '\u{1680}'
    ||| '\u{2000}' <= c <= '\u{200a}'
    ||| c == '\u{2028}'
    ||| c == '\u{2029}'
    ||| c == '\u{202f}'
    ||| c == '\u{205f}'
    ||| c == '\u{3000}'
}

/// Whether `c` is a letter or a digit of ASCII.
pub open spec fn ascii_alphanumeric(c: char) -> bool {
    ||| 'a' <= c <= 'z'
    ||| 'A' <= c <= 'Z'
    ||| '0' <= c <= '9'
}

/// Whether `c` is alphabetic or numeric: within ASCII a letter or a digit,
/// beyond ASCII what Unicode classifies so.
pub open spec fn alphanumeric(c: char) -> bool {
    if c <= '\u{7f}' {
        ascii_alphanumeric(c)
    } else {
        unicode_alphanumeric(c)
    }
}

/// Whether `c`, a character beyond ASCII, is alphabetic or numeric in the
/// sense of Unicode, as `char::is_alphanumeric` reports it.
pub uninterp spec fn unicode_alphanumeric(c: char) -> bool;

/// `char::is_whitespace` tells whether the character has the Unicode
/// property `White_Space`.
pub assume_specification[ char::is_whitespace ](c: char) -> (b: bool)
    ensures
        b == unicode_whitespace(c),
;

/// `char::is_alphanumeric`: a pure classification of the character. Within
/// ASCII it holds of the letters and the digits and of nothing else; beyond
/// ASCII it goes by Unicode's tables.
pub assume_specification[ char::is_alphanumeric ](c: char) -> (b: bool)
    ensures
        b == alphanumeric(c),
        c > '\u{7f}' ==> b == unicode_alphanumeric(c),
;

/// `str` equality (`<str as PartialEq>::eq`) holds exactly when both slices
/// hold the same characters.
pub assume_specification[ <str as PartialEq>::eq ](a: &str, b: &str) -> (r: bool)
    ensures
        r == (a@ == b@),
;

/// `String::push` appends one character at the end.
pub assume_specification[ std::string::String::push ](s: &mut std::string::String, c: char)
    ensures
        final(s)@ == old(s)@.push(c),
;

/// The text that `String::from_utf8_lossy` makes of `bytes`: their decoding
/// as UTF-8, with U+FFFD in place of what is not valid UTF-8.
pub uninterp spec fn utf8_lossy(bytes: Seq<u8>) -> Seq<char>;

/// `String::from_utf8_lossy`, as an owned string. The text depends on the
/// bytes alone; valid UTF-8 is decoded as it stands.
#[verifier::external_body]
pub(crate) fn decode_lossy(bytes: &[u8]) -> (text: String)
    ensures
        text@ == utf8_lossy(bytes@),
        vstd::utf8::valid_utf8(bytes@) ==> text@ == vstd::utf8::decode_utf8(bytes@),
{
    String::from_utf8_lossy(bytes).into_owned()
}

/// The first position in `lo..hi` that holds no whitespace, or `hi`.
pub open spec fn skip_whitespace(s: Seq<char>, lo: int, hi: int) -> int
    decreases hi - lo,
{
    if lo < hi && unicode_whitespace(s[lo]) {
        skip_whitespace(s, lo + 1, hi)
    } else {
        lo
    }
}

/// The end of `lo..hi` once its trailing whitespace is cut off.
pub open spec fn drop_whitespace(s: Seq<char>, lo: int, hi: int) -> int
    decreases hi - lo,
{
    if lo < hi && unicode_whitespace(s[hi - 1]) {
        drop_whitespace(s, lo, hi - 1)
    } else {
        hi
    }
}

/// The characters of `s` in `lo..hi` without leading and trailing whitespace.
pub open spec fn trimmed_range(s: Seq<char>, lo: int, hi: int) -> Seq<char> {
    let start = skip_whitespace(s, lo, hi);
    s.subrange(start, drop_whitespace(s, start, hi))
}

/// `s` without leading and trailing whitespace.
pub open spec fn trimmed(s: Seq<char>) -> Seq<char> {
    trimmed_range(s, 0, s.len() as int)
}

/// The characters of a string slice, one by one.
pub fn chars_of(s: &str) -> (chars: Vec<char>)
    ensures
        chars@ == s@,
{
    let mut chars: Vec<char> = Vec::new();
    for c in it: s.chars()
        invariant
            it.seq() == s@,
            chars@ == s@.take(it.index() as int),
    {
        chars.push(c);
        assert(s@.take(it.index() + 1) =~= s@.take(it.index() as int).push(c));
    }
    assert(s@.take(s@.len() as int) =~= s@);
    chars
}

/// The string made of the characters of `chars` in `lo..hi`.
pub fn string_of(chars: &[char], lo: usize, hi: usize) -> (s: String)
    requires
        lo <= hi <= chars@.len(),
    ensures
        s@ == chars@.subrange(lo as int, hi as int),
{
    let mut s = String::new();
    let mut i: usize = lo;
    while i < hi
        invariant
            lo <= i <= hi <= chars@.len(),
            s@ == chars@.subrange(lo as int, i as int),
        decreases hi - i,
    {
        s.push(chars[i]);
        assert(chars@.subrange(lo as int, i + 1) =~= chars@.subrange(lo as int, i as int).push(
            chars@[i as int],
        ));
        i += 1;
    }
    s
}

/// The bounds of `lo..hi` once leading and trailing whitespace is cut off.
pub fn trim_bounds(chars: &[char], lo: usize, hi: usize) -> (r: (usize, usize))
    requires
        lo <= hi <= chars@.len(),
    ensures
        r.0 == skip_whitespace(chars@, lo as int, hi as int),
        r.1 == drop_whitespace(chars@, r.0 as int, hi as int),
        lo <= r.0 <= r.1 <= hi,
{
    let mut start: usize = lo;
    while start < hi && chars[start].is_whitespace()
        invariant
            lo <= start <= hi <= chars@.len(),
            skip_whitespace(chars@, lo as int, hi as int) == skip_whitespace(
                chars@,
                start as int,
                hi as int,
            ),
        decreases hi - start,
    {
        start += 1;
    }
    let mut end: usize = hi;
    while start < end && chars[end - 1].is_whitespace()
        invariant
            start <= end <= hi <= chars@.len(),
            drop_whitespace(chars@, start as int, hi as int) == drop_whitespace(
                chars@,
                start as int,
                end as int,
            ),
        decreases end - start,
    {
        end -= 1;
    }
    (start, end)
}

/// The characters of `chars` in `lo..hi`, trimmed, as a string.
pub fn trimmed_string(chars: &[char], lo: usize, hi: usize) -> (s: String)
    requires
        lo <= hi <= chars@.len(),
    ensures
        s@ == trimmed_range(chars@, lo as int, hi as int),
{
    let (start, end) = trim_bounds(chars, lo, hi);
    string_of(chars, start, end)
}

/// `s` without leading and trailing whitespace.
pub fn trim(s: &str) -> (t: String)
    ensures
        t@ == trimmed(s@),
{
    let chars = chars_of(s);
    trimmed_string(chars.as_slice(), 0, chars.len())
}

/// The classes of characters that the grammars scan runs of.
#[derive(Clone, Copy, Debug)]
pub enum CharClass {
    /// A character of a key: alphanumeric, `.` or `_`.
    Key,
    /// Space, tab, carriage return or line feed.
    Blank,
    /// Space or tab.
    Space,
    /// Anything but `"`.
    Quoted,
    /// Anything but `,` and `]`: the text of an unquoted value.
    Bare,
    /// Anything but `;` and `]`: the text of an array item.
    Item,
    /// Anything but `.`: the text of one segment of a key.
    Segment,
    /// A character of an identifier: alphanumeric or `_`.
    Identifier,
}

impl CharClass {
    /// Whether `c` belongs to the class.
    pub open spec fn holds(self, c: char) -> bool {
        match self {
            CharClass::Key => alphanumeric(c) || c == '.' || c == '_',
            CharClass::Blank => c == ' ' || c == '\t' || c == '\r' || c == '\n',
            CharClass::Space => c == ' ' || c == '\t',
            CharClass::Quoted => c != '"',
            CharClass::Bare => c != ',' && c != ']',
            CharClass::Item => c != ';' && c != ']',
            CharClass::Segment => c != '.',
            CharClass::Identifier => alphanumeric(c) || c == '_',
        }
    }

    /// Whether `c` belongs to the class.
    pub fn contains(self, c: char) -> (b: bool)
        ensures
            b == self.holds(c),
    {
        match self {
            CharClass::Key => c.is_alphanumeric() || c == '.' || c == '_',
            CharClass::Blank => c == ' ' || c == '\t' || c == '\r' || c == '\n',
            CharClass::Space => c == ' ' || c == '\t',
            CharClass::Quoted => c != '"',
            CharClass::Bare => c != ',' && c != ']',
            CharClass::Item => c != ';' && c != ']',
            CharClass::Segment => c != '.',
            CharClass::Identifier => c.is_alphanumeric() || c == '_',
        }
    }
}

/// The end of the longest run of characters of `class` that starts at `i`.
pub open spec fn scan(s: Seq<char>, i: int, class: CharClass) -> int
    decreases s.len() - i,
{
    if 0 <= i < s.len() && class.holds(s[i]) {
        scan(s, i + 1, class)
    } else {
        i
    }
}

/// The segments of the dotted text `s` from position `i` on: the texts
/// between its dots. A text without a dot is one segment; two dots in a row
/// enclose an empty segment.
pub open spec fn segments(s: Seq<char>, i: int) -> Seq<Seq<char>>
    decreases s.len() - i,
{
    let j = scan(s, i, CharClass::Segment);
    if 0 <= i <= j < s.len() {
        seq![s.subrange(i, j)] + segments(s, j + 1)
    } else {
        seq![s.subrange(i, s.len() as int)]
    }
}

/// The texts of a list of strings, in order.
pub open spec fn texts_of(parts: Seq<String>) -> Seq<Seq<char>> {
    Seq::new(parts.len(), |i: int| parts[i]@)
}

/// The end of the longest run of characters of `class` that starts at
/// `start`.
pub fn scan_run(input: &[char], start: usize, class: CharClass) -> (end: usize)
    ensures
        end == scan(input@, start as int, class),
        start <= end,
        start <= input@.len() ==> end <= input@.len(),
{
    let mut i: usize = start;
    while i < input.len() && class.contains(input[i])
        invariant
            start <= i,
            start <= input@.len() ==> i <= input@.len(),
            scan(input@, start as int, class) == scan(input@, i as int, class),
        decreases input@.len() - i,
    {
        i += 1;
    }
    i
}

/// Splits `text` at its dots.
pub fn split_segments(text: &str) -> (parts: Vec<String>)
    ensures
        texts_of(parts@) == segments(text@, 0),
        parts@.len() > 0,
{
    let chars = chars_of(text);
    let input = chars.as_slice();
    let mut parts: Vec<String> = Vec::new();
    let mut start: usize = 0;
    loop
        invariant_except_break
            segments(text@, 0) == texts_of(parts@) + segments(text@, start as int),
        invariant
            input@ == text@,
            start <= input@.len(),
        ensures
            texts_of(parts@) == segments(text@, 0),
            parts@.len() > 0,
        decreases input@.len() - start,
    {
        let end = scan_run(input, start, CharClass::Segment);
        let ghost before = texts_of(parts@);
        if end < input.len() {
            parts.push(string_of(input, start, end));
            assert(texts_of(parts@) =~= before + seq![text@.subrange(start as int, end as int)]);
            assert(before + (seq![text@.subrange(start as int, end as int)] + segments(
                text@,
                end + 1,
            )) =~= texts_of(parts@) + segments(text@, end + 1));
            start = end + 1;
        } else {
            parts.push(string_of(input, start, end));
            assert(texts_of(parts@) =~= before + seq![
                text@.subrange(start as int, text@.len() as int),
            ]);
            break ;
        }
    }
    parts
}

/// The character of the decimal digit `d`.
pub open spec fn digit_char(d: int) -> char {
    (48 + d) as char
}

/// The decimal digits of `n`, without leading zeros.
pub open spec fn decimal_digits(n: nat) -> Seq<char>
    decreases n,
{
    if n < 10 {
        seq![digit_char(n as int)]
    } else {
        decimal_digits(n / 10).push(digit_char((n % 10) as int))
    }
}

/// The decimal text of `n`: its digits, behind a `-` where it is negative.
pub open spec fn decimal_text(n: int) -> Seq<char> {
    if n < 0 {
        seq!['-'] + decimal_digits((-n) as nat)
    } else {
        decimal_digits(n as nat)
    }
}

/// The decimal digits of `n`, as a string.
pub fn digits_string(n: u64) -> (text: String)
    ensures
        text@ == decimal_digits(n as nat),
{
    let mut reversed: Vec<char> = Vec::new();
    let mut rest: u64 = n;
    while rest >= 10
        invariant
            decimal_digits(n as nat) == decimal_digits(rest as nat) + reversed@.reverse(),
        decreases rest,
    {
        let digit = (48 + (rest % 10) as u8) as char;
        let ghost before = reversed@;
        reversed.push(digit);
        assert(reversed@.reverse() =~= seq![digit] + before.reverse());
        assert(decimal_digits(rest as nat) == decimal_digits((rest / 10) as nat).push(digit));
        assert(decimal_digits((rest / 10) as nat).push(digit) + before.reverse()
            =~= decimal_digits((rest / 10) as nat) + reversed@.reverse());
        rest = rest / 10;
    }
    let mut text = String::new();
    text.push((48 + rest as u8) as char);
    let mut i: usize = reversed.len();
    while i > 0
        invariant
            i <= reversed@.len(),
            rest < 10,
            text@ == decimal_digits(rest as nat) + reversed@.reverse().take(reversed@.len() - i),
        decreases i,
    {
        i -= 1;
        text.push(reversed[i]);
        assert(reversed@.reverse().take(reversed@.len() - i) =~= reversed@.reverse().take(
            reversed@.len() - i - 1,
        ).push(reversed@[i as int]));
    }
    assert(reversed@.reverse().take(reversed@.len() as int) =~= reversed@.reverse());
    text
}

/// The decimal text of `n`, as a string.
pub fn decimal_string(n: isize) -> (text: String)
    ensures
        text@ == decimal_text(n as int),
{
    if n < 0 {
        let magnitude = (-(n as i128)) as u64;
        let digits = digits_string(magnitude);
        let mut text = String::new();
        text.push('-');
        text.append(digits.as_str());
        assert(text@ =~= seq!['-'] + digits@);
        text
    } else {
        digits_string(n as u64)
    }
}

} // verus!
