//! The command grammar stated a second time, with parser combinators, and
//! held against the library on every short text over the grammar's special
//! characters and on a list of longer ones.

use nom::branch::alt;
use nom::bytes::complete::{take_while, take_while1};
use nom::character::complete::{char, multispace0, space0};
use nom::multi::separated_list0;
use nom::sequence::{delimited, preceded, separated_pair};
use nom::IResult;
use realme::adaptor::parser::cmd::CmdParser;
use realme::adaptor::parser::Parser;
use realme::value::{Table, Value};

fn trimmed_text(s: &str) -> Value {
    Value::String(s.trim().to_string())
}

fn key(input: &str) -> IResult<&str, String> {
    nom::combinator::map(take_while1(|c: char| c.is_alphanumeric() || c == '.' || c == '_'), |s: &str| {
        s.trim().to_string()
    })(input)
}

fn quoted(input: &str) -> IResult<&str, Value> {
    nom::combinator::map(delimited(char('"'), take_while(|c| c != '"'), char('"')), trimmed_text)(
        input,
    )
}

fn array(input: &str) -> IResult<&str, Value> {
    let (input, _) = multispace0(input)?;
    delimited(
        char('['),
        nom::combinator::map(
            separated_list0(
                preceded(space0, char(';')),
                alt((
                    array,
                    quoted,
                    nom::combinator::map(take_while1(|c| c != ';' && c != ']'), trimmed_text),
                )),
            ),
            Value::Array,
        ),
        char(']'),
    )(input)
}

fn value(input: &str) -> IResult<&str, Value> {
    alt((
        array,
        quoted,
        nom::combinator::map(take_while1(|c| c != ',' && c != ']'), trimmed_text),
    ))(input)
}

fn pair(input: &str) -> IResult<&str, (String, Value)> {
    separated_pair(key, char('='), value)(input)
}

fn pairs(input: &str) -> IResult<&str, Vec<(String, Value)>> {
    separated_list0(delimited(multispace0, char(','), multispace0), pair)(input)
}

fn store(table: &mut Table, path: &[&str], value: Value) {
    match path {
        [] => {}
        [last] => {
            table.insert(last.to_string(), value);
        }
        [head, rest @ ..] => {
            let mut nested = match table.get(head) {
                None => Table::new(),
                Some(Value::Table(t)) => t.clone(),
                Some(_) => return,
            };
            store(&mut nested, rest, value);
            table.insert(head.to_string(), Value::Table(nested));
        }
    }
}

fn expected(input: &str) -> (Table, usize, &str) {
    let (rest, list) = pairs(input).unwrap();
    let mut table = Table::new();
    for (key, value) in list {
        let path: Vec<&str> = key.split('.').collect();
        store(&mut table, &path, value);
    }
    (table, input.chars().count() - rest.chars().count(), rest)
}

fn compare(input: &str) {
    let chars: Vec<char> = input.chars().collect();
    let (table, end) = CmdParser::parse_cmd(&chars, 0);
    let (wanted, wanted_end, _) = expected(input);
    assert_eq!(end, wanted_end, "end of the assignments in {:?}", input);
    assert_eq!(format!("{:?}", table), format!("{:?}", wanted), "table of {:?}", input);

    let text = input.trim();
    let (wanted, wanted_end, rest) = expected(text);
    let blank = |c: char| c == ' ' || c == '\t' || c == '\r' || c == '\n';
    let whole = rest.is_empty() || (wanted_end > 0 && rest.trim_matches(blank) == ",");
    match CmdParser::parse(input) {
        Ok(Value::Table(table)) => {
            assert!(text.is_empty() || whole, "{:?} was accepted", input);
            assert_eq!(format!("{:?}", table), format!("{:?}", wanted), "tree of {:?}", input);
        }
        Ok(other) => panic!("{:?} gave {:?}", input, other),
        Err(_) => assert!(!text.is_empty() && !whole, "{:?} was rejected", input),
    }
}

fn compare_all(alphabet: &[char], length: usize) {
    let mut text = String::new();
    let mut digits = vec![0usize; length];
    loop {
        text.clear();
        for d in &digits {
            text.push(alphabet[*d]);
        }
        compare(&text);
        let mut i = 0;
        while i < length {
            digits[i] += 1;
            if digits[i] < alphabet.len() {
                break;
            }
            digits[i] = 0;
            i += 1;
        }
        if i == length {
            break;
        }
    }
}

#[test]
fn library_agrees_on_short_texts() {
    let alphabet = ['a', '=', ',', ';', '[', ']', '"', ' ', '.'];
    for length in 0..=5 {
        compare_all(&alphabet, length);
    }
}

#[test]
fn library_agrees_on_short_array_texts() {
    let alphabet = ['x', ';', '[', ']', ' ', ','];
    for length in 0..=6 {
        let mut text = String::new();
        let mut digits = vec![0usize; length];
        loop {
            text.clear();
            text.push_str("k=[");
            for d in &digits {
                text.push(alphabet[*d]);
            }
            compare(&text);
            let mut i = 0;
            while i < length {
                digits[i] += 1;
                if digits[i] < alphabet.len() {
                    break;
                }
                digits[i] = 0;
                i += 1;
            }
            if i == length {
                break;
            }
        }
    }
}

#[test]
fn library_agrees_on_chosen_texts() {
    for input in [
        "age=30, name.first=John, name.last=Doe",
        "a=1,\n\n   b=2,\r\n\tc=3,",
        "a=1 , b=2",
        "a= 1 ,b = 2",
        "a=[ 1 ; 2 ],b=[[x] ; [y;[z]]]",
        "a=[[1] ]",
        "a=[[1;2]",
        "a=  [1]",
        "a=\n[1; \"q\"]",
        "a=[1;\t2 ;3]",
        "a=[1;\n2]",
        "a=[;]",
        "a=[;1]",
        "a=[1;]",
        "a=[1;;2]",
        "a=[]]",
        "a=\"x\"y,b=1",
        "a=\" x, y \",b=\"\"",
        "a=\"unclosed, b=2",
        "a=x\"y\"",
        "a.b=1,a.c=2,a=3,a.d=4",
        "a.b=1,a.b.c=2,a.b=[x]",
        ".=1,..=2,a.=3,.a=4",
        "_=1,__a.b_=2",
        "caf\u{e9}=cr\u{e8}me,\u{437}=\u{436},k\u{663}=\u{663}",
        "a=\u{a0}x\u{a0},b=\u{3000}[y]",
        "a=1,\u{a0}b=2",
        "\u{a0}a=1",
        "a=\u{a0}[1]",
        "a=1,b",
        "a=1,b=",
        "a=1,=2",
        "a==1",
        "a=b=c",
        "a-b=1",
        "k=[a,b;c]",
        "k=a]b",
        "k=a;b",
        "k= ",
        "k=\t,j=1",
        "=",
        ",",
        ",a=1",
        "a=1,,",
        "a=1, ",
        "  a=1,  ",
        "a=\"\"",
        "a=\"\",b=\" \"",
        "a=[\"x; y\"; \"\"; z]",
        "a=[\"x\"y]",
        "a=[\"x]",
        "a=\"x\" , b=1",
        "a=[1] , b=2",
        "a=[1]\n,\nb=2 ,",
        "a=[1] ,",
        "a=[1] , ,",
        "a=\"x\" b=1",
        "a=\"x\"\u{a0},b=1",
    ] {
        compare(input);
    }
}
