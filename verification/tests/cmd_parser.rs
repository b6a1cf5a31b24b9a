use realme::adaptor::parser::cmd::CmdParser;
use realme::adaptor::parser::Parser;
use realme::errors::Error;
use realme::value::{Table, Value};

const FINAL_CMD: &str = r#"

       age=30,

       name.first=John,

       name.last=Doe,

       empty= ,

       address.city=New York,

       address.zip=10001,

       created_at=2024-02-20T12:00:00Z,
       extra=and.and,

       email=john.doe@example.com,

       website=https://example.com,
       quote="Life is beautiful",

       escaped_value="He said, Hello, World!",

       skills=[Go; Rust; Python; Bash Scripting],
    "#;

fn text(s: &str) -> Value {
    Value::String(s.to_string())
}

fn table(entries: Vec<(&str, Value)>) -> Value {
    Value::Table(Table::from_entries(
        entries.into_iter().map(|(k, v)| (k.to_string(), v)).collect(),
    ))
}

#[test]
fn test_parse() {
    let result = CmdParser::parse(FINAL_CMD).unwrap();

    let expected = table(vec![
        ("age", text("30")),
        ("name", table(vec![("first", text("John")), ("last", text("Doe"))])),
        ("empty", Value::String(String::new())),
        ("address", table(vec![("city", text("New York")), ("zip", text("10001"))])),
        ("created_at", text("2024-02-20T12:00:00Z")),
        ("extra", text("and.and")),
        ("email", text("john.doe@example.com")),
        ("website", text("https://example.com")),
        ("quote", text("Life is beautiful")),
        ("escaped_value", text("He said, Hello, World!")),
        (
            "skills",
            Value::Array(vec![text("Go"), text("Rust"), text("Python"), text("Bash Scripting")]),
        ),
    ]);
    assert_eq!(result, expected);
}

#[test]
fn test_parse_simple() {
    let result = CmdParser::parse("age=30").unwrap();
    let expected = table(vec![("age", text("30"))]);

    assert_eq!(result, expected);
}

#[test]
fn test_parse_array() {
    let result = CmdParser::parse("skills=[Go; Rust; Python; Bash Scripting]").unwrap();
    let expected = table(vec![(
        "skills",
        Value::Array(vec![text("Go"), text("Rust"), text("Python"), text("Bash Scripting")]),
    )]);
    assert_eq!(result, expected);
}

#[test]
fn test_parse_empty_array() {
    let result = CmdParser::parse("skills=[]").unwrap();

    let expected = table(vec![("skills", Value::Array(vec![]))]);
    assert_eq!(result, expected);
}

#[test]
fn test_parse_array_of_array() {
    let result = CmdParser::parse("nested_array=[[12]; [3; four; [5; 6]]]").unwrap();
    let expected = table(vec![(
        "nested_array",
        Value::Array(vec![
            Value::Array(vec![text("12")]),
            Value::Array(vec![
                text("3"),
                text("four"),
                Value::Array(vec![text("5"), text("6")]),
            ]),
        ]),
    )]);
    assert_eq!(result, expected);
}

#[test]
fn test_parse_table() {
    let result = CmdParser::parse("name.first=John, name.last=Doe").unwrap();

    let expected = table(vec![(
        "name",
        table(vec![("first", text("John")), ("last", text("Doe"))]),
    )]);

    assert_eq!(result, expected);
}

#[test]
fn test_parse_table_and_array() {
    let result = CmdParser::parse(
        "skills=[Go;Rust;Python;Bash Scripting], name.first=John, \
         name.last=Doe",
    )
    .unwrap();

    let expected = table(vec![
        (
            "skills",
            Value::Array(vec![text("Go"), text("Rust"), text("Python"), text("Bash Scripting")]),
        ),
        ("name", table(vec![("first", text("John")), ("last", text("Doe"))])),
    ]);
    assert_eq!(result, expected);
}

#[test]
fn test_parse_empty_value() {
    let result = CmdParser::parse("empty=\" \"").unwrap();
    let expected = table(vec![("empty", Value::String(String::new()))]);
    assert_eq!(result, expected);
}

#[test]
fn test_parse_value_with_space() {
    let result = CmdParser::parse("address.city=New York").unwrap();

    let expected = table(vec![("address", table(vec![("city", text("New York"))]))]);

    assert_eq!(result, expected);
}

#[test]
fn test_parse_key_with_underscore() {
    let result = CmdParser::parse("nest_value=a_b_c").unwrap();

    let expected = table(vec![("nest_value", text("a_b_c"))]);
    assert_eq!(result, expected);
}

#[test]
fn test_parse_value_with_quote() {
    let result = CmdParser::parse("quote=\"Life is beautiful\"").unwrap();
    let expected = table(vec![("quote", text("Life is beautiful"))]);
    assert_eq!(result, expected);
}

#[test]
fn test_parse_escaped_value() {
    let result = CmdParser::parse("escaped_value=\"He said, Hello, World!\"").unwrap();
    let expected = table(vec![("escaped_value", text("He said, Hello, World!"))]);
    assert_eq!(result, expected);
}

#[test]
fn parse_empty_text_is_empty_table() {
    assert_eq!(CmdParser::parse("").unwrap(), table(vec![]));
    assert_eq!(CmdParser::parse("  \n\t ").unwrap(), table(vec![]));
}

#[test]
fn parse_dotted_key_nests_tables() {
    let result = CmdParser::parse("a.b.c=1").unwrap();
    let expected = table(vec![("a", table(vec![("b", table(vec![("c", text("1"))]))]))]);
    assert_eq!(result, expected);
}

#[test]
fn parse_two_item_array() {
    let result = CmdParser::parse("skills=[Go; Rust]").unwrap();
    let expected = table(vec![("skills", Value::Array(vec![text("Go"), text("Rust")]))]);
    assert_eq!(result, expected);
}

#[test]
fn parse_nested_arrays() {
    let result = CmdParser::parse("nested=[[1]; [2; 3]]").unwrap();
    let expected = table(vec![(
        "nested",
        Value::Array(vec![
            Value::Array(vec![text("1")]),
            Value::Array(vec![text("2"), text("3")]),
        ]),
    )]);
    assert_eq!(result, expected);
}

#[test]
fn parse_comma_inside_quotes_does_not_split() {
    let result = CmdParser::parse("q=\"a, b\"").unwrap();
    assert_eq!(result, table(vec![("q", text("a, b"))]));
}

#[test]
fn parse_twice_gives_equal_trees() {
    let input = "a.b=1, a.c=[x; [y]], d=\"z\"";
    assert_eq!(CmdParser::parse(input).unwrap(), CmdParser::parse(input).unwrap());
}

#[test]
fn parse_later_pair_overwrites_in_place() {
    let result = CmdParser::parse("a=1,b=2,a=3").unwrap();
    match &result {
        Value::Table(t) => {
            assert_eq!(t.len(), 2);
            assert_eq!(t.key_at(0), "a");
            assert_eq!(t.value_at(0), &text("3"));
            assert_eq!(t.key_at(1), "b");
        }
        _ => panic!("not a table"),
    }
}

#[test]
fn parse_conflicting_path_is_absorbed() {
    let result = CmdParser::parse("a=1,a.b=2").unwrap();
    assert_eq!(result, table(vec![("a", text("1"))]));
}

#[test]
fn parse_malformed_text_is_an_error() {
    for input in ["garbage", "a=1,b", "a=", "a=]", "=1", ",", "a=1]x", "a =1", "a=1,,b=2"] {
        match CmdParser::parse(input) {
            Err(Error::Parse { input: carried, message }) => {
                assert_eq!(carried, input);
                assert_eq!(message, "Failed to parse from cmd");
            }
            other => panic!("{:?} gave {:?}", input, other),
        }
    }
}

#[test]
fn parse_error_carries_trimmed_text() {
    match CmdParser::parse("  a=1 b=2,c  \n") {
        Err(Error::Parse { input, .. }) => assert_eq!(input, "a=1 b=2,c"),
        other => panic!("{:?}", other),
    }
}

#[test]
fn parse_unclosed_array_is_a_plain_text() {
    let result = CmdParser::parse("a=[1;2").unwrap();
    assert_eq!(result, table(vec![("a", text("[1;2"))]));
}

#[test]
fn parse_empty_quotes_are_an_empty_text() {
    let result = CmdParser::parse("a=\"\"").unwrap();
    assert_eq!(result, table(vec![("a", text(""))]));
    let result = CmdParser::parse("a=\"\",b=1").unwrap();
    assert_eq!(result, table(vec![("a", text("")), ("b", text("1"))]));
    let input: Vec<char> = "\"\"".chars().collect();
    let (value, end) = CmdParser::parse_value(&input, 0).unwrap();
    assert_eq!((value, end), (text(""), 2));
    let (content, end) = CmdParser::parse_quoted(&input, 0).unwrap();
    assert_eq!((content.as_str(), end), ("", 2));
}

#[test]
fn parse_quoted_array_items_lose_their_quotes() {
    let input: Vec<char> = "[\"a\"]".chars().collect();
    let (value, end) = CmdParser::parse_array(&input, 0).unwrap();
    assert_eq!((value, end), (Value::Array(vec![text("a")]), 5));
    let result = CmdParser::parse("k=[\"a; b\"; c ;\"\";[\" d \"]]").unwrap();
    assert_eq!(
        result,
        table(vec![(
            "k",
            Value::Array(vec![text("a; b"), text("c"), text(""), Value::Array(vec![text("d")])]),
        )])
    );
    let (item, end) = CmdParser::parse_item(&input, 1).unwrap();
    assert_eq!((item, end), (text("a"), 4));
}

#[test]
fn parse_blanks_around_commas_do_not_count() {
    let expected = table(vec![("a", text("x")), ("b", text("1"))]);
    assert_eq!(CmdParser::parse("a=\"x\" , b=1").unwrap(), expected);
    assert_eq!(CmdParser::parse("a=\"x\"\n,\n\tb=1").unwrap(), expected);
    let expected = table(vec![("a", Value::Array(vec![text("1")])), ("b", text("2"))]);
    assert_eq!(CmdParser::parse("a=[1] , b=2").unwrap(), expected);
    assert_eq!(CmdParser::parse("a=[1] , b=2 ,").unwrap(), expected);
    assert_eq!(CmdParser::parse("a=[1] ,").unwrap(), table(vec![("a", Value::Array(vec![text("1")]))]));
    assert!(CmdParser::parse("a=[1] b=2").is_err());
    assert!(CmdParser::parse("a=[1] , , b=2").is_err());
}

#[test]
fn parse_array_items_may_hold_commas() {
    let result = CmdParser::parse("a=[x,y; z]").unwrap();
    assert_eq!(result, table(vec![("a", Value::Array(vec![text("x,y"), text("z")]))]));
}

#[test]
fn parse_key_segments_may_be_empty() {
    let result = CmdParser::parse("a..b=1").unwrap();
    let expected = table(vec![("a", table(vec![("", table(vec![("b", text("1"))]))]))]);
    assert_eq!(result, expected);
}

#[test]
fn parse_pieces_report_where_they_end() {
    let input: Vec<char> = "k.e_y=[a; [b]] ,x".chars().collect();
    let (key, end) = CmdParser::parse_key(&input, 0).unwrap();
    assert_eq!((key.as_str(), end), ("k.e_y", 5));
    let (value, end) = CmdParser::parse_value(&input, 6).unwrap();
    assert_eq!(end, 14);
    assert_eq!(value, Value::Array(vec![text("a"), Value::Array(vec![text("b")])]));
    assert!(CmdParser::parse_array(&input, 0).is_none());
    assert!(CmdParser::parse_quoted(&input, 6).is_none());
    let ((key, _), end) = CmdParser::parse_pair(&input, 0).unwrap();
    assert_eq!((key.as_str(), end), ("k.e_y", 14));
    let (root, end) = CmdParser::parse_cmd(&input, 0);
    assert_eq!(end, 14);
    assert_eq!(root.len(), 1);
    assert!(CmdParser::parse_key(&input, 100).is_none());
}

#[test]
fn split_key_keeps_empty_segments() {
    assert_eq!(CmdParser::split_key("a.b"), vec!["a", "b"]);
    assert_eq!(CmdParser::split_key("a"), vec!["a"]);
    assert_eq!(CmdParser::split_key(".a."), vec!["", "a", ""]);
    assert_eq!(CmdParser::split_key(""), vec![""]);
}

#[test]
fn insert_nested_follows_the_path() {
    let mut root = Table::new();
    let path = vec!["a".to_string(), "b".to_string()];
    CmdParser::insert_nested(&mut root, &path, 0, text("1"));
    CmdParser::insert_nested(&mut root, &path, 1, text("2"));
    CmdParser::insert_nested(&mut root, &path, 2, text("3"));
    let expected = table(vec![("a", table(vec![("b", text("1"))])), ("b", text("2"))]);
    assert_eq!(Value::Table(root), expected);
}
