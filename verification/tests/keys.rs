use realme::errors::Error;
use realme::value::expr::Expression;
use realme::value::key::Key;

fn segments(e: &Expression) -> Vec<String> {
    match e {
        Expression::Identifier(name) => vec![name.clone()],
        Expression::Child(parent, name) => {
            let mut path = segments(parent);
            path.push(name.clone());
            path
        }
    }
}

#[test]
fn text_keys_are_parsed_as_dotted_paths() {
    assert_eq!(segments(&"name".to_key().unwrap()), vec!["name"]);
    assert_eq!(segments(&"a.b_c.d9".to_key().unwrap()), vec!["a", "b_c", "d9"]);
    assert_eq!(segments(&"a.b".to_string().to_key().unwrap()), vec!["a", "b"]);
    assert!(matches!("x".to_key().unwrap(), Expression::Identifier(_)));
    assert!(matches!("x.y".to_key().unwrap(), Expression::Child(_, _)));
}

#[test]
fn text_keys_with_an_empty_segment_are_rejected() {
    for key in ["", "a..b", ".a", "a."] {
        match key.to_key() {
            Err(Error::Key { key: carried, message }) => {
                assert_eq!(carried, key);
                assert_eq!(message, "empty segment in key");
            }
            other => panic!("{:?} gave {:?}", key, other),
        }
    }
}

#[test]
fn text_keys_with_an_invalid_character_are_rejected() {
    for key in ["a b", "a.b-c", "a[0]", " a", "a.=", "x.y z.w"] {
        match key.to_key() {
            Err(Error::Key { key: carried, message }) => {
                assert_eq!(carried, key);
                assert_eq!(message, "invalid character in key");
            }
            other => panic!("{:?} gave {:?}", key, other),
        }
    }
    match "a..b c".to_key() {
        Err(e) => assert_eq!(e.message(), "empty segment in key"),
        other => panic!("{:?}", other),
    }
}

#[test]
fn integer_keys_are_names_not_indices() {
    for (n, expected) in [
        (0isize, "0"),
        (7, "7"),
        (10, "10"),
        (42, "42"),
        (-1, "-1"),
        (-120, "-120"),
        (isize::MAX, "9223372036854775807"),
        (isize::MIN, "-9223372036854775808"),
    ] {
        match n.to_key().unwrap() {
            Expression::Identifier(name) => assert_eq!(name, expected),
            other => panic!("{:?}", other),
        }
    }
}

#[test]
fn expressions_are_their_own_keys() {
    let path = "a.b.c".to_key().unwrap();
    let same = path.to_key().unwrap();
    assert_eq!(segments(&same), vec!["a", "b", "c"]);
    let borrowed = (&path).to_key().unwrap();
    assert_eq!(segments(&borrowed), vec!["a", "b", "c"]);
    let copy = path.clone();
    assert_eq!(segments(&copy), segments(&path));
}

#[test]
fn expression_parts() {
    assert!(Expression::check_identifier("abc_9"));
    assert!(!Expression::check_identifier(""));
    assert!(!Expression::check_identifier("a.b"));
    let parts = vec!["x".to_string(), "y".to_string()];
    assert_eq!(segments(&Expression::from_segments(&parts)), vec!["x", "y"]);
    assert_eq!(segments(&Expression::parse("k").unwrap()), vec!["k"]);
}
