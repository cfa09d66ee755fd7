use mingling::splitter::split_input;

#[test]
fn test_split_with_double_quotes() {
    let input = r#"a "b c" d"#;
    let result = split_input(input);
    assert_eq!(result, vec!["a", "b c", "d"]);
}

#[test]
fn test_split_with_single_quotes() {
    let input = "a 'b c' d";
    let result = split_input(input);
    assert_eq!(result, vec!["a", "b c", "d"]);
}

#[test]
fn test_empty_input() {
    assert!(split_input("").is_empty());
}

#[test]
fn test_no_quotes() {
    let result = split_input("hello world");
    assert_eq!(result, vec!["hello", "world"]);
}

#[test]
fn test_double_quotes_at_edges() {
    let result = split_input(r#""hello world" foo"#);
    assert_eq!(result, vec!["hello world", "foo"]);
}

#[test]
fn test_single_quotes_at_edges() {
    let result = split_input("'hello world' foo");
    assert_eq!(result, vec!["hello world", "foo"]);
}

#[test]
fn test_multiple_double_quoted_parts() {
    let result = split_input(r#"a "b c" d "e f g""#);
    assert_eq!(result, vec!["a", "b c", "d", "e f g"]);
}

#[test]
fn test_multiple_single_quoted_parts() {
    let result = split_input("a 'b c' d 'e f g'");
    assert_eq!(result, vec!["a", "b c", "d", "e f g"]);
}

#[test]
fn test_backslash_escaped_space() {
    let result = split_input("a b\\ c d");
    assert_eq!(result, vec!["a", "b c", "d"]);
}

#[test]
fn test_backslash_escaped_double_quote() {
    let result = split_input(r#"a b\"c d"#);
    assert_eq!(result, vec!["a", r#"b"c"#, "d"]);
}

#[test]
fn test_backslash_escaped_single_quote() {
    let result = split_input("a b\\'c d");
    assert_eq!(result, vec!["a", "b'c", "d"]);
}

#[test]
fn split_never_yields_empty_arguments() {
    for input in ["", "   ", "a  b", "'' \"\" x", "a\\  b"] {
        for arg in split_input(input) {
            assert!(!arg.is_empty(), "empty argument from {input:?}");
        }
    }
}
