use mingling::display::{
    apply_color, color_of, find_matching, find_tag_end, line_tokens, parse, ColorCode, MarkStyle, TermColor,
};

fn toks(line: &str) -> Vec<(String, MarkStyle, Vec<String>)> {
    line_tokens(line).into_iter().map(|t| (t.text, t.style, t.colors)).collect()
}

fn plain(c: &str, colors: &[&str]) -> (String, MarkStyle, Vec<String>) {
    (c.to_string(), MarkStyle::Plain, colors.iter().map(|s| s.to_string()).collect())
}

fn is_painted(t: &str, r: &str) -> bool {
    r == t || (r.starts_with("\x1b[") && r.ends_with("\x1b[0m"))
}

#[test]
fn tokens_of_bold_text() {
    let t = toks("Hello **world**!");
    assert_eq!(t.len(), 8);
    assert_eq!(t[0], plain("H", &[]));
    assert_eq!(t[6], ("world".to_string(), MarkStyle::Bold, vec![]));
    assert_eq!(t[7], plain("!", &[]));
}

#[test]
fn tokens_of_styles() {
    let t = toks("*i*_u_<a>`c`");
    assert_eq!(
        t,
        vec![
            ("i".to_string(), MarkStyle::Italic, vec![]),
            ("u".to_string(), MarkStyle::Underline, vec![]),
            ("<a>".to_string(), MarkStyle::Angle, vec![]),
            ("`c`".to_string(), MarkStyle::Code, vec![]),
        ]
    );
}

#[test]
fn tokens_of_escapes() {
    let t = toks("\\*a\\_\\q");
    assert_eq!(t, vec![plain("*", &[]), plain("a", &[]), plain("_", &[]), plain("\\", &[]), plain("q", &[])]);
}

#[test]
fn tokens_of_nested_color_tags() {
    let t = toks("[[blue]]B [[green]]G[[/]] B[[/]] n");
    assert_eq!(
        t,
        vec![
            plain("B", &["blue"]),
            plain(" ", &["blue"]),
            plain("G", &["blue", "green"]),
            plain(" ", &["blue"]),
            plain("B", &["blue"]),
            plain(" ", &[]),
            plain("n", &[]),
        ]
    );
}

#[test]
fn unclosed_markup_is_plain() {
    let t = toks("a*b");
    assert_eq!(t, vec![plain("a", &[]), plain("*", &[]), plain("b", &[])]);
    let t = toks("[[red");
    assert_eq!(t.len(), 5);
    assert_eq!(t[0], plain("[", &[]));
}

#[test]
fn double_star_without_close_is_empty_italic() {
    let t = toks("**x");
    assert_eq!(t, vec![("".to_string(), MarkStyle::Italic, vec![]), plain("x", &[])]);
}

#[test]
fn closing_tag_with_nothing_open() {
    let t = toks("[[/]]x");
    assert_eq!(t, vec![plain("x", &[])]);
}

#[test]
fn find_matching_single_and_double() {
    let cs: Vec<char> = "a*b**c".chars().collect();
    assert_eq!(find_matching(&cs, 0, "*"), Some(1));
    assert_eq!(find_matching(&cs, 2, "**"), Some(3));
    assert_eq!(find_matching(&cs, 5, "*"), None);
    assert_eq!(find_matching(&cs, 9, "*"), None);
}

#[test]
fn find_tag_end_positions() {
    let cs: Vec<char> = "[[red]]x".chars().collect();
    assert_eq!(find_tag_end(&cs, 0), Some(5));
    let cs: Vec<char> = "[[red]".chars().collect();
    assert_eq!(find_tag_end(&cs, 0), None);
}

#[test]
fn color_names() {
    assert_eq!(color_of("red"), Some(TermColor::Red));
    assert_eq!(color_of("b_red"), Some(TermColor::BrightRed));
    assert_eq!(color_of("grey"), Some(TermColor::BrightBlack));
    assert_eq!(color_of("bright_gray"), Some(TermColor::White));
    assert_eq!(color_of("bright_white"), Some(TermColor::BrightWhite));
    assert_eq!(color_of("purple"), None);
}

#[test]
fn unknown_color_leaves_text() {
    assert_eq!(apply_color("abc", "purple"), "abc");
    assert!(is_painted("abc", &apply_color("abc", "red")));
}

#[test]
fn parse_plain_text_unchanged() {
    assert_eq!(parse("hello world"), "hello world");
    assert_eq!(parse(""), "");
}

#[test]
fn parse_heading_levels_and_indent() {
    assert_eq!(parse("# Title"), "\x1b[1m\x1b[47m\x1b[30m Title \x1b[0m");
    assert_eq!(parse("## A\ntext"), " \x1b[1m\x1b[47m\x1b[30m A \x1b[0m\n  text");
    assert_eq!(parse("####### Deep"), "     \x1b[1m\x1b[47m\x1b[30m Deep \x1b[0m");
}

#[test]
fn parse_blank_lines_and_trim() {
    assert_eq!(parse("a\n\nb"), "a\n \nb");
    assert_eq!(parse("  a  \r\nb\n"), "a\nb");
}

#[test]
fn parse_quote_and_escaped_quote() {
    assert_eq!(parse("> quote"), "\x1b[48;5;242m\x1b[38;5;242m \x1b[0m quote");
    assert_eq!(parse(">\\>"), ">>");
}

#[test]
fn parse_underline_is_exact() {
    assert_eq!(parse("_u_"), "\x1b[4mu\x1b[0m");
    assert_eq!(parse("[[nope]]_u_[[/]]"), "\x1b[4mu\x1b[0m");
}

#[test]
fn parse_bold_is_painted() {
    let r = parse("**b**");
    assert!(is_painted("b", &r));
    let r = "**b**".parse_color_code();
    assert!(is_painted("b", &r));
    let r = String::from("x").parse_color_code();
    assert_eq!(r, "x");
}

#[test]
fn colors_write_their_own_codes() {
    colored::control::set_override(true);
    assert_eq!(apply_color("x", "green"), "\x1b[32mx\x1b[0m");
    assert_eq!(apply_color("x", "b_white"), "\x1b[97mx\x1b[0m");
    assert_eq!(apply_color("a\x1b[0mb", "red"), "\x1b[31ma\x1b[0m\x1b[31mb\x1b[0m");
    assert_eq!(apply_color("x", "nope"), "x");
    colored::control::unset_override();
}
