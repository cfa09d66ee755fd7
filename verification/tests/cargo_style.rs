use mingling::cargo_style::{get_cargo_error_format, get_cargo_help_format, get_cargo_info_format};

#[test]
fn info_format_aligns_the_verb() {
    let line = get_cargo_info_format("Downloaded: file.tar.gz  ");
    assert!(line.starts_with("  "));
    assert!(line.ends_with(" file.tar.gz"));
    assert!(line.contains("Downloaded"));
}

#[test]
fn info_format_without_verb() {
    let line = get_cargo_info_format("  plain message ");
    assert!(line.starts_with("            "));
    assert!(line.ends_with(" plain message"));
}

#[test]
fn error_and_help_formats_end_with_the_message() {
    assert!(get_cargo_error_format("bad thing").ends_with(": bad thing"));
    assert!(get_cargo_error_format("bad thing").contains("error"));
    assert!(get_cargo_help_format("try this").ends_with(": try this"));
}

#[test]
fn info_format_pads_by_characters() {
    let line = get_cargo_info_format("Über: x");
    assert!(line.starts_with("        "));
    assert!(!line.starts_with("         "));
    assert!(line.ends_with(" x"));
}
