use mingling::answers::Answers;
use mingling::classes::{class_add_suggestions, class_file_content, class_output_file, class_params, find_class, parse_classes, ClassEntry};
use mingling::rule_solver::{eval_rule, parse_checklist, parse_rules, resolve_answers, validate_mutexes};
use mingling::shell::ShellContext;
fn answers(pairs: &[(&str, &str)]) -> Answers {
    let mut a = Answers::new();
    for (k, v) in pairs {
        a.insert(k.to_string(), v.to_string());
    }
    a
}

#[test]
fn checklist_parses_flat_values() {
    let content = r#"
program_name = "my-cli"
parser = "picker"
exit_code = true
completion = true
"#;
    let answers = parse_checklist(content).unwrap();
    assert_eq!(answers.get("program_name").unwrap(), "my-cli");
    assert_eq!(answers.get("parser").unwrap(), "picker");
    assert_eq!(answers.get("exit_code").unwrap(), "true");
    assert_eq!(answers.get("completion").unwrap(), "true");
}

#[test]
fn checklist_ignores_commented_keys() {
    let content = r#"
# tokio = true
completion = true
"#;
    let answers = parse_checklist(content).unwrap();
    assert!(!answers.contains_key("tokio"));
    assert!(answers.contains_key("completion"));
}

#[test]
fn checklist_writes_numbers_and_skips_arrays() {
    let content = r#"
jobs = -42
ratio = 1.5
list = [1, 2]
[table]
x = 1
"#;
    let answers = parse_checklist(content).unwrap();
    assert_eq!(answers.get("jobs").unwrap(), "-42");
    assert_eq!(answers.get("ratio").unwrap(), "1.5");
    assert!(!answers.contains_key("list"));
    assert!(!answers.contains_key("table"));
    assert_eq!(answers.len(), 2);
}

#[test]
fn rules_parse_display_and_hide_file() {
    let content = r#"
[[display]]
name = "TOKIO"
rule = "tokio"

[[display]]
name = "ASYNC"
rule = "tokio || async_std"

[[display]]
name = "PARSER_PICKER"
rule = "use_parser && parser == picker"

[[hide-file]]
file = "./build.rs"
rule = "!completion && !pathf"
"#;
    let rules = parse_rules(content).unwrap();
    assert_eq!(rules.display.len(), 3);
    assert_eq!(rules.display[0].name, "TOKIO");
    assert_eq!(rules.display[0].rule, "tokio");
    assert_eq!(rules.display[1].rule, "tokio || async_std");
    assert_eq!(rules.display[2].rule, "use_parser && parser == picker");
    assert_eq!(rules.hide_files.len(), 1);
    assert_eq!(rules.hide_files[0].file, "./build.rs");
    assert_eq!(rules.hide_files[0].rule, "!completion && !pathf");
}

#[test]
fn rules_parse_user_defaults() {
    let content = r#"
[[user.toggle]]
name = "pathf"
default = true

[[user.toggle]]
name = "tokio"

[[user.selection]]
name = "parser"
option = [ "clap", "builtin", "picker" ]
"#;
    let rules = parse_rules(content).unwrap();
    assert_eq!(rules.users.len(), 3);
    assert_eq!(rules.users[0].name, "pathf");
    assert_eq!(rules.users[0].default.as_deref(), Some("true"));
    assert_eq!(rules.users[1].name, "tokio");
    assert_eq!(rules.users[1].default, None);
    assert_eq!(rules.users[2].name, "parser");
    assert_eq!(rules.users[2].default, None);
}

#[test]
fn resolve_answers_applies_declared_defaults() {
    let content = r#"
[[user.toggle]]
name = "pathf"
default = true

[[user.toggle]]
name = "completion"
"#;
    let rules = parse_rules(content).unwrap();

    let merged = resolve_answers(&answers(&[("completion", "true")]), &rules);
    assert_eq!(merged.get("completion").unwrap(), "true");
    assert_eq!(merged.get("pathf").unwrap(), "true");

    let merged = resolve_answers(&answers(&[("pathf", "false")]), &rules);
    assert_eq!(merged.get("pathf").unwrap(), "false");
}

#[test]
fn rules_parse_hide_dir() {
    let content = r#"
[[hide-dir]]
dir = "./src/completion/"
rule = "!completion"

[[hide-dir]]
dir = "./src/dispatch/"
rule = "!dispatch_tree"
"#;
    let rules = parse_rules(content).unwrap();
    assert_eq!(rules.hide_dirs.len(), 2);
    assert_eq!(rules.hide_dirs[0].dir, "./src/completion/");
    assert_eq!(rules.hide_dirs[0].rule, "!completion");
    assert_eq!(rules.hide_dirs[1].dir, "./src/dispatch/");
}

#[test]
fn rules_parse_toggle_mutex() {
    let content = r#"
[[user.toggle-mutex]]
mutex = [ "tokio", "async_std", "smol" ]
reason = "You can only select one async runtime"
"#;
    let rules = parse_rules(content).unwrap();
    assert_eq!(rules.mutexes.len(), 1);
    assert_eq!(rules.mutexes[0].mutex, vec!["tokio", "async_std", "smol"]);
    assert_eq!(rules.mutexes[0].reason, "You can only select one async runtime");
}

#[test]
fn validate_mutexes_allows_zero_or_one() {
    let content = r#"
[[user.toggle-mutex]]
mutex = [ "tokio", "async_std" ]
reason = "one async runtime only"
"#;
    let rules = parse_rules(content).unwrap();
    assert!(validate_mutexes(&Answers::new(), &rules).is_ok());
    assert!(validate_mutexes(&answers(&[("tokio", "true")]), &rules).is_ok());
}

#[test]
fn validate_mutexes_rejects_multiple_enabled() {
    let content = r#"
[[user.toggle-mutex]]
mutex = [ "tokio", "async_std" ]
reason = "one async runtime only"
"#;
    let rules = parse_rules(content).unwrap();
    let err = validate_mutexes(&answers(&[("tokio", "true"), ("async_std", "true")]), &rules).unwrap_err();
    assert!(err.contains("one async runtime only"), "unexpected: {err}");
    assert!(err.contains("tokio") && err.contains("async_std"));
}

#[test]
fn toggle_semantics_match_checklist_states() {
    let content = r#"
[[user.toggle]]
name = "pathf"
default = true

[[user.toggle]]
name = "tokio"
"#;
    let rules = parse_rules(content).unwrap();

    let merged = resolve_answers(&Answers::new(), &rules);
    assert_eq!(merged.get("pathf").unwrap(), "true");
    assert!(!merged.contains_key("tokio"));
    assert!(eval_rule("pathf", &merged));
    assert!(!eval_rule("tokio", &merged));

    let merged = resolve_answers(&answers(&[("pathf", "true"), ("tokio", "true")]), &rules);
    assert!(eval_rule("pathf", &merged));
    assert!(eval_rule("tokio", &merged));

    let merged = resolve_answers(&answers(&[("pathf", "false")]), &rules);
    assert_eq!(merged.get("pathf").unwrap(), "false");
    assert!(!eval_rule("pathf", &merged));
}

#[test]
fn rules_missing_name_is_refused() {
    let err = parse_rules("[[user.input]]\ndefault = \"x\"\n").unwrap_err();
    assert_eq!(err, "[[user.*]] entry is missing `name`");
    let err = parse_rules("[[display]]\nname = \"A\"\n").unwrap_err();
    assert_eq!(err, "[[display]] entry is missing `rule`");
    let err = parse_rules("[[hide-file]]\nrule = \"a\"\n").unwrap_err();
    assert_eq!(err, "[[hide-file]] entry is missing `file`");
    let err = parse_rules("[[hide-dir]]\ndir = \"d\"\n").unwrap_err();
    assert_eq!(err, "[[hide-dir]] entry is missing `rule`");
}

#[test]
fn rules_errors_come_in_section_order() {
    let content = "[[display]]\nrule = \"a\"\n\n[[user.selection]]\ndefault = 1\n";
    assert_eq!(parse_rules(content).unwrap_err(), "[[user.*]] entry is missing `name`");
}

#[test]
fn rules_mutex_defaults_and_string_filter() {
    let rules = parse_rules("[[user.toggle-mutex]]\nmutex = [\"a\", 1, \"b\"]\n").unwrap();
    assert_eq!(rules.mutexes[0].mutex, vec!["a", "b"]);
    assert_eq!(rules.mutexes[0].reason, "these options are mutually exclusive");
    let rules = parse_rules("[[user.toggle-mutex]]\nreason = \"r\"\n").unwrap();
    assert!(rules.mutexes[0].mutex.is_empty());
}

#[test]
fn rules_users_keep_kind_order_and_string_defaults() {
    let content = r#"
[[user.selection]]
name = "s"
[[user.input]]
name = "i"
default = "text"
[[user.toggle]]
name = "t"
default = false
[[user.input]]
name = "n"
default = 3
"#;
    let rules = parse_rules(content).unwrap();
    let names: Vec<&str> = rules.users.iter().map(|u| u.name.as_str()).collect();
    assert_eq!(names, vec!["i", "n", "t", "s"]);
    assert_eq!(rules.users[0].default.as_deref(), Some("text"));
    assert_eq!(rules.users[1].default, None);
    assert_eq!(rules.users[2].default.as_deref(), Some("false"));
}

#[test]
fn classes_parse_and_find() {
    let content = r#"
[[classes]]
name = "subcommand"
template = "classes/subcommand.rs"
output-dir = "src/command/"
description = "A subcommand"

[[classes]]
name = "renderer"
template = "classes/renderer.rs"
output-dir = "src/render/"
"#;
    let classes = parse_classes(content).unwrap();
    assert_eq!(classes.len(), 2);
    assert_eq!(classes[0].output_dir, "src/command/");
    assert_eq!(classes[1].description, "");
    assert_eq!(find_class(&classes, "renderer"), Some(1));
    assert_eq!(find_class(&classes, "missing"), None);
}

#[test]
fn classes_missing_fields_are_refused() {
    let err = parse_classes("[[classes]]\nname = \"a\"\ntemplate = \"t\"\n").unwrap_err();
    assert_eq!(err, "[[classes]] entry is missing `output-dir`");
    let err = parse_classes("[[classes]]\ntemplate = \"t\"\n").unwrap_err();
    assert_eq!(err, "[[classes]] entry is missing `name`");
    assert!(parse_classes("").unwrap().is_empty());
}

#[test]
fn class_params_and_output_file() {
    let params = class_params("brewCoffee");
    let expected = vec![
        ("snake_case", "brew_coffee"),
        ("pascal_case", "BrewCoffee"),
        ("kebab_case", "brew-coffee"),
        ("upper_snake_case", "BREW_COFFEE"),
        ("camel_case", "brewCoffee"),
    ];
    let got: Vec<(&str, &str)> = params.iter().map(|(k, v)| (k.as_str(), v.as_str())).collect();
    assert_eq!(got, expected);
    assert_eq!(class_output_file("Brew Coffee"), "brew_coffee.rs");
}

#[test]
fn class_add_completion() {
    let classes = vec![
        ClassEntry {
            name: "b".to_string(),
            template: "t".to_string(),
            output_dir: "o".to_string(),
            description: "".to_string(),
        },
        ClassEntry {
            name: "a".to_string(),
            template: "t".to_string(),
            output_dir: "o".to_string(),
            description: "first".to_string(),
        },
    ];
    let mut ctx = ShellContext::default();
    ctx.previous_word = "class-add".to_string();
    let s = class_add_suggestions(&ctx, Some(classes.clone()));
    let items = s.as_set().unwrap().items();
    assert_eq!(items.len(), 2);
    assert_eq!(items[0].suggest(), "a");
    assert_eq!(items[0].description().map(|d| d.as_str()), Some("first"));
    assert_eq!(items[1].description(), None);
    let s = class_add_suggestions(&ctx, None);
    assert_eq!(s.len(), 0);
    ctx.previous_word = "other".to_string();
    assert!(class_add_suggestions(&ctx, Some(classes)).is_file_completion());
}


#[test]
fn parses_class_entries() {
    let content = r#"
[[classes]]
name = "subcommand"
template = "classes/subcommand.rs"
output-dir = "src/command/"
description = "Add a subcommand"

[[classes]]
name = "resource"
template = "classes/resource.rs"
output-dir = "src/resource/"
"#;
    let entries = parse_classes(content).unwrap();
    assert_eq!(entries.len(), 2);
    assert_eq!(entries[0].name, "subcommand");
    assert_eq!(entries[0].template, "classes/subcommand.rs");
    assert_eq!(entries[0].output_dir, "src/command/");
    assert_eq!(entries[0].description, "Add a subcommand");
    assert_eq!(entries[1].name, "resource");
    assert_eq!(entries[1].description, "");
}

#[test]
fn parses_empty_classes() {
    let entries = parse_classes("").unwrap();
    assert!(entries.is_empty());
}

#[test]
fn missing_fields_are_rejected() {
    let content = r#"
[[classes]]
name = "subcommand"
"#;
    assert!(parse_classes(content).is_err());
}

#[test]
fn text_that_is_not_toml_is_refused() {
    assert!(parse_rules("[[display").is_err());
    assert!(parse_checklist("a = ").is_err());
    assert!(parse_classes("= x").is_err());
}

#[test]
fn class_files_are_expanded() {
    let out = class_file_content("struct <<<pascal_case>>>; // <<<snake_case>>>", "my thing");
    assert_eq!(out, Some("struct MyThing; // my_thing".to_string()));
}
