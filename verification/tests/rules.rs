use mingling::answers::Answers;
use mingling::rule_solver::{eval_rule, resolve_answers, validate_mutexes, TemplateRules, UserMutex, UserRule};

fn answers(pairs: &[(&str, &str)]) -> Answers {
    let mut a = Answers::new();
    for (k, v) in pairs {
        a.insert(k.to_string(), v.to_string());
    }
    a
}

#[test]
fn eval_bare_identifier() {
    let mut answers = Answers::new();
    answers.insert("tokio".into(), "true".into());
    assert!(eval_rule("tokio", &answers));
    assert!(!eval_rule("async_std", &answers));
}

#[test]
fn eval_false_value_is_falsy() {
    let mut answers = Answers::new();
    answers.insert("pathf".into(), "false".into());
    assert!(!eval_rule("pathf", &answers));

    // Empty string is also falsy.
    answers.insert("empty".into(), "".into());
    assert!(!eval_rule("empty", &answers));
}

#[test]
fn eval_boolean_operators() {
    let mut answers = Answers::new();
    answers.insert("tokio".into(), "true".into());
    answers.insert("completion".into(), "true".into());
    answers.insert("pathf".into(), "false".into());

    assert!(eval_rule("tokio || async_std", &answers));
    assert!(!eval_rule("async_std && tokio", &answers));
    assert!(eval_rule("!async_std", &answers));
    // completion is true, so `!completion && !pathf` is false
    assert!(!eval_rule("!completion && !pathf", &answers));
    // with neither key present the same rule becomes true
    assert!(eval_rule("!completion && !pathf", &Answers::new()));
    assert!(eval_rule("(tokio || async_std) && completion", &answers));
    assert!(!eval_rule("(async_std || tokio) && !completion", &answers));
}

#[test]
fn eval_equality_comparison() {
    let mut answers = Answers::new();
    answers.insert("parser".into(), "picker".into());
    answers.insert("use_parser".into(), "true".into());

    assert!(eval_rule("parser == picker", &answers));
    assert!(!eval_rule("parser == clap", &answers));
    assert!(eval_rule("use_parser && parser == picker", &answers));
}

#[test]
fn eval_not_equal_comparison() {
    let mut answers = Answers::new();
    answers.insert("parser".into(), "picker".into());
    answers.insert("use_parser".into(), "true".into());

    assert!(!eval_rule("parser != picker", &answers));
    assert!(eval_rule("parser != clap", &answers));

    // The template's NOT_PARSER_PICKER rule.
    assert!(!eval_rule("!use_parser || parser != picker", &answers));
    answers.remove("use_parser");
    assert!(eval_rule("!use_parser || parser != picker", &answers));
}

#[test]
fn eval_rejects_trailing_garbage() {
    let mut answers = Answers::new();
    answers.insert("parser".into(), "picker".into());
    assert!(!eval_rule("parser >>> picker", &answers));
    assert!(!eval_rule("parser ||", &answers));
}

#[test]
fn eval_and_binds_tighter_than_or() {
    let a = answers(&[("x", "true")]);
    assert!(eval_rule("x || y && z", &a));
    assert!(!eval_rule("(x || y) && z", &a));
    assert!(eval_rule("!!x", &a));
    assert!(!eval_rule("", &a));
}

fn toggles(defaults: &[(&str, Option<&str>)]) -> TemplateRules {
    let mut rules = TemplateRules::default();
    for (name, default) in defaults {
        rules.users.push(UserRule { name: name.to_string(), default: default.map(|d| d.to_string()) });
    }
    rules
}

#[test]
fn resolve_answers_fills_missing_defaults_only() {
    let rules = toggles(&[("pathf", Some("true")), ("completion", None)]);
    let merged = resolve_answers(&answers(&[("completion", "true")]), &rules);
    assert_eq!(merged.get("completion").unwrap(), "true");
    assert_eq!(merged.get("pathf").unwrap(), "true");

    let merged = resolve_answers(&answers(&[("pathf", "false")]), &rules);
    assert_eq!(merged.get("pathf").unwrap(), "false");
    assert!(!merged.contains_key("completion"));
}

fn mutex_rules() -> TemplateRules {
    let mut rules = TemplateRules::default();
    rules.mutexes.push(UserMutex {
        mutex: vec!["tokio".to_string(), "async_std".to_string()],
        reason: "one async runtime only".to_string(),
    });
    rules
}

#[test]
fn validate_mutexes_allows_at_most_one() {
    let rules = mutex_rules();
    assert!(validate_mutexes(&Answers::new(), &rules).is_ok());
    assert!(validate_mutexes(&answers(&[("tokio", "true")]), &rules).is_ok());
}

#[test]
fn validate_mutexes_reports_the_enabled_toggles() {
    let rules = mutex_rules();
    let err = validate_mutexes(&answers(&[("tokio", "true"), ("async_std", "true")]), &rules).unwrap_err();
    assert_eq!(err, "one async runtime only (enabled: tokio, async_std)");
}

#[test]
fn answers_insert_replaces_and_remove_forgets() {
    let mut a = Answers::new();
    assert_eq!(a.insert("k".into(), "1".into()), None);
    assert_eq!(a.insert("k".into(), "2".into()), Some("1".to_string()));
    assert_eq!(a.len(), 1);
    assert_eq!(a.remove("k"), Some("2".to_string()));
    assert!(a.get("k").is_none());
}
