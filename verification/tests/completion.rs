use mingling::completion::{default_completion, is_completing, render_suggest_lines, COMPLETION_SUBCOMMAND};
use mingling::shell::ShellFlag;
use mingling::shell::ShellContext;
use mingling::suggest::{Suggest, SuggestItem};

fn args(items: &[&str]) -> Vec<String> {
    items.iter().map(|s| s.to_string()).collect()
}

#[test]
fn completion_subcommand_constant() {
    assert_eq!(COMPLETION_SUBCOMMAND, "__comp");
}

#[test]
fn test_is_completing_with_comp_subcommand() {
    assert!(is_completing(&args(&["program", "__comp", "some", "args"])));
}

#[test]
fn test_is_completing_with_normal_subcommand() {
    assert!(!is_completing(&args(&["program", "normal", "cmd"])));
}

#[test]
fn test_is_completing_with_no_args() {
    assert!(!is_completing(&args(&["program"])));
}

fn texts(s: &Suggest) -> Vec<String> {
    s.as_set()
        .expect("suggestions")
        .items()
        .iter()
        .map(|i| i.suggest().clone())
        .collect()
}

fn nodes() -> Vec<String> {
    args(&["remote add", "remote remove", "status", "_internal", "stash push"])
}

#[test]
fn default_completion_on_program_name_completes_files() {
    let ctx = ShellContext { word_index: 0, all_words: args(&["mling"]), ..Default::default() };
    assert!(default_completion(&nodes(), &ctx).is_file_completion());
}

#[test]
fn default_completion_lists_first_level_commands() {
    let ctx = ShellContext { word_index: 1, all_words: args(&["mling"]), ..Default::default() };
    let s = default_completion(&nodes(), &ctx);
    assert_eq!(texts(&s), vec!["remote", "stash", "status"]);
}

#[test]
fn default_completion_completes_the_word_being_typed() {
    let ctx = ShellContext {
        word_index: 2,
        current_word: "st".to_string(),
        all_words: args(&["mling", "st"]),
        ..Default::default()
    };
    let s = default_completion(&nodes(), &ctx);
    assert_eq!(texts(&s), vec!["stash", "status"]);
}

#[test]
fn default_completion_suggests_next_level() {
    let ctx = ShellContext {
        word_index: 2,
        current_word: "".to_string(),
        all_words: args(&["mling", "remote"]),
        ..Default::default()
    };
    let s = default_completion(&nodes(), &ctx);
    assert_eq!(texts(&s), vec!["add", "remove"]);
}

#[test]
fn default_completion_partial_second_word() {
    let ctx = ShellContext {
        word_index: 3,
        current_word: "rem".to_string(),
        all_words: args(&["mling", "remote", "rem"]),
        ..Default::default()
    };
    let s = default_completion(&nodes(), &ctx);
    assert_eq!(texts(&s), vec!["remove"]);
    assert!(s.as_set().unwrap().contains(&SuggestItem::new("remove".to_string())));
}

#[test]
fn default_completion_unknown_word_completes_files() {
    let ctx = ShellContext {
        word_index: 2,
        current_word: "zzz".to_string(),
        all_words: args(&["mling", "zzz"]),
        ..Default::default()
    };
    assert!(default_completion(&nodes(), &ctx).is_file_completion());
}

#[test]
fn default_completion_never_suggests_hidden_nodes() {
    let ctx = ShellContext {
        word_index: 2,
        current_word: "_".to_string(),
        all_words: args(&["mling", "_"]),
        ..Default::default()
    };
    assert!(default_completion(&nodes(), &ctx).is_file_completion());
}

#[test]
fn suggest_lines_per_shell() {
    let s = Suggest::from_items(vec![
        SuggestItem::new_with_desc("b".to_string(), "bee".to_string()),
        SuggestItem::new("a".to_string()),
    ]);
    assert_eq!(render_suggest_lines(&ShellFlag::Zsh, &s), vec!["a", "b$(bee)"]);
    assert_eq!(render_suggest_lines(&ShellFlag::Powershell, &s), vec!["a", "b$(bee)"]);
    assert_eq!(render_suggest_lines(&ShellFlag::Fish, &s), vec!["a", "b\tbee"]);
    assert_eq!(render_suggest_lines(&ShellFlag::Bash, &s), vec!["a", "b"]);
    assert_eq!(render_suggest_lines(&ShellFlag::Bash, &Suggest::file_comp()), vec!["_file_"]);
}
