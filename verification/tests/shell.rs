use mingling::shell::{ShellContext, ShellFlag};
use mingling::suggest::{Suggest, SuggestItem};
use std::collections::HashSet;
#[test]
fn test_try_from_full_args() {
    let args = vec![
        "-f".to_string(),
        "git commit ^m 'test'".to_string(),
        "-C".to_string(),
        "12".to_string(),
        "-w".to_string(),
        "commit".to_string(),
        "-p".to_string(),
        "git".to_string(),
        "-c".to_string(),
        "git".to_string(),
        "-i".to_string(),
        "1".to_string(),
        "-F".to_string(),
        "bash".to_string(),
    ];

    let context = ShellContext::try_from(args).unwrap();
    assert_eq!(context.command_line, "git commit -m 'test'");
    assert_eq!(context.cursor_position, 12);
    assert_eq!(context.current_word, "commit");
    assert_eq!(context.previous_word, "git");
    assert_eq!(context.command_name, "git");
    assert_eq!(context.word_index, 1);
    assert_eq!(context.all_words, vec!["git", "commit", "-m", "'test'"]);
    assert!(matches!(context.shell_flag, ShellFlag::Bash));
}

#[test]
fn test_try_from_partial_args() {
    let args = vec![
        "-f".to_string(),
        "ls ^la".to_string(),
        "-C".to_string(),
        "5".to_string(),
    ];

    let context = ShellContext::try_from(args).unwrap();
    assert_eq!(context.command_line, "ls -la");
    assert_eq!(context.cursor_position, 5);
    assert_eq!(context.current_word, "");
    assert_eq!(context.previous_word, "");
    assert_eq!(context.command_name, "");
    assert_eq!(context.word_index, 0);
    assert_eq!(context.all_words, vec!["ls", "-la"]);
    assert!(matches!(context.shell_flag, ShellFlag::Other(ref s) if s == "unknown"));
}

#[test]
fn test_try_from_empty_args() {
    let args = vec![];
    let context = ShellContext::try_from(args).unwrap();
    assert_eq!(context.command_line, "");
    assert_eq!(context.cursor_position, 0);
    assert_eq!(context.current_word, "");
    assert_eq!(context.previous_word, "");
    assert_eq!(context.command_name, "");
    assert_eq!(context.word_index, 0);
    assert!(context.all_words.is_empty());
    assert!(matches!(context.shell_flag, ShellFlag::Other(ref s) if s == "unknown"));
}

#[test]
fn test_try_from_flag_without_value() {
    let args = vec!["-F".to_string()];
    let context = ShellContext::try_from(args).unwrap();
    assert!(matches!(context.shell_flag, ShellFlag::Other(ref s) if s.is_empty()));
}

#[test]
fn test_all_words_splitting() {
    let args = vec!["-f".to_string(), "  cmd   arg1   arg2  ".to_string()];
    let context = ShellContext::try_from(args).unwrap();
    assert_eq!(context.all_words, vec!["cmd", "arg1", "arg2"]);
}

#[test]
fn test_filling_argument_first_true() {
    let ctx = ShellContext {
        previous_word: "--flag".to_string(),
        current_word: "".to_string(),
        all_words: vec!["cmd".to_string(), "--flag".to_string()],
        ..Default::default()
    };
    assert!(ctx.filling_argument_first(&["--flag", "-f"][..]));
}

#[test]
fn test_filling_argument_first_false() {
    let ctx = ShellContext {
        previous_word: "--flag".to_string(),
        current_word: "".to_string(),
        all_words: vec![
            "cmd".to_string(),
            "--flag".to_string(),
            "--flag".to_string(),
        ],
        ..Default::default()
    };
    assert!(!ctx.filling_argument_first(&["--flag", "-f"][..]));
}

#[test]
fn test_filling_argument_matches() {
    let ctx = ShellContext {
        previous_word: "--flag".to_string(),
        current_word: "".to_string(),
        all_words: vec!["cmd".to_string(), "--flag".to_string()],
        ..Default::default()
    };
    assert!(ctx.filling_argument(&["--flag", "-f"][..]));
}

#[test]
fn test_filling_argument_no_match() {
    let ctx = ShellContext {
        previous_word: "other".to_string(),
        current_word: "".to_string(),
        all_words: vec!["cmd".to_string(), "other".to_string()],
        ..Default::default()
    };
    assert!(!ctx.filling_argument(&["--flag", "-f"][..]));
}

#[test]
fn test_typing_argument_starts_with_dash() {
    let current_word = "--verbose".to_string();
    let ctx = ShellContext {
        previous_word: "".to_string(),
        current_word,
        all_words: vec!["cmd".to_string(), "--verbose".to_string()],
        ..Default::default()
    };
    assert!(ctx.typing_argument(false));
}

#[test]
fn test_typing_argument_no_dash() {
    let ctx = ShellContext {
        previous_word: "".to_string(),
        current_word: "somefile".to_string(),
        all_words: vec!["cmd".to_string(), "somefile".to_string()],
        ..Default::default()
    };
    assert!(!ctx.typing_argument(false));
}

#[test]
fn test_strip_typed_argument_suggest() {
    let ctx = ShellContext {
        all_words: vec!["--flag".to_string()],
        ..Default::default()
    };
    let suggest: Suggest = vec!["--flag", "--other"].into();
    let stripped = ctx.strip_typed_argument(suggest);
    match stripped {
        Suggest::Suggest(set) => {
            assert_eq!(set.len(), 1);
            assert!(set.contains(&SuggestItem::new("--other".to_string())));
        }
        Suggest::FileCompletion => panic!("expected Suggest variant"),
    }
}

#[test]
fn test_strip_typed_argument_file_completion() {
    let ctx = ShellContext {
        all_words: vec!["--flag".to_string()],
        ..Default::default()
    };
    let stripped = ctx.strip_typed_argument(Suggest::FileCompletion);
    assert_eq!(stripped, Suggest::FileCompletion);
}

#[test]
fn test_get_typed_arguments() {
    let ctx = ShellContext {
        previous_word: "".to_string(),
        current_word: "".to_string(),
        all_words: vec![
            "cmd".to_string(),
            "--flag".to_string(),
            "--other".to_string(),
            "file.txt".to_string(),
        ],
        ..Default::default()
    };
    let typed: HashSet<String> = ctx.get_typed_arguments().into_iter().collect();
    let expected: HashSet<String> = vec!["--flag".to_string(), "--other".to_string()]
        .into_iter()
        .collect();
    assert_eq!(typed, expected);
}

#[test]
fn shell_flag_names_are_normalised() {
    assert!(matches!(ShellFlag::from("  ZSH ".to_string()), ShellFlag::Zsh));
    assert!(matches!(ShellFlag::from("ps1".to_string()), ShellFlag::Powershell));
    assert!(matches!(ShellFlag::from("nu".to_string()), ShellFlag::Nushell));
    assert!(matches!(ShellFlag::from("My Shell".to_string()), ShellFlag::Other(ref s) if s == "my_shell"));
    let name: String = ShellFlag::Powershell.into();
    assert_eq!(name, "powershell");
}

#[test]
fn filling_argument_first_needs_the_flag_among_the_words() {
    let ctx = ShellContext {
        previous_word: "--flag".to_string(),
        current_word: "".to_string(),
        all_words: vec!["cmd".to_string()],
        ..Default::default()
    };
    assert!(!ctx.filling_argument_first(&["--flag", "-f"][..]));
}

#[test]
fn typing_argument_on_windows_counts_an_empty_word() {
    let ctx = ShellContext { current_word: "".to_string(), ..Default::default() };
    assert!(ctx.typing_argument(true));
    assert!(!ctx.typing_argument(false));
    let ctx = ShellContext { current_word: "-v".to_string(), ..Default::default() };
    assert!(ctx.typing_argument(true));
    let ctx = ShellContext { current_word: "v".to_string(), ..Default::default() };
    assert!(!ctx.typing_argument(true));
}
