use mingling::answers::Answers;
use mingling::packages::EntryKind;
use mingling::project_gen::{expansion_action, hidden_files, project_params, target_name, EntryAction};
use mingling::rule_solver::{resolve_answers, DisplayRule, HideFileRule, TemplateRules};

fn answers(pairs: &[(&str, &str)]) -> Answers {
    let mut a = Answers::new();
    for (k, v) in pairs {
        a.insert(k.to_string(), v.to_string());
    }
    a
}

fn rules() -> TemplateRules {
    let mut r = TemplateRules::default();
    r.display.push(DisplayRule { name: "TOKIO".to_string(), rule: "tokio".to_string() });
    r.display.push(DisplayRule { name: "SYNC".to_string(), rule: "!tokio".to_string() });
    r.hide_files.push(HideFileRule { file: "././build.rs".to_string(), rule: "!completion".to_string() });
    r.hide_files.push(HideFileRule { file: "./keep.rs".to_string(), rule: "completion".to_string() });
    r.hide_files.push(HideFileRule { file: "src/x.rs".to_string(), rule: "!tokio".to_string() });
    r
}

#[test]
fn params_add_true_display_blocks() {
    let a = resolve_answers(&answers(&[("tokio", "true")]), &rules());
    let p = project_params(&a, &rules());
    assert_eq!(p.get("tokio").unwrap(), "true");
    assert_eq!(p.get("TOKIO").unwrap(), "");
    assert!(!p.contains_key("SYNC"));
}

#[test]
fn hidden_files_strip_dot_slash() {
    let a = answers(&[("tokio", "true")]);
    assert_eq!(hidden_files(&a, &rules()), vec!["build.rs".to_string()]);
    let a = answers(&[("completion", "true")]);
    assert_eq!(hidden_files(&a, &rules()), vec!["keep.rs".to_string(), "src/x.rs".to_string()]);
}

#[test]
fn template_entry_actions() {
    assert_eq!(expansion_action("tmpl_.mling", EntryKind::Dir), EntryAction::CopyMling);
    assert_eq!(expansion_action("tmpl_src", EntryKind::Dir), EntryAction::Descend("src".to_string()));
    assert_eq!(expansion_action("docs", EntryKind::Dir), EntryAction::Descend("docs".to_string()));
    assert_eq!(expansion_action("tmpl_main.rs", EntryKind::File), EntryAction::Expand("main.rs".to_string()));
    assert_eq!(expansion_action("README.md", EntryKind::File), EntryAction::Skip);
    assert_eq!(expansion_action("tmpl_.mling", EntryKind::File), EntryAction::Expand(".mling".to_string()));
    assert_eq!(target_name("tmpl_tmpl_x"), "tmpl_x");
}
