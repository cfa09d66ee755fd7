use mingling::shell::ShellContext;
use mingling::packages::{
    entry_names_completion,
    binary_file_names, completion_script_names, package_dir_name,
    collect_packages, compare_versions, enabled_version_dirs, package_name_is_valid, package_spec_is_valid,
    pick_version, sorted_texts, split_package_spec, uninstall_outcome, uninstall_targets, EntryKind,
    PackageDirEntry, UninstallOutcome,
};

fn strings(xs: &[&str]) -> Vec<String> {
    xs.iter().map(|s| s.to_string()).collect()
}

fn dir(name: &str) -> PackageDirEntry {
    PackageDirEntry { name: name.to_string(), kind: EntryKind::Dir, content: None }
}

fn file(name: &str, content: &str) -> PackageDirEntry {
    PackageDirEntry { name: name.to_string(), kind: EntryKind::File, content: Some(content.to_string()) }
}

#[test]
fn spec_validity() {
    assert!(package_spec_is_valid("omg@0.1"));
    assert!(!package_spec_is_valid("a/b"));
    assert!(!package_spec_is_valid("a\\b"));
    assert!(!package_spec_is_valid("..x"));
    assert!(package_name_is_valid("omg"));
    assert!(!package_name_is_valid("omg@1"));
}

#[test]
fn spec_split_at_first_at() {
    assert_eq!(split_package_spec("omg@0.1@x"), ("omg".to_string(), Some("0.1@x".to_string())));
    assert_eq!(split_package_spec("omg"), ("omg".to_string(), None));
    assert_eq!(split_package_spec("omg@"), ("omg".to_string(), Some(String::new())));
}

#[test]
fn uninstall_targets_by_spec() {
    let names = strings(&["omg@0.1.0", "omgx@1.0.0", "omg@0.1.1", "other@1"]);
    assert_eq!(uninstall_targets("omg", &names), strings(&["omg@0.1.0", "omg@0.1.1"]));
    assert_eq!(uninstall_targets("omg@9", &names), strings(&["omg@9"]));
    assert!(uninstall_targets("none", &names).is_empty());
}

#[test]
fn uninstall_outcomes() {
    assert_eq!(uninstall_outcome(0, 0), UninstallOutcome::NoMatchingPackages);
    assert_eq!(uninstall_outcome(2, 1), UninstallOutcome::Uninstalled);
    assert_eq!(uninstall_outcome(0, 3), UninstallOutcome::NotInstalled);
}

#[test]
fn version_comparison() {
    assert_eq!(compare_versions("1.10.0", "1.9.0"), 1);
    assert_eq!(compare_versions("1.0.0-rc1", "1.0.0"), -1);
    assert_eq!(compare_versions("1.0.0", "1.0.0"), 0);
    assert_eq!(compare_versions("1.0.0", "abc"), 1);
    assert_eq!(compare_versions("abc", "abd"), -1);
}

#[test]
fn pick_newest_matching_version() {
    let names = strings(&["omg@0.1.0", "omg@0.2.1", "omg@0.2.10", "omg@bad", "other@9.9.9", "omg@0.3.0-rc1"]);
    assert_eq!(pick_version(&names, "omg", None), Some("0.3.0-rc1".to_string()));
    assert_eq!(pick_version(&names, "omg", Some("0.2")), Some("0.2.10".to_string()));
    assert_eq!(pick_version(&names, "omg", Some("0.2.1")), Some("0.2.1".to_string()));
    assert_eq!(pick_version(&names, "omg", Some("9")), None);
    assert_eq!(pick_version(&names, "nope", None), None);
}

#[test]
fn texts_sorted() {
    assert_eq!(sorted_texts(strings(&["b", "a", "c", "a"])), strings(&["a", "a", "b", "c"]));
}

#[test]
fn enabled_dirs_from_enable_files() {
    let entries = vec![dir("omg@0.1.0"), file("omg", " 0.1.0\n"), file("abc", "1.0.0"), file("x@1", "2")];
    assert_eq!(enabled_version_dirs(&entries), strings(&["abc@1.0.0", "omg@0.1.0"]));
}

#[test]
fn package_listing_groups_and_orders() {
    let entries = vec![
        dir("omg@0.1.0"),
        dir("abc@1.0.0"),
        file("omg", "0.1.0\n"),
        dir("omg@0.10.0"),
        dir("omg@0.2.0"),
        dir("plain"),
    ];
    let pkgs = collect_packages(&entries);
    assert_eq!(pkgs.len(), 2);
    assert_eq!(pkgs[0].name, "abc");
    assert_eq!(pkgs[0].enabled, None);
    assert_eq!(pkgs[0].versions, strings(&["1.0.0"]));
    assert_eq!(pkgs[1].name, "omg");
    assert_eq!(pkgs[1].enabled.as_deref(), Some("0.1.0"));
    assert_eq!(pkgs[1].versions, strings(&["0.10.0", "0.2.0", "0.1.0"]));
}

#[test]
fn install_file_names() {
    assert_eq!(package_dir_name("omg", "0.1.0"), "omg@0.1.0");
    assert_eq!(binary_file_names(&strings(&["omg", "mling"]), ".exe"), strings(&["omg.exe", "mling.exe"]));
    assert_eq!(
        completion_script_names(&strings(&["omg_comp.sh", "omg", "x_comp", "comp"])),
        strings(&["omg_comp.sh", "x_comp"])
    );
}

#[test]
fn package_command_completion() {
    let mut ctx = ShellContext::default();
    ctx.previous_word = "pkg-enable".to_string();
    let s = entry_names_completion(&ctx, "pkg-enable", Some(strings(&["b@1", "a@2"])));
    let items = s.as_set().unwrap().items();
    assert_eq!(items.len(), 2);
    assert_eq!(items[0].suggest(), "a@2");
    assert_eq!(entry_names_completion(&ctx, "pkg-enable", None).len(), 0);
    assert!(entry_names_completion(&ctx, "uninstall", Some(strings(&["x"]))).is_file_completion());
}
