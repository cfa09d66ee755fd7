use mingling::template_source::{
    first_ref_hash, hash_with_prefix, is_full_commit_hash, reference_not_found, variant_missing, normalize_source, parse_template_source, sha256_hex, sha256_prefix16, split_git_source, PickerArgResult, TemplateSource,
    DEFAULT_TMPL_SOURCE,
};

#[test]
fn normalize_source_default_and_configured() {
    assert_eq!(normalize_source(DEFAULT_TMPL_SOURCE), "https://github.com/mingling-rs/tmpl.git");
    assert_eq!(normalize_source("https://example.com/tmpl.git"), "https://example.com/tmpl.git");
    assert_eq!(normalize_source("some-one/other-tmpl"), "https://github.com/some-one/other-tmpl.git");
    // GitHub URL without `.git` shares the cache key with the short form.
    assert_eq!(normalize_source("https://github.com/mingling-rs/tmpl"), "https://github.com/mingling-rs/tmpl.git");
}

#[test]
fn normalize_source_keeps_other_urls_and_plain_names() {
    assert_eq!(normalize_source("https://example.com/tmpl"), "https://example.com/tmpl");
    assert_eq!(normalize_source("local"), "local");
}

#[test]
fn parses_ref_at_variant_as_git() {
    let source = TemplateSource::pick_single(Some("0.4@basic")).unwrap();
    match source {
        TemplateSource::Git { reference, variant } => {
            assert_eq!(reference, "0.4");
            assert_eq!(variant, "basic");
        }
        TemplateSource::FsDir(_) => panic!("expected a git source"),
    }
}

#[test]
fn parses_plain_path_as_fs_dir() {
    match TemplateSource::pick_single(Some("/some/dir")).unwrap() {
        TemplateSource::FsDir(p) => assert_eq!(p, std::path::PathBuf::from("/some/dir")),
        TemplateSource::Git { .. } => panic!("expected a directory"),
    }
}

#[test]
fn missing_input_is_not_found() {
    assert!(matches!(TemplateSource::pick_single(None), PickerArgResult::NotFound));
}

#[test]
fn parse_template_source_reads_git_and_paths() {
    assert!(matches!(parse_template_source("main@rust"), TemplateSource::Git { .. }));
    assert!(matches!(parse_template_source("./tmpl"), TemplateSource::FsDir(_)));
}

#[test]
fn empty_variant_falls_back_to_path() {
    assert!(split_git_source("0.4@").is_none());
    assert!(split_git_source("@basic").is_none());
    match TemplateSource::pick_single(Some("0.4@")).unwrap() {
        TemplateSource::FsDir(p) => assert_eq!(p, std::path::PathBuf::from("0.4@")),
        TemplateSource::Git { .. } => panic!("expected a directory"),
    }
}

#[test]
fn sha256_prefix_is_stable_and_16_chars() {
    let a = sha256_prefix16("https://example.com/repo.git");
    let b = sha256_prefix16("https://example.com/repo.git");
    let c = sha256_prefix16("https://example.com/other.git");
    assert_eq!(a, b);
    assert_eq!(a.len(), 16);
    assert_ne!(a, c);
}

#[test]
fn sha256_hex_of_empty_input() {
    assert_eq!(sha256_hex(b""), "e3b0c44298fc1c149afbf4c8996fb92427ae41e4649b934ca495991b7852b855");
    assert_eq!(sha256_prefix16("abc"), "ba7816bf8f01cfea");
}

#[test]
fn git_constructor_keeps_both_parts() {
    match TemplateSource::git("v1", "full") {
        TemplateSource::Git { reference, variant } => {
            assert_eq!(reference, "v1");
            assert_eq!(variant, "full");
        }
        TemplateSource::FsDir(_) => panic!("expected a git source"),
    }
    assert!(matches!(TemplateSource::fs_dir("/tmp"), TemplateSource::FsDir(_)));
}

#[test]
fn commit_hash_resolution_helpers() {
    use_helpers();
}

fn use_helpers() {
    let full = "0123456789abcdef0123456789ABCDEF01234567";
    assert!(is_full_commit_hash(full));
    assert!(!is_full_commit_hash("0123"));
    assert!(!is_full_commit_hash("g123456789abcdef0123456789abcdef01234567"));
    let out = "aaaa1111\trefs/tags/v1\nbbbb2222\trefs/heads/main\n";
    assert_eq!(first_ref_hash(out), Some("aaaa1111".to_string()));
    assert_eq!(first_ref_hash(""), None);
    assert_eq!(hash_with_prefix(out, "bbb"), Some("bbbb2222".to_string()));
    assert_eq!(hash_with_prefix(out, "ccc"), None);
    assert_eq!(reference_not_found("v9", "u"), "reference `v9` not found in u");
    assert_eq!(variant_missing("basic", "u"), "variant `basic` has no checklist.toml in repository u");
}
