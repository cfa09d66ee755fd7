use mingling::packages::version_matches;
use mingling::updater::{
    is_http_url, is_up_to_date, parse_sha256, remote_checksum, update_request, update_urls, verify_package,
    UpdateError,
};

const DIGEST: &str = "e3b0c44298fc1c149afbf4c8996fb92427ae41e4649b934ca495991b7852b855";

#[test]
fn http_urls_are_recognised() {
    assert!(is_http_url("https://mingling-rs.github.io/mingling/dist"));
    assert!(is_http_url("  http://localhost/x "));
    assert!(!is_http_url("ftp://host"));
    assert!(!is_http_url("file:///tmp"));
}

#[test]
fn update_request_checks_directory_then_url() {
    assert!(matches!(update_request("https://x", None), Err(UpdateError::NoDataDirectory)));
    let path = std::path::PathBuf::from("/tmp/update.tar.gz");
    match update_request("ftp://x", Some(path.clone())) {
        Err(UpdateError::InvalidUrl(s)) => assert_eq!(s, "ftp://x"),
        _ => panic!("expected an invalid URL"),
    }
    let state = update_request("https://x", Some(path.clone())).unwrap();
    assert_eq!(state.base_url, "https://x");
    assert_eq!(state.update_path, path);
}

#[test]
fn sha256_lines_are_parsed() {
    assert_eq!(parse_sha256(&format!("{DIGEST}  mling-linux.tar.gz")), Some(DIGEST.to_string()));
    assert_eq!(parse_sha256("abc  file"), None);
    assert_eq!(parse_sha256(""), None);
    let bad = format!("{}g", &DIGEST[..63]);
    assert_eq!(parse_sha256(&bad), None);
}

#[test]
fn update_urls_drop_trailing_slashes() {
    let (checksum, package) = update_urls("https://host/dist//", "linux");
    assert_eq!(checksum, "https://host/dist/mling-linux.tar.gz.sha256");
    assert_eq!(package, "https://host/dist/mling-linux.tar.gz");
}

#[test]
fn remote_checksum_reports_bad_files() {
    assert_eq!(remote_checksum(DIGEST, "u").unwrap(), DIGEST);
    match remote_checksum("nonsense", "https://h/c.sha256") {
        Err(UpdateError::Network(m)) => assert_eq!(m, "invalid checksum file at `https://h/c.sha256`"),
        _ => panic!("expected a network error"),
    }
}

#[test]
fn up_to_date_compares_digests() {
    assert!(is_up_to_date(&Some(DIGEST.to_string()), DIGEST));
    assert!(!is_up_to_date(&None, DIGEST));
    assert!(!is_up_to_date(&Some("x".to_string()), DIGEST));
}

#[test]
fn packages_are_verified_against_the_digest() {
    assert!(verify_package(b"", DIGEST, "p").is_ok());
    match verify_package(b"x", DIGEST, "https://h/p.tar.gz") {
        Err(UpdateError::ChecksumMismatch(m)) => {
            assert!(m.starts_with("checksum mismatch for `https://h/p.tar.gz`: expected "));
            assert!(m.contains(DIGEST));
        }
        _ => panic!("expected a checksum mismatch"),
    }
}

#[test]
fn partial_versions_match_by_parts() {
    assert!(version_matches("1.2.3", "1.2"));
    assert!(version_matches("1.2.3-beta", "1.2.3"));
    assert!(!version_matches("1.20.0", "1.2"));
    assert!(!version_matches("1.2", "1.2.3"));
    assert!(version_matches("1.2.3", "1"));
}

#[test]
fn update_error_messages() {
    assert_eq!(UpdateError::NoDataDirectory.message(), "failed to determine the data directory");
    assert_eq!(
        UpdateError::InvalidUrl("ftp://x".to_string()).message(),
        "invalid update URL `ftp://x`, expected an `http(s)://` URL such as `https://mingling-rs.github.io/mingling/dist`"
    );
    assert_eq!(UpdateError::Io("disk".to_string()).message(), "disk");
}

#[test]
fn upper_case_digests_are_accepted() {
    let upper = DIGEST.to_uppercase();
    assert_eq!(parse_sha256(&format!("{upper}  mling-linux.tar.gz")), Some(upper.clone()));
    assert!(verify_package(b"", &upper, "p").is_ok());
    assert!(verify_package(b"x", &upper, "p").is_err());
}

#[test]
fn up_to_date_ignores_digest_case() {
    assert!(is_up_to_date(&Some(DIGEST.to_uppercase()), DIGEST));
    assert!(is_up_to_date(&Some(DIGEST.to_string()), &DIGEST.to_uppercase()));
}
