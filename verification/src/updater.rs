//! The decisions of the self-updater: which URL to use, where the package
//! and its checksum are, whether the installed version is current, and
//! whether a downloaded package is the one announced.
use vstd::prelude::*;
use crate::template_source::{hex_of, sha256_hex, sha256_of};
use crate::text::{chars_of, push_char, concat, is_prefix, owned, starts_with, str_eq, trim, trim_spec, views, words, split_whitespace};

verus! {

/// The update source used when none is configured.
pub const DEFAULT_UPDATE_URL: &'static str = "https://mingling-rs.github.io/mingling/dist";

/// Why an update failed.
#[derive(Debug)]
pub enum UpdateError {
    NoDataDirectory,
    InvalidUrl(String),
    Network(String),
    ChecksumMismatch(String),
    Io(String),
}

/// The message an update error is reported with.
pub open spec fn update_error_text(e: UpdateError) -> Seq<char> {
    match e {
        UpdateError::NoDataDirectory => "failed to determine the data directory"@,
        UpdateError::InvalidUrl(source) => "invalid update URL `"@ + source@
            + "`, expected an `http(s)://` URL such as `https://mingling-rs.github.io/mingling/dist`"@,
        UpdateError::Network(m) => m@,
        UpdateError::ChecksumMismatch(m) => m@,
        UpdateError::Io(m) => m@,
    }
}

impl UpdateError {
    /// The message the error is reported with.
    pub fn message(&self) -> (r: String)
        ensures
            r@ == update_error_text(*self),
    {
        match self {
            UpdateError::NoDataDirectory => owned("failed to determine the data directory"),
            UpdateError::InvalidUrl(source) => {
                let a = concat("invalid update URL `", source.as_str());
                concat(
                    a.as_str(),
                    "`, expected an `http(s)://` URL such as `https://mingling-rs.github.io/mingling/dist`",
                )
            },
            UpdateError::Network(m) => m.clone(),
            UpdateError::ChecksumMismatch(m) => m.clone(),
            UpdateError::Io(m) => m.clone(),
        }
    }
}

/// An update about to be downloaded from `base_url` to `update_path`.
#[derive(Debug)]
pub struct StateUpdateDownload {
    pub base_url: String,
    pub update_path: std::path::PathBuf,
}

/// The installed version is the latest.
#[derive(Debug)]
pub struct ResultUpdateUpToDate;

/// A new version was downloaded to `update_path`.
#[derive(Debug)]
pub struct ResultUpdateStaged {
    pub update_path: std::path::PathBuf,
}

/// Whether `s`, without surrounding white space, is an `http://` or
/// `https://` URL.
pub open spec fn is_http(s: Seq<char>) -> bool {
    is_prefix("http://"@, trim_spec(s)) || is_prefix("https://"@, trim_spec(s))
}

/// Whether the update source is an `http(s)://` URL.
pub fn is_http_url(source: &str) -> (r: bool)
    ensures
        r == is_http(source@),
{
    let t = trim(source);
    starts_with(t.as_str(), "http://") || starts_with(t.as_str(), "https://")
}

/// The update that the configured source asks for: none without a data
/// directory to put it in, none when the source is not an `http(s)://`
/// URL, else a download from the source.
pub fn update_request(source: &str, update_path: Option<std::path::PathBuf>) -> (r: Result<
    StateUpdateDownload,
    UpdateError,
>)
    ensures
        update_path is None ==> r matches Err(UpdateError::NoDataDirectory),
        update_path is Some && !is_http(source@) ==> (r matches Err(UpdateError::InvalidUrl(s)) && s@ == source@),
        update_path is Some && is_http(source@) ==> (r matches Ok(st) && st.base_url@ == source@
            && Some(st.update_path) == update_path),
{
    match update_path {
        None => Err(UpdateError::NoDataDirectory),
        Some(path) => {
            if !is_http_url(source) {
                Err(UpdateError::InvalidUrl(owned(source)))
            } else {
                Ok(StateUpdateDownload { base_url: owned(source), update_path: path })
            }
        },
    }
}

/// Whether `c` is an ASCII hexadecimal digit.
pub open spec fn is_hex_digit(c: char) -> bool {
    ('0' <= c && c <= '9') || ('a' <= c && c <= 'f') || ('A' <= c && c <= 'F')
}

/// The digest at the start of a `sha256sum` line: its first word, when it
/// is 64 hexadecimal digits.
pub open spec fn sha256_of_line(line: Seq<char>) -> Option<Seq<char>> {
    let w = words(line);
    if w.len() > 0 && w[0].len() == 64 && forall|k: int| 0 <= k < 64 ==> is_hex_digit(#[trigger] w[0][k]) {
        Some(w[0])
    } else {
        None
    }
}

/// Whether `c` is an ASCII hexadecimal digit.
fn hex_digit_char(c: char) -> (r: bool)
    ensures
        r == is_hex_digit(c),
{
    (c >= '0' && c <= '9') || (c >= 'a' && c <= 'f') || (c >= 'A' && c <= 'F')
}

/// The digest at the start of a `sha256sum` line (`<hash>  <file>`).
pub fn parse_sha256(line: &str) -> (r: Option<String>)
    ensures
        match sha256_of_line(line@) {
            None => r is None,
            Some(h) => r matches Some(s) && s@ == h,
        },
{
    let w = split_whitespace(line);
    if w.len() == 0 {
        return None;
    }
    let first = &w[0];
    proof {
        assert(views(w@)[0] == first@);
    }
    if first.unicode_len() != 64 {
        return None;
    }
    let ghost h = first@;
    let mut k: usize = 0;
    while k < 64
        invariant
            h == first@,
            words(line@).len() > 0,
            h == words(line@)[0],
            h.len() == 64,
            k <= 64,
            forall|j: int| 0 <= j < k ==> is_hex_digit(#[trigger] h[j]),
        decreases 64 - k,
    {
        if !hex_digit_char(first.get_char(k)) {
            proof {
                assert(!is_hex_digit(h[k as int]));
            }
            return None;
        }
        k = k + 1;
    }
    Some(first.clone())
}

/// `s` without the `c` characters at its end.
pub open spec fn trim_end_char(s: Seq<char>, c: char) -> Seq<char>
    decreases s.len(),
{
    if s.len() > 0 && s.last() == c {
        trim_end_char(s.drop_last(), c)
    } else {
        s
    }
}

/// `s` without the `c` characters at its end.
fn trim_end_matches(s: &str, c: char) -> (r: String)
    ensures
        r@ == trim_end_char(s@, c),
{
    let v = crate::text::chars_of(s);
    let mut n = v.len();
    proof {
        assert(v@.take(n as int) =~= s@);
    }
    while n > 0 && v[n - 1] == c
        invariant
            v@ == s@,
            n <= v@.len(),
            trim_end_char(s@, c) == trim_end_char(v@.take(n as int), c),
        decreases n,
    {
        proof {
            assert(v@.take(n as int).drop_last() =~= v@.take(n - 1));
        }
        n = n - 1;
    }
    proof {
        assert(v@.take(n as int).len() == 0 || v@.take(n as int).last() != c);
    }
    crate::text::string_of_range(&v, 0, n)
}

/// Where the checksum and the package of an update are, for the platform
/// named `os`: `{base}/mling-{os}.tar.gz.sha256` and
/// `{base}/mling-{os}.tar.gz`, with trailing slashes of the base dropped.
pub fn update_urls(base_url: &str, os: &str) -> (r: (String, String))
    ensures
        r.0@ == trim_end_char(base_url@, '/') + "/mling-"@ + os@ + ".tar.gz.sha256"@,
        r.1@ == trim_end_char(base_url@, '/') + "/mling-"@ + os@ + ".tar.gz"@,
{
    let base = trim_end_matches(base_url, '/');
    let a = concat(base.as_str(), "/mling-");
    let b = concat(a.as_str(), os);
    let checksum = concat(b.as_str(), ".tar.gz.sha256");
    let package = concat(b.as_str(), ".tar.gz");
    (checksum, package)
}

/// The announced digest read from the checksum file at `checksum_url`; a
/// file that does not start with a digest is a network error.
pub fn remote_checksum(checksum_text: &str, checksum_url: &str) -> (r: Result<String, UpdateError>)
    ensures
        match sha256_of_line(checksum_text@) {
            Some(h) => r matches Ok(s) && s@ == h,
            None => r matches Err(UpdateError::Network(m)) && m@ == "invalid checksum file at `"@
                + checksum_url@ + "`"@,
        },
{
    match parse_sha256(checksum_text) {
        Some(h) => Ok(h),
        None => {
            let a = concat("invalid checksum file at `", checksum_url);
            Err(UpdateError::Network(concat(a.as_str(), "`")))
        },
    }
}

/// Whether the installed version, known by the digest of its package, is
/// the announced one, whatever the case of the hexadecimal digits.
pub fn is_up_to_date(local_sha: &Option<String>, remote_sha: &str) -> (r: bool)
    ensures
        r == (local_sha matches Some(l) && hex_lower(l@) == hex_lower(remote_sha@)),
{
    match local_sha {
        Some(l) => {
            let a = lower_hex(l.as_str());
            let b = lower_hex(remote_sha);
            str_eq(a.as_str(), b.as_str())
        },
        None => false,
    }
}

/// A hexadecimal digit in lower case: `A` to `F` become `a` to `f`.
pub open spec fn hex_lower_char(c: char) -> char {
    if c == 'A' {
        'a'
    } else if c == 'B' {
        'b'
    } else if c == 'C' {
        'c'
    } else if c == 'D' {
        'd'
    } else if c == 'E' {
        'e'
    } else if c == 'F' {
        'f'
    } else {
        c
    }
}

/// A hexadecimal text with its upper-case digits in lower case.
pub open spec fn hex_lower(s: Seq<char>) -> Seq<char> {
    s.map_values(|c: char| hex_lower_char(c))
}

fn lower_hex_char(c: char) -> (r: char)
    ensures
        r == hex_lower_char(c),
{
    match c {
        'A' => 'a',
        'B' => 'b',
        'C' => 'c',
        'D' => 'd',
        'E' => 'e',
        'F' => 'f',
        _ => c,
    }
}

/// `s` with its upper-case hexadecimal digits in lower case.
pub fn lower_hex(s: &str) -> (r: String)
    ensures
        r@ == hex_lower(s@),
{
    let cs = chars_of(s);
    let mut r = String::new();
    let mut k: usize = 0;
    proof {
        assert(r@ =~= hex_lower(s@).take(0));
    }
    while k < cs.len()
        invariant
            cs@ == s@,
            k <= cs@.len(),
            r@ == hex_lower(s@).take(k as int),
        decreases cs@.len() - k,
    {
        push_char(&mut r, lower_hex_char(cs[k]));
        proof {
            assert(r@ =~= hex_lower(s@).take(k + 1));
        }
        k = k + 1;
    }
    proof {
        assert(hex_lower(s@).take(k as int) =~= hex_lower(s@));
    }
    r
}

/// Checks that a downloaded package has the announced digest, whatever the
/// case of the announced hexadecimal digits; a mismatch names the package
/// and both digests.
pub fn verify_package(package: &[u8], remote_sha: &str, package_url: &str) -> (r: Result<(), UpdateError>)
    ensures
        hex_of(sha256_of(package@)) == hex_lower(remote_sha@) ==> r is Ok,
        hex_of(sha256_of(package@)) != hex_lower(remote_sha@) ==> (r matches Err(UpdateError::ChecksumMismatch(m))
            && m@ == "checksum mismatch for `"@ + package_url@ + "`: expected "@ + remote_sha@ + ", got "@
            + hex_of(sha256_of(package@))),
{
    let actual = sha256_hex(package);
    let expected = lower_hex(remote_sha);
    if str_eq(actual.as_str(), expected.as_str()) {
        Ok(())
    } else {
        let a = concat("checksum mismatch for `", package_url);
        let b = concat(a.as_str(), "`: expected ");
        let c = concat(b.as_str(), remote_sha);
        let d = concat(c.as_str(), ", got ");
        Err(UpdateError::ChecksumMismatch(concat(d.as_str(), actual.as_str())))
    }
}

} // verus!
