//! Where a project template comes from: a git repository addressed as
//! `<ref>@<variant>`, or a local directory; and the names under which a
//! repository is cached.
use vstd::prelude::*;
use crate::text::{chars_of, concat, ends_with, is_prefix, is_suffix, owned, starts_with, str_eq, string_of_range, views};
use sha2::Digest;
use vstd::string::StringSliceAdditionalSpecFns;

verus! {

/// The template repository used when none is configured.
pub const DEFAULT_TMPL_SOURCE: &'static str = "mingling-rs/tmpl";

/// A file-system path, as std represents it; carried along unread.
#[verifier::external_type_specification]
#[verifier::external_body]
pub struct ExPathBuf(std::path::PathBuf);

/// The path `p` converts into, through `PathBuf::from`. Nothing is stated
/// of the path.
#[verifier::external_body]
fn path_from<P>(p: P) -> std::path::PathBuf
    where std::path::PathBuf: From<P>,
{
    std::path::PathBuf::from(p)
}

/// Whether `t` occurs in `s`.
pub open spec fn contains_text(s: Seq<char>, t: Seq<char>) -> bool {
    exists|i: int| 0 <= i <= s.len() - t.len() && #[trigger] s.subrange(i, i + t.len()) == t
}

/// The index of the first occurrence of `c` in `s`, or -1.
pub open spec fn first_index_of(s: Seq<char>, c: char) -> int
    decreases s.len(),
{
    if s.len() == 0 {
        -1
    } else if first_index_of(s.drop_last(), c) != -1 {
        first_index_of(s.drop_last(), c)
    } else if s.last() == c {
        s.len() - 1
    } else {
        -1
    }
}

proof fn lemma_first_index_of(s: Seq<char>, c: char)
    ensures
        -1 <= first_index_of(s, c) < s.len(),
        first_index_of(s, c) != -1 ==> s[first_index_of(s, c)] == c,
        forall|k: int| 0 <= k < s.len() && (first_index_of(s, c) == -1 || k < first_index_of(s, c)) ==> s[k] != c,
    decreases s.len(),
{
    if s.len() > 0 {
        lemma_first_index_of(s.drop_last(), c);
        assert forall|k: int| 0 <= k < s.len() - 1 implies s.drop_last()[k] == s[k] by {}
    }
}

/// The index of the first `c` in `s`, if any.
pub fn find_char(s: &str, c: char) -> (r: Option<usize>)
    ensures
        match r {
            None => first_index_of(s@, c) == -1,
            Some(i) => first_index_of(s@, c) == i as int && i < s@.len(),
        },
{
    let n = s.unicode_len();
    let mut i: usize = 0;
    proof {
        lemma_first_index_of(s@, c);
    }
    while i < n
        invariant
            n == s@.len(),
            i <= n,
            forall|k: int| 0 <= k < i ==> s@[k] != c,
        decreases n - i,
    {
        if s.get_char(i) == c {
            proof {
                lemma_first_index_of(s@, c);
                lemma_first_index_of_at(s@, c, i as int);
            }
            return Some(i);
        }
        i = i + 1;
    }
    proof {
        lemma_first_index_of(s@, c);
    }
    None
}

proof fn lemma_first_index_of_at(s: Seq<char>, c: char, i: int)
    requires
        0 <= i < s.len(),
        s[i] == c,
        forall|k: int| 0 <= k < i ==> s[k] != c,
    ensures
        first_index_of(s, c) == i,
    decreases s.len(),
{
    if i < s.len() - 1 {
        lemma_first_index_of_at(s.drop_last(), c, i);
    } else {
        lemma_first_index_of(s.drop_last(), c);
    }
}

/// Whether `t` occurs in `s`.
pub fn contains(s: &str, t: &str) -> (r: bool)
    ensures
        r == contains_text(s@, t@),
{
    let n = s.unicode_len();
    let m = t.unicode_len();
    if m > n {
        return false;
    }
    if m == 0 {
        proof {
            assert(s@.subrange(0, 0 + t@.len() as int) =~= t@);
        }
        return true;
    }
    let sv = chars_of(s);
    let mut i: usize = 0;
    while i <= n - m
        invariant
            n == s@.len(),
            m == t@.len(),
            0 < m <= n,
            sv@ == s@,
            i <= n - m + 1,
            forall|k: int| 0 <= k < i ==> #[trigger] s@.subrange(k, k + m) != t@,
        decreases n - m + 1 - i,
    {
        let part = string_of_range(&sv, i, i + m);
        if str_eq(part.as_str(), t) {
            return true;
        }
        i = i + 1;
    }
    false
}

/// The repository URL a template source names: a URL ending in `.git` or a
/// non-GitHub URL is kept; a GitHub URL gets `.git`; `owner/repo` becomes
/// the GitHub URL of that repository; anything else is kept.
pub open spec fn normalized_source(s: Seq<char>) -> Seq<char> {
    if is_suffix(".git"@, s) {
        s
    } else if contains_text(s, "://"@) {
        if is_prefix("https://github.com/"@, s) {
            "https://github.com/"@ + s.skip(19) + ".git"@
        } else {
            s
        }
    } else if first_index_of(s, '/') != -1 {
        "https://github.com/"@ + s.take(first_index_of(s, '/')) + "/"@ + s.skip(first_index_of(s, '/') + 1)
            + ".git"@
    } else {
        s
    }
}

/// The repository URL a template source names, so that the short and the
/// long form of a GitHub repository share one cache entry.
pub fn normalize_source(source: &str) -> (r: String)
    ensures
        r@ == normalized_source(source@),
{
    proof {
        reveal_strlit("https://github.com/");
    }
    if ends_with(source, ".git") {
        return owned(source);
    }
    if contains(source, "://") {
        if starts_with(source, "https://github.com/") {
            let v = chars_of(source);
            let rest = string_of_range(&v, 19, v.len());
            proof {
                assert(rest@ == source@.skip(19));
            }
            let head = concat("https://github.com/", rest.as_str());
            return concat(head.as_str(), ".git");
        }
        return owned(source);
    }
    match find_char(source, '/') {
        Some(p) => {
            let v = chars_of(source);
            let n = v.len();
            assert(p < n);
            let owner = string_of_range(&v, 0, p);
            let repo = string_of_range(&v, p + 1, n);
            proof {
                lemma_first_index_of(source@, '/');
                assert(owner@ == source@.take(p as int));
                assert(repo@ == source@.skip(p + 1));
            }
            let a = concat("https://github.com/", owner.as_str());
            let b = concat(a.as_str(), "/");
            let c = concat(b.as_str(), repo.as_str());
            concat(c.as_str(), ".git")
        },
        None => owned(source),
    }
}

/// Where a template comes from.
#[derive(Debug)]
pub enum TemplateSource {
    /// A variant (a directory) of the template repository at a reference
    /// (tag, branch or commit).
    Git { reference: String, variant: String },
    /// A local directory.
    FsDir(std::path::PathBuf),
}

impl TemplateSource {
    /// A git template source.
    pub fn git<R, V>(reference: R, variant: V) -> (r: TemplateSource)
        where String: From<R>, String: From<V>,
        ensures
            exists|a: String, b: String|
                call_ensures(<String as From<R>>::from, (reference,), a) && call_ensures(
                    <String as From<V>>::from,
                    (variant,),
                    b,
                ) && (r matches TemplateSource::Git { reference: x, variant: y } && x@ == a@ && y@ == b@),
    {
        let a = String::from(reference);
        let b = String::from(variant);
        TemplateSource::Git { reference: a, variant: b }
    }

    /// A local-directory template source.
    pub fn fs_dir<P>(path: P) -> (r: TemplateSource)
        where std::path::PathBuf: From<P>,
        ensures
            r matches TemplateSource::FsDir(p) && call_ensures(<std::path::PathBuf as From<P>>::from, (path,), p),
    {
        TemplateSource::FsDir(std::path::PathBuf::from(path))
    }
}

/// The reference and variant of a `<ref>@<variant>` source (split at the
/// first `@`, both parts non-empty), or `None` for anything else.
pub open spec fn git_parts(s: Seq<char>) -> Option<(Seq<char>, Seq<char>)> {
    let i = first_index_of(s, '@');
    if i > 0 && i + 1 < s.len() {
        Some((s.take(i), s.skip(i + 1)))
    } else {
        None
    }
}

/// The reference and variant of a `<ref>@<variant>` source; `None` when the
/// text is to be read as a directory path instead.
pub fn split_git_source(raw: &str) -> (r: Option<(String, String)>)
    ensures
        match git_parts(raw@) {
            None => r is None,
            Some((a, b)) => r matches Some((x, y)) && x@ == a && y@ == b,
        },
{
    match find_char(raw, '@') {
        Some(i) => {
            let v = chars_of(raw);
            let n = v.len();
            assert(i < n);
            if i > 0 && i + 1 < n {
                proof {
                    lemma_first_index_of(raw@, '@');
                }
                Some((string_of_range(&v, 0, i), string_of_range(&v, i + 1, v.len())))
            } else {
                None
            }
        },
        None => None,
    }
}

/// The template source a command-line value names: `<ref>@<variant>` with
/// both parts present is a git source, anything else a directory.
pub fn parse_template_source(raw: &str) -> (r: TemplateSource)
    ensures
        match git_parts(raw@) {
            None => r is FsDir,
            Some((a, b)) => r matches TemplateSource::Git { reference: x, variant: y } && x@ == a && y@ == b,
        },
{
    match split_git_source(raw) {
        Some((reference, variant)) => TemplateSource::Git { reference, variant },
        None => TemplateSource::FsDir(path_from(owned(raw))),
    }
}

/// What reading one command-line value gave.
#[derive(Debug)]
pub enum PickerArgResult<T> {
    /// The value was there and read.
    Parsed(T),
    /// No value was given.
    NotFound,
    /// A value was given but could not be read.
    Unparsed,
}

impl<T> PickerArgResult<T> {
    /// The value read; only for a value that was read.
    pub fn unwrap(self) -> (r: T)
        requires
            self is Parsed,
        ensures
            self == PickerArgResult::Parsed(r),
    {
        match self {
            PickerArgResult::Parsed(v) => v,
            PickerArgResult::NotFound => {
                vstd::pervasive::unreached()
            },
            PickerArgResult::Unparsed => {
                vstd::pervasive::unreached()
            },
        }
    }
}

impl TemplateSource {
    /// The template source of an optional command-line value: none is not
    /// found, any text is read as `parse_template_source` reads it.
    pub fn pick_single(raw: Option<&str>) -> (r: PickerArgResult<TemplateSource>)
        ensures
            match raw {
                None => r is NotFound,
                Some(t) => r matches PickerArgResult::Parsed(v) && match git_parts(t@) {
                    None => v is FsDir,
                    Some((a, b)) => v matches TemplateSource::Git { reference: x, variant: y } && x@ == a && y@ == b,
                },
            },
    {
        match raw {
            None => PickerArgResult::NotFound,
            Some(t) => PickerArgResult::Parsed(parse_template_source(t)),
        }
    }
}

/// The SHA-256 digest of `data`.
pub uninterp spec fn sha256_of(data: Seq<u8>) -> Seq<u8>;

/// The SHA-256 digest of `data`, through `sha2::Sha256::digest`; the
/// digest is named by `sha256_of`, and is 32 bytes long as SHA-256 defines.
#[verifier::external_body]
pub(crate) fn sha256_digest(data: &[u8]) -> (r: Vec<u8>)
    ensures
        r@ == sha256_of(data@),
        r@.len() == 32,
{
    sha2::Sha256::digest(data).to_vec()
}

/// The lowercase hexadecimal digit of `n` (below 16).
pub open spec fn hex_digit(n: int) -> char {
    seq!['0', '1', '2', '3', '4', '5', '6', '7', '8', '9', 'a', 'b', 'c', 'd', 'e', 'f'][n]
}

/// The bytes `b` in lowercase hexadecimal, two digits each.
pub open spec fn hex_of(b: Seq<u8>) -> Seq<char>
    decreases b.len(),
{
    if b.len() == 0 {
        Seq::empty()
    } else {
        hex_of(b.drop_last()) + seq![hex_digit((b.last() / 16) as int), hex_digit((b.last() % 16) as int)]
    }
}

/// The first `n` bytes of `b` in lowercase hexadecimal.
pub fn hex_prefix(b: &Vec<u8>, n: usize) -> (r: String)
    requires
        n <= b@.len(),
    ensures
        r@ == hex_of(b@.take(n as int)),
{
    let digits: [char; 16] = ['0', '1', '2', '3', '4', '5', '6', '7', '8', '9', 'a', 'b', 'c', 'd', 'e', 'f'];
    proof {
        assert(digits@ == seq!['0', '1', '2', '3', '4', '5', '6', '7', '8', '9', 'a', 'b', 'c', 'd', 'e', 'f']);
    }
    let mut r = String::new();
    let mut i: usize = 0;
    while i < n
        invariant
            n <= b@.len(),
            i <= n,
            digits@ == seq!['0', '1', '2', '3', '4', '5', '6', '7', '8', '9', 'a', 'b', 'c', 'd', 'e', 'f'],
            r@ == hex_of(b@.take(i as int)),
        decreases n - i,
    {
        let x = b[i];
        let hi = (x / 16) as usize;
        let lo = (x % 16) as usize;
        crate::text::push_char(&mut r, digits[hi]);
        crate::text::push_char(&mut r, digits[lo]);
        proof {
            assert(b@.take(i + 1).drop_last() =~= b@.take(i as int));
            assert(r@ =~= hex_of(b@.take(i as int)) + seq![hex_digit((x / 16) as int), hex_digit((x % 16) as int)]);
        }
        i = i + 1;
    }
    r
}

/// The name a repository is cached under: the first 8 bytes of the SHA-256
/// digest of its URL, in hexadecimal (16 digits).
pub fn sha256_prefix16(input: &str) -> (r: String)
    ensures
        r@ == hex_of(sha256_of(input.spec_bytes()).take(8)),
{
    let bytes = input.as_bytes_vec();
    let digest = sha256_digest(bytes.as_slice());
    hex_prefix(&digest, 8)
}

/// The SHA-256 digest of `bytes` in hexadecimal (64 digits).
pub fn sha256_hex(bytes: &[u8]) -> (r: String)
    ensures
        r@ == hex_of(sha256_of(bytes@)),
{
    let digest = sha256_digest(bytes);
    let r = hex_prefix(&digest, 32);
    proof {
        assert(digest@.take(32) =~= digest@);
    }
    r
}

} // verus!
verus! {

proof fn lemma_ends_with_git(x: Seq<char>)
    ensures
        is_suffix(".git"@, x + ".git"@),
{
    reveal_strlit(".git");
    assert((x + ".git"@).skip((x + ".git"@).len() - ".git"@.len()) =~= ".git"@);
}

/// Normalizing a template source twice changes nothing more than
/// normalizing it once: every URL it builds already ends in `.git`.
pub proof fn law_normalize_idempotent(s: Seq<char>)
    ensures
        normalized_source(normalized_source(s)) == normalized_source(s),
{
    let r = normalized_source(s);
    if is_suffix(".git"@, s) {
    } else if contains_text(s, "://"@) {
        if is_prefix("https://github.com/"@, s) {
            lemma_ends_with_git("https://github.com/"@ + s.skip(19));
        }
    } else if first_index_of(s, '/') != -1 {
        let i = first_index_of(s, '/');
        lemma_ends_with_git("https://github.com/"@ + s.take(i) + "/"@ + s.skip(i + 1));
    }
}

/// Hexadecimal takes two digits per byte.
pub proof fn law_hex_length(b: Seq<u8>)
    ensures
        hex_of(b).len() == 2 * b.len(),
    decreases b.len(),
{
    if b.len() > 0 {
        law_hex_length(b.drop_last());
    }
}

/// The cache name of a repository is 16 hexadecimal digits: the first 8
/// bytes of a digest, which is longer than that.
pub proof fn law_cache_name_length(digest: Seq<u8>)
    requires
        digest.len() >= 8,
    ensures
        hex_of(digest.take(8)).len() == 16,
{
    law_hex_length(digest.take(8));
}

/// Whether a reference is a full commit hash: forty hexadecimal digits.
pub open spec fn is_full_hash(r: Seq<char>) -> bool {
    r.len() == 40 && forall|i: int| 0 <= i < r.len() ==> crate::updater::is_hex_digit(#[trigger] r[i])
}

/// Whether a reference is a full commit hash, which needs no lookup.
pub fn is_full_commit_hash(reference: &str) -> (r: bool)
    ensures
        r == is_full_hash(reference@),
{
    let v = crate::text::chars_of(reference);
    if v.len() != 40 {
        return false;
    }
    let mut i: usize = 0;
    while i < v.len()
        invariant
            v@ == reference@,
            i <= v@.len(),
            forall|j: int| 0 <= j < i ==> crate::updater::is_hex_digit(#[trigger] v@[j]),
        decreases v@.len() - i,
    {
        let c = v[i];
        if !(('0' <= c && c <= '9') || ('a' <= c && c <= 'f') || ('A' <= c && c <= 'F')) {
            return false;
        }
        i = i + 1;
    }
    true
}

/// The hash of a line of `git ls-remote` output: the text before its first
/// tab.
pub open spec fn line_hash(line: Seq<char>) -> Seq<char> {
    crate::text::sep_parts(line, '\t')[0]
}

fn hash_of_line(line: &str) -> (r: String)
    ensures
        r@ == line_hash(line@),
{
    let parts = crate::text::split_on(line, '\t');
    proof {
        assert(views(parts@)[0] == parts@[0]@);
    }
    parts[0].clone()
}

/// The hash a reference resolves to when `git ls-remote` is asked for it:
/// the hash of the first line of the output, if there is a line.
pub fn first_ref_hash(output: &str) -> (r: Option<String>)
    ensures
        match r {
            Some(h) => crate::display::text_lines(output@).len() > 0 && h@ == line_hash(
                crate::display::text_lines(output@)[0],
            ),
            None => crate::display::text_lines(output@).len() == 0,
        },
{
    let lines = crate::display::lines_of(output);
    if lines.len() == 0 {
        None
    } else {
        proof {
            assert(views(lines@)[0] == lines@[0]@);
        }
        Some(hash_of_line(lines[0].as_str()))
    }
}

/// The index of the first of `lines[..k]` whose hash starts with `prefix`,
/// or -1.
pub open spec fn prefix_line(lines: Seq<Seq<char>>, prefix: Seq<char>, k: int) -> int
    decreases k,
{
    if k <= 0 {
        -1
    } else if prefix_line(lines, prefix, k - 1) != -1 {
        prefix_line(lines, prefix, k - 1)
    } else if crate::text::is_prefix(prefix, line_hash(lines[k - 1])) {
        k - 1
    } else {
        -1
    }
}

proof fn lemma_prefix_line_stays(lines: Seq<Seq<char>>, prefix: Seq<char>, k: int, n: int)
    requires
        0 <= k <= n,
        prefix_line(lines, prefix, k) != -1,
    ensures
        prefix_line(lines, prefix, n) == prefix_line(lines, prefix, k),
    decreases n - k,
{
    if k < n {
        lemma_prefix_line_stays(lines, prefix, k, n - 1);
    }
}

/// The hash, among all refs `git ls-remote` lists, of the first one whose
/// hash starts with an abbreviated commit hash.
pub fn hash_with_prefix(output: &str, prefix: &str) -> (r: Option<String>)
    ensures
        ({
            let ls = crate::display::text_lines(output@);
            let k = prefix_line(ls, prefix@, ls.len() as int);
            &&& k == -1 ==> r is None
            &&& k != -1 ==> (r matches Some(h) && h@ == line_hash(ls[k]))
        }),
{
    let lines = crate::display::lines_of(output);
    let ghost ls = views(lines@);
    let mut k: usize = 0;
    while k < lines.len()
        invariant
            ls == views(lines@),
            ls == crate::display::text_lines(output@),
            k <= ls.len(),
            prefix_line(ls, prefix@, k as int) == -1,
        decreases ls.len() - k,
    {
        let h = hash_of_line(lines[k].as_str());
        proof {
            assert(lines@[k as int]@ == ls[k as int]);
        }
        if crate::text::starts_with(h.as_str(), prefix) {
            proof {
                assert(prefix_line(ls, prefix@, k + 1) == k);
                lemma_prefix_line_stays(ls, prefix@, k + 1, ls.len() as int);
            }
            return Some(h);
        }
        k = k + 1;
    }
    None
}

/// The error when a reference resolves to no commit.
pub fn reference_not_found(reference: &str, source_url: &str) -> (r: String)
    ensures
        r@ == "reference `"@ + reference@ + "` not found in "@ + source_url@,
{
    let a = concat("reference `", reference);
    let b = concat(a.as_str(), "` not found in ");
    concat(b.as_str(), source_url)
}

/// The error when the chosen variant of a template has no checklist.
pub fn variant_missing(variant: &str, source_url: &str) -> (r: String)
    ensures
        r@ == "variant `"@ + variant@ + "` has no checklist.toml in repository "@ + source_url@,
{
    let a = concat("variant `", variant);
    let b = concat(a.as_str(), "` has no checklist.toml in repository ");
    concat(b.as_str(), source_url)
}

} // verus!
