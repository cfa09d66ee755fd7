//! Installed packages: the package directory holds one `name@version`
//! directory per installed version and one `name` file per enabled
//! package, whose content is the enabled version.
//!
//! These functions decide on a listing of that directory; reading it,
//! writing enable files and removing directories is left to the caller.
use vstd::prelude::*;
use crate::shell::ShellContext;
use crate::suggest::{insert_all, simple_items, suggest_view, ItemView, Suggest, SuggestItem};
use crate::template_source::{contains, contains_text, find_char, first_index_of};
use crate::text::{chars_of, concat, is_prefix, lemma_text_order, starts_with, str_eq, string_of_range, text_lt, trim, trim_spec, views};

verus! {

/// Whether a package spec is safe to use as a path below the package
/// directory: no `/`, no `\`, no `..`.
pub open spec fn spec_is_safe(s: Seq<char>) -> bool {
    !contains_text(s, "/"@) && !contains_text(s, "\\"@) && !contains_text(s, ".."@)
}

/// Whether a package spec is safe to use as a path below the package
/// directory.
pub fn package_spec_is_valid(spec: &str) -> (r: bool)
    ensures
        r == spec_is_safe(spec@),
{
    !contains(spec, "/") && !contains(spec, "\\") && !contains(spec, "..")
}

/// Whether a package name is safe and names no version: a safe spec
/// without `@`.
pub fn package_name_is_valid(name: &str) -> (r: bool)
    ensures
        r == (spec_is_safe(name@) && !contains_text(name@, "@"@)),
{
    package_spec_is_valid(name) && !contains(name, "@")
}

/// A spec split at its first `@`: the package name, and the version part
/// when there is one.
pub open spec fn spec_parts(s: Seq<char>) -> (Seq<char>, Option<Seq<char>>) {
    let i = first_index_of(s, '@');
    if i == -1 {
        (s, None)
    } else {
        (s.take(i), Some(s.skip(i + 1)))
    }
}

/// A spec split at its first `@`.
pub fn split_package_spec(spec: &str) -> (r: (String, Option<String>))
    ensures
        (r.0@, match r.1 {
            Some(v) => Some(v@),
            None => None,
        }) == spec_parts(spec@),
{
    match find_char(spec, '@') {
        None => (crate::text::owned(spec), None),
        Some(i) => {
            let v = chars_of(spec);
            assert(i < v.len());
            let name = string_of_range(&v, 0, i);
            let version = string_of_range(&v, i + 1, v.len());
            proof {
                assert(name@ =~= spec@.take(i as int));
                assert(version@ =~= spec@.skip(i + 1));
            }
            (name, Some(version))
        },
    }
}

/// The names of `names[..k]` that start with `p`, in order.
pub open spec fn names_with_prefix(names: Seq<Seq<char>>, p: Seq<char>, k: int) -> Seq<Seq<char>>
    decreases k,
{
    if k <= 0 {
        Seq::empty()
    } else if is_prefix(p, names[k - 1]) {
        names_with_prefix(names, p, k - 1).push(names[k - 1])
    } else {
        names_with_prefix(names, p, k - 1)
    }
}

/// The directories to remove for a spec: the spec itself when it names a
/// version (`name@version`), else every entry of the package directory
/// named `name@...`, in the order listed.
pub open spec fn uninstall_targets_of(spec: Seq<char>, names: Seq<Seq<char>>) -> Seq<Seq<char>> {
    if contains_text(spec, "@"@) {
        seq![spec]
    } else {
        names_with_prefix(names, spec + "@"@, names.len() as int)
    }
}

/// The directories to remove for a spec, given the entries of the package
/// directory.
pub fn uninstall_targets(spec: &str, names: &Vec<String>) -> (r: Vec<String>)
    ensures
        views(r@) == uninstall_targets_of(spec@, views(names@)),
{
    let mut r: Vec<String> = Vec::new();
    if contains(spec, "@") {
        r.push(crate::text::owned(spec));
        proof {
            assert(views(r@) =~= seq![spec@]);
        }
        return r;
    }
    let prefix = concat(spec, "@");
    let ghost ns = views(names@);
    let mut k: usize = 0;
    proof {
        assert(views(r@) =~= Seq::<Seq<char>>::empty());
    }
    while k < names.len()
        invariant
            ns == views(names@),
            prefix@ == spec@ + "@"@,
            k <= ns.len(),
            views(r@) == names_with_prefix(ns, prefix@, k as int),
        decreases ns.len() - k,
    {
        if starts_with(names[k].as_str(), prefix.as_str()) {
            let ghost before = views(r@);
            r.push(names[k].clone());
            proof {
                assert(views(r@) =~= before.push(ns[k as int]));
            }
        }
        k = k + 1;
    }
    r
}

/// How an uninstall ends, from what it removed and what was not there.
#[derive(Debug, Clone, Copy, PartialEq, Eq, Structural)]
pub enum UninstallOutcome {
    /// Nothing matched.
    NoMatchingPackages,
    /// Something was removed (and is reported).
    Uninstalled,
    /// Nothing was removed; what was asked for was not installed.
    NotInstalled,
}

/// How an uninstall ends: when something was removed it is reported; when
/// nothing was asked for at all, no package matched; otherwise what was
/// asked for was not installed.
pub fn uninstall_outcome(removed: usize, not_installed: usize) -> (r: UninstallOutcome)
    ensures
        removed > 0 ==> r == UninstallOutcome::Uninstalled,
        removed == 0 && not_installed == 0 ==> r == UninstallOutcome::NoMatchingPackages,
        removed == 0 && not_installed > 0 ==> r == UninstallOutcome::NotInstalled,
{
    if removed == 0 && not_installed == 0 {
        UninstallOutcome::NoMatchingPackages
    } else if removed > 0 {
        UninstallOutcome::Uninstalled
    } else {
        UninstallOutcome::NotInstalled
    }
}

/// What the package directory holds under a name.
#[derive(Debug, Clone, Copy, PartialEq, Eq, Structural)]
pub enum EntryKind {
    Dir,
    File,
    Other,
}

/// An entry of the package directory: its name, its kind, and for a file
/// its content.
#[derive(Debug)]
pub struct PackageDirEntry {
    pub name: String,
    pub kind: EntryKind,
    pub content: Option<String>,
}

/// Where `x` goes in the text-ordered `s`: after every element that does
/// not sort after it.
pub open spec fn text_insert_pos(s: Seq<Seq<char>>, x: Seq<char>, i: int) -> int
    decreases s.len() - i,
{
    if i < 0 || i >= s.len() {
        s.len() as int
    } else if text_lt(x, s[i]) {
        i
    } else {
        text_insert_pos(s, x, i + 1)
    }
}

/// `s` sorted in text order, equal texts keeping their order.
pub open spec fn sort_texts(s: Seq<Seq<char>>) -> Seq<Seq<char>>
    decreases s.len(),
{
    if s.len() == 0 {
        s
    } else {
        let r = sort_texts(s.drop_last());
        r.insert(text_insert_pos(r, s.last(), 0), s.last())
    }
}

proof fn lemma_text_insert_pos(s: Seq<Seq<char>>, x: Seq<char>, i: int)
    requires
        0 <= i <= s.len(),
    ensures
        i <= text_insert_pos(s, x, i) <= s.len(),
        forall|j: int| i <= j < text_insert_pos(s, x, i) ==> !text_lt(x, #[trigger] s[j]),
        text_insert_pos(s, x, i) < s.len() ==> text_lt(x, s[text_insert_pos(s, x, i)]),
    decreases s.len() - i,
{
    if i < s.len() && !text_lt(x, s[i]) {
        lemma_text_insert_pos(s, x, i + 1);
    }
}

/// Sorting by text orders the texts and keeps every one of them.
pub proof fn law_sort_texts(s: Seq<Seq<char>>)
    ensures
        sort_texts(s).len() == s.len(),
        forall|a: int, b: int|
            0 <= a < b < s.len() ==> !text_lt(#[trigger] sort_texts(s)[b], #[trigger] sort_texts(s)[a]),
        sort_texts(s).to_multiset() == s.to_multiset(),
    decreases s.len(),
{
    broadcast use vstd::seq_lib::group_to_multiset_ensures;

    if s.len() > 0 {
        let r = sort_texts(s.drop_last());
        let x = s.last();
        law_sort_texts(s.drop_last());
        lemma_text_insert_pos(r, x, 0);
        let p = text_insert_pos(r, x, 0);
        let q = r.insert(p, x);
        vstd::seq_lib::to_multiset_insert(r, p, x);
        assert(s =~= s.drop_last().push(x));
        assert forall|a: int, b: int| 0 <= a < b < q.len() implies !text_lt(#[trigger] q[b], #[trigger] q[a]) by {
            if b < p {
                assert(q[a] == r[a] && q[b] == r[b]);
            } else if b == p {
                assert(q[a] == r[a]);
                assert(!text_lt(x, r[a]));
            } else if a == p {
                assert(q[b] == r[b - 1]);
                if b - 1 == p {
                    assert(text_lt(x, r[p]));
                    lemma_text_order(x, r[p], x);
                } else {
                    assert(text_lt(x, r[p]));
                    assert(!text_lt(r[b - 1], r[p]));
                    lemma_text_order(x, r[p], r[b - 1]);
                    lemma_text_order(r[b - 1], x, r[p]);
                }
            } else if a < p {
                assert(q[a] == r[a] && q[b] == r[b - 1]);
            } else {
                assert(q[a] == r[a - 1] && q[b] == r[b - 1]);
            }
        }
    }
}

/// Texts sorted in text order, equal texts keeping their order.
pub fn sorted_texts(v: Vec<String>) -> (r: Vec<String>)
    ensures
        views(r@) == sort_texts(views(v@)),
{
    let ghost vs = views(v@);
    let mut r: Vec<String> = Vec::new();
    let mut k: usize = 0;
    proof {
        assert(vs.take(0) =~= Seq::<Seq<char>>::empty());
        assert(views(r@) =~= sort_texts(vs.take(0)));
    }
    while k < v.len()
        invariant
            vs == views(v@),
            k <= vs.len(),
            views(r@) == sort_texts(vs.take(k as int)),
        decreases vs.len() - k,
    {
        let x = v[k].clone();
        let ghost rs = views(r@);
        let mut p: usize = 0;
        while p < r.len() && crate::text::compare_text(x.as_str(), r[p].as_str()) != -1
            invariant
                rs == views(r@),
                p <= rs.len(),
                text_insert_pos(rs, x@, 0) == text_insert_pos(rs, x@, p as int),
            decreases rs.len() - p,
        {
            p = p + 1;
        }
        r.insert(p, x);
        proof {
            assert(vs.take(k + 1).drop_last() =~= vs.take(k as int));
            assert(vs.take(k + 1).last() == x@);
            assert(views(r@) =~= rs.insert(p as int, x@));
        }
        k = k + 1;
    }
    proof {
        assert(vs.take(k as int) =~= vs);
    }
    r
}

/// Whether the release `version` (its part before any `-`) starts with the
/// dot-separated parts of `partial`.
pub open spec fn version_starts_with(version: Seq<char>, partial: Seq<char>) -> bool {
    let v = crate::text::sep_parts(crate::text::sep_parts(version, '-')[0], '.');
    let p = crate::text::sep_parts(partial, '.');
    p.len() <= v.len() && forall|k: int| 0 <= k < p.len() ==> #[trigger] p[k] == v[k]
}

/// Whether `version` matches the partial version `partial`: `1.2` matches
/// `1.2.3` and `1.2.3-beta`, but not `1.20.0`.
pub fn version_matches(version: &str, partial: &str) -> (r: bool)
    ensures
        r == version_starts_with(version@, partial@),
{
    let release = crate::text::split_on(version, '-');
    let version_parts = crate::text::split_on(release[0].as_str(), '.');
    let partial_parts = crate::text::split_on(partial, '.');
    let ghost v = views(version_parts@);
    let ghost p = views(partial_parts@);
    proof {
        assert(views(release@)[0] == release@[0]@);
    }
    if partial_parts.len() > version_parts.len() {
        return false;
    }
    let mut k: usize = 0;
    while k < partial_parts.len()
        invariant
            v == views(version_parts@),
            p == views(partial_parts@),
            v == crate::text::sep_parts(crate::text::sep_parts(version@, '-')[0], '.'),
            p == crate::text::sep_parts(partial@, '.'),
            p.len() <= v.len(),
            k <= p.len(),
            forall|j: int| 0 <= j < k ==> #[trigger] p[j] == v[j],
        decreases p.len() - k,
    {
        if !str_eq(partial_parts[k].as_str(), version_parts[k].as_str()) {
            proof {
                assert(p[k as int] != v[k as int]);
            }
            return false;
        }
        k = k + 1;
    }
    true
}

/// A release version matches itself: a version with no `-` part matches
/// the same text given as the partial version.
pub proof fn law_release_matches_itself(version: Seq<char>)
    requires
        !version.contains('-'),
    ensures
        version_starts_with(version, version),
{
    crate::text::lemma_sep_parts_single(version, '-');
}

/// Whether `semver` accepts `s` as a version.
pub uninterp spec fn semver_valid(s: Seq<char>) -> bool;

/// How `semver` orders two versions it accepts: -1 when `a` is older, 0
/// when they are the same version, 1 when `a` is newer.
pub uninterp spec fn semver_order(a: Seq<char>, b: Seq<char>) -> int;

/// How `semver` writes a version it accepts.
pub uninterp spec fn semver_text(s: Seq<char>) -> Seq<char>;

/// Whether `semver::Version::parse` accepts `s`. The contract only names
/// the answer: it depends on `s` alone.
#[verifier::external_body]
fn is_semver(s: &str) -> (r: bool)
    ensures
        r == semver_valid(s@),
{
    semver::Version::parse(s).is_ok()
}

/// The order `semver::Version`'s `Ord` gives two parsed versions, as -1,
/// 0 or 1. The contract names the answer and states its range.
#[verifier::external_body]
fn semver_sign(a: &str, b: &str) -> (r: i8)
    requires
        semver_valid(a@),
        semver_valid(b@),
    ensures
        r == semver_order(a@, b@),
        -1 <= r <= 1,
{
    match (semver::Version::parse(a), semver::Version::parse(b)) {
        (Ok(x), Ok(y)) => match x.cmp(&y) {
            std::cmp::Ordering::Less => -1,
            std::cmp::Ordering::Equal => 0,
            std::cmp::Ordering::Greater => 1,
        },
        _ => 0,
    }
}

/// A parsed version written out by `semver::Version`'s `Display`. The
/// contract only names the text: it depends on `s` alone.
#[verifier::external_body]
fn semver_display(s: &str) -> (r: String)
    requires
        semver_valid(s@),
    ensures
        r@ == semver_text(s@),
{
    semver::Version::parse(s).map(|v| v.to_string()).unwrap_or_default()
}

/// The sign of the text order of `a` and `b`.
pub open spec fn text_sign(a: Seq<char>, b: Seq<char>) -> int {
    if a == b {
        0
    } else if text_lt(a, b) {
        -1
    } else {
        1
    }
}

/// The order of two version texts: versions `semver` accepts in its order
/// and before all others, which are in text order among themselves.
pub open spec fn version_order(a: Seq<char>, b: Seq<char>) -> int {
    if semver_valid(a) && semver_valid(b) {
        semver_order(a, b)
    } else if semver_valid(a) {
        1
    } else if semver_valid(b) {
        -1
    } else {
        text_sign(a, b)
    }
}

/// The order of two version texts, as -1, 0 or 1: parsable versions by
/// `semver`, and above unparsable ones, which compare as text.
pub fn compare_versions(a: &str, b: &str) -> (r: i8)
    ensures
        r == version_order(a@, b@),
{
    let va = is_semver(a);
    let vb = is_semver(b);
    if va && vb {
        semver_sign(a, b)
    } else if va {
        1
    } else if vb {
        -1
    } else {
        proof {
            lemma_text_order(a@, b@, a@);
        }
        crate::text::compare_text(a, b)
    }
}

/// Whether the directory `n` holds an installed version of `name` that
/// matches the version part `part` (any version when there is none) and
/// that `semver` accepts.
pub open spec fn is_candidate(n: Seq<char>, name: Seq<char>, part: Option<Seq<char>>) -> bool {
    let (pkg, ver) = spec_parts(n);
    &&& ver is Some
    &&& pkg == name
    &&& (part matches Some(p) ==> version_starts_with(ver->0, p))
    &&& semver_valid(ver->0)
}

/// The versions of the candidates among `names[..k]`, in order.
pub open spec fn candidate_versions(names: Seq<Seq<char>>, name: Seq<char>, part: Option<Seq<char>>, k: int) -> Seq<
    Seq<char>,
>
    decreases k,
{
    if k <= 0 {
        Seq::empty()
    } else if is_candidate(names[k - 1], name, part) {
        candidate_versions(names, name, part, k - 1).push(spec_parts(names[k - 1]).1->0)
    } else {
        candidate_versions(names, name, part, k - 1)
    }
}

/// The index of the newest of `vs[..k]`, the last one winning among equal
/// versions, or -1 when there are none.
pub open spec fn newest_index(vs: Seq<Seq<char>>, k: int) -> int
    decreases k,
{
    if k <= 0 {
        -1
    } else {
        let b = newest_index(vs, k - 1);
        if b == -1 || semver_order(vs[b], vs[k - 1]) != 1 {
            k - 1
        } else {
            b
        }
    }
}

proof fn lemma_newest_index(vs: Seq<Seq<char>>, k: int)
    requires
        0 <= k <= vs.len(),
    ensures
        -1 <= newest_index(vs, k) < k,
        k > 0 ==> newest_index(vs, k) != -1,
    decreases k,
{
    if k > 0 {
        lemma_newest_index(vs, k - 1);
    }
}

/// The version to enable for a spec: among the installed directories
/// `name@version` of the package whose version matches the spec's version
/// part and parses, the newest (the last listed among equal ones), written
/// as `semver` writes it; `None` when there is no such directory.
pub open spec fn picked_version(names: Seq<Seq<char>>, name: Seq<char>, part: Option<Seq<char>>) -> Option<Seq<char>> {
    let vs = candidate_versions(names, name, part, names.len() as int);
    if vs.len() == 0 {
        None
    } else {
        Some(semver_text(vs[newest_index(vs, vs.len() as int)]))
    }
}

proof fn lemma_candidates_valid(names: Seq<Seq<char>>, name: Seq<char>, part: Option<Seq<char>>, k: int)
    requires
        0 <= k <= names.len(),
    ensures
        forall|j: int|
            0 <= j < candidate_versions(names, name, part, k).len() ==> semver_valid(
                #[trigger] candidate_versions(names, name, part, k)[j],
            ),
    decreases k,
{
    if k > 0 {
        lemma_candidates_valid(names, name, part, k - 1);
        let prev = candidate_versions(names, name, part, k - 1);
        let cur = candidate_versions(names, name, part, k);
        assert forall|j: int| 0 <= j < cur.len() implies semver_valid(#[trigger] cur[j]) by {
            if j < prev.len() {
                assert(cur[j] == prev[j]);
            }
        }
    }
}

/// The version to enable among the installed directories `dir_names`, for
/// a package name and an optional version part.
pub fn pick_version(dir_names: &Vec<String>, name: &str, part: Option<&str>) -> (r: Option<String>)
    ensures
        match r {
            Some(v) => picked_version(views(dir_names@), name@, match part {
                Some(p) => Some(p@),
                None => None,
            }) == Some(v@),
            None => picked_version(views(dir_names@), name@, match part {
                Some(p) => Some(p@),
                None => None,
            }) is None,
        },
{
    let ghost ns = views(dir_names@);
    let ghost pv = match part {
        Some(p) => Some(p@),
        None => None,
    };
    let mut versions: Vec<String> = Vec::new();
    let mut k: usize = 0;
    proof {
        assert(views(versions@) =~= Seq::<Seq<char>>::empty());
    }
    while k < dir_names.len()
        invariant
            ns == views(dir_names@),
            pv == match part {
                Some(p) => Some(p@),
                None => None::<Seq<char>>,
            },
            k <= ns.len(),
            views(versions@) == candidate_versions(ns, name@, pv, k as int),
        decreases ns.len() - k,
    {
        let (pkg, ver) = split_package_spec(dir_names[k].as_str());
        let keep = match &ver {
            Some(v) => str_eq(pkg.as_str(), name) && match part {
                Some(p) => version_matches(v.as_str(), p),
                None => true,
            } && is_semver(v.as_str()),
            None => false,
        };
        proof {
            assert(keep == is_candidate(ns[k as int], name@, pv));
        }
        if keep {
            let ghost before = views(versions@);
            match ver {
                Some(v) => {
                    proof {
                        assert(v@ == spec_parts(ns[k as int]).1->0);
                    }
                    versions.push(v);
                    proof {
                        assert(views(versions@) =~= before.push(spec_parts(ns[k as int]).1->0));
                    }
                },
                None => {},
            }
        }
        k = k + 1;
    }
    if versions.len() == 0 {
        return None;
    }
    let ghost vs = views(versions@);
    proof {
        lemma_candidates_valid(ns, name@, pv, ns.len() as int);
    }
    let mut best: usize = 0;
    let mut j: usize = 1;
    proof {
        assert(newest_index(vs, 0) == -1);
        assert(newest_index(vs, 1) == 0);
    }
    while j < versions.len()
        invariant
            vs == views(versions@),
            vs == candidate_versions(ns, name@, pv, ns.len() as int),
            forall|i: int| 0 <= i < vs.len() ==> semver_valid(#[trigger] vs[i]),
            1 <= j <= vs.len(),
            best < j,
            best == newest_index(vs, j as int),
        decreases vs.len() - j,
    {
        proof {
            assert(semver_valid(vs[best as int]) && semver_valid(vs[j as int]));
        }
        if semver_sign(versions[best].as_str(), versions[j].as_str()) != 1 {
            best = j;
        }
        j = j + 1;
    }
    Some(semver_display(versions[best].as_str()))
}

/// The enabled version directory named by an enable file: `name@version`
/// with the file's content trimmed.
pub open spec fn enabled_dir(e: PackageDirEntry) -> Seq<char> {
    e.name@ + "@"@ + trim_spec(match e.content {
        Some(c) => c@,
        None => Seq::empty(),
    })
}

/// Whether an entry is an enable file: a file whose name has no `@`.
pub open spec fn is_enable_file(e: PackageDirEntry) -> bool {
    e.kind == EntryKind::File && !contains_text(e.name@, "@"@)
}

/// The enabled version directories of `es[..k]`, in the order listed.
pub open spec fn enabled_dirs(es: Seq<PackageDirEntry>, k: int) -> Seq<Seq<char>>
    decreases k,
{
    if k <= 0 {
        Seq::empty()
    } else if is_enable_file(es[k - 1]) {
        enabled_dirs(es, k - 1).push(enabled_dir(es[k - 1]))
    } else {
        enabled_dirs(es, k - 1)
    }
}

/// The version directories of every enabled package, in text order.
pub fn enabled_version_dirs(entries: &Vec<PackageDirEntry>) -> (r: Vec<String>)
    ensures
        views(r@) == sort_texts(enabled_dirs(entries@, entries@.len() as int)),
{
    let mut dirs: Vec<String> = Vec::new();
    let mut k: usize = 0;
    proof {
        assert(views(dirs@) =~= Seq::<Seq<char>>::empty());
    }
    while k < entries.len()
        invariant
            k <= entries@.len(),
            views(dirs@) == enabled_dirs(entries@, k as int),
        decreases entries@.len() - k,
    {
        let e = &entries[k];
        if e.kind == EntryKind::File && !contains(e.name.as_str(), "@") {
            let version = match &e.content {
                Some(c) => trim(c.as_str()),
                None => String::new(),
            };
            let a = concat(e.name.as_str(), "@");
            let d = concat(a.as_str(), version.as_str());
            let ghost before = views(dirs@);
            dirs.push(d);
            proof {
                assert(views(dirs@) =~= before.push(enabled_dir(entries@[k as int])));
            }
        }
        k = k + 1;
    }
    sorted_texts(dirs)
}

/// A package as `pkg-show` lists it.
#[derive(Debug, Default, Clone)]
pub struct PkgShowEntry {
    pub name: String,
    /// Enabled version, from the content of the enable file.
    pub enabled: Option<String>,
    /// Installed versions, newest first.
    pub versions: Vec<String>,
}

/// A listed package as plain values.
pub open spec fn pkg_view(p: PkgShowEntry) -> (Seq<char>, Option<Seq<char>>, Seq<Seq<char>>) {
    (
        p.name@,
        match p.enabled {
            Some(e) => Some(e@),
            None => None,
        },
        views(p.versions@),
    )
}

pub open spec fn pkg_views(ps: Seq<PkgShowEntry>) -> Seq<(Seq<char>, Option<Seq<char>>, Seq<Seq<char>>)> {
    ps.map_values(|p: PkgShowEntry| pkg_view(p))
}

/// Where the package `key` stands or goes among the name-ordered `acc`:
/// the first position from `i` whose name does not sort before `key`.
pub open spec fn key_pos(acc: Seq<(Seq<char>, Option<Seq<char>>, Seq<Seq<char>>)>, key: Seq<char>, i: int) -> int
    decreases acc.len() - i,
{
    if i < 0 || i >= acc.len() {
        acc.len() as int
    } else if !text_lt(acc[i].0, key) {
        i
    } else {
        key_pos(acc, key, i + 1)
    }
}

/// The listing with version `v` added to package `key`.
pub open spec fn with_version(acc: Seq<(Seq<char>, Option<Seq<char>>, Seq<Seq<char>>)>, key: Seq<char>, v: Seq<char>) -> Seq<
    (Seq<char>, Option<Seq<char>>, Seq<Seq<char>>),
> {
    let p = key_pos(acc, key, 0);
    if p < acc.len() && acc[p].0 == key {
        acc.update(p, (key, acc[p].1, acc[p].2.push(v)))
    } else {
        acc.insert(p, (key, None, seq![v]))
    }
}

/// The listing with package `key` enabled at version `en`.
pub open spec fn with_enabled(acc: Seq<(Seq<char>, Option<Seq<char>>, Seq<Seq<char>>)>, key: Seq<char>, en: Seq<char>) -> Seq<
    (Seq<char>, Option<Seq<char>>, Seq<Seq<char>>),
> {
    let p = key_pos(acc, key, 0);
    if p < acc.len() && acc[p].0 == key {
        acc.update(p, (key, Some(en), acc[p].2))
    } else {
        acc.insert(p, (key, Some(en), Seq::empty()))
    }
}

/// The packages of the entries `es[..k]`, by name: a directory
/// `name@version` adds an installed version, a file `name` sets the enabled
/// version to its trimmed content; other entries are left out.
pub open spec fn grouped(es: Seq<PackageDirEntry>, k: int) -> Seq<(Seq<char>, Option<Seq<char>>, Seq<Seq<char>>)>
    decreases k,
{
    if k <= 0 {
        Seq::empty()
    } else {
        let acc = grouped(es, k - 1);
        let e = es[k - 1];
        if e.kind == EntryKind::Dir && spec_parts(e.name@).1 is Some {
            with_version(acc, spec_parts(e.name@).0, spec_parts(e.name@).1->0)
        } else if e.kind == EntryKind::File {
            with_enabled(acc, e.name@, match e.content {
                Some(c) => trim_spec(c@),
                None => Seq::empty(),
            })
        } else {
            acc
        }
    }
}

/// Where `x` goes among the newest-first `s`: before the first version
/// older than it.
pub open spec fn newer_pos(s: Seq<Seq<char>>, x: Seq<char>, i: int) -> int
    decreases s.len() - i,
{
    if i < 0 || i >= s.len() {
        s.len() as int
    } else if version_order(s[i], x) == -1 {
        i
    } else {
        newer_pos(s, x, i + 1)
    }
}

/// Versions newest first, equal ones keeping their order.
pub open spec fn newest_first(s: Seq<Seq<char>>) -> Seq<Seq<char>>
    decreases s.len(),
{
    if s.len() == 0 {
        s
    } else {
        let r = newest_first(s.drop_last());
        r.insert(newer_pos(r, s.last(), 0), s.last())
    }
}

/// What `pkg-show` lists for the entries of the package directory: the
/// packages by name, each with its enabled version and its versions newest
/// first.
pub open spec fn package_listing(es: Seq<PackageDirEntry>) -> Seq<(Seq<char>, Option<Seq<char>>, Seq<Seq<char>>)> {
    grouped(es, es.len() as int).map_values(
        |p: (Seq<char>, Option<Seq<char>>, Seq<Seq<char>>)| (p.0, p.1, newest_first(p.2)),
    )
}

proof fn lemma_key_pos(acc: Seq<(Seq<char>, Option<Seq<char>>, Seq<Seq<char>>)>, key: Seq<char>, i: int)
    requires
        0 <= i <= acc.len(),
    ensures
        i <= key_pos(acc, key, i) <= acc.len(),
    decreases acc.len() - i,
{
    if i < acc.len() && text_lt(acc[i].0, key) {
        lemma_key_pos(acc, key, i + 1);
    }
}

proof fn lemma_newer_pos(s: Seq<Seq<char>>, x: Seq<char>, i: int)
    requires
        0 <= i <= s.len(),
    ensures
        i <= newer_pos(s, x, i) <= s.len(),
        forall|j: int| i <= j < newer_pos(s, x, i) ==> version_order(#[trigger] s[j], x) != -1,
        newer_pos(s, x, i) < s.len() ==> version_order(s[newer_pos(s, x, i)], x) == -1,
    decreases s.len() - i,
{
    if i < s.len() && version_order(s[i], x) != -1 {
        lemma_newer_pos(s, x, i + 1);
    }
}

/// The order of version texts is a total order where `semver`'s is: it is
/// -1, 0 or 1, swapping the texts negates it, and it is transitive.
proof fn lemma_version_order(a: Seq<char>, b: Seq<char>, c: Seq<char>)
    requires
        semver_orders_totally(),
    ensures
        -1 <= version_order(a, b) <= 1,
        version_order(a, b) == -version_order(b, a),
        version_order(a, b) >= 0 && version_order(b, c) >= 0 ==> version_order(a, c) >= 0,
{
    lemma_text_order(a, b, c);
    lemma_text_order(b, a, c);
    lemma_text_order(c, b, a);
    lemma_text_order(a, c, b);
    if semver_valid(a) && semver_valid(b) {
        assert(semver_order(a, b) == -semver_order(b, a));
    }
    if semver_valid(a) && semver_valid(b) && semver_valid(c) && semver_order(a, b) >= 0 && semver_order(b, c)
        >= 0 {
        assert(semver_order(a, c) >= 0);
    }
}

/// Listing versions newest first orders them, each not older than the ones
/// after it (given that `semver`'s order is the total order `Ord`
/// documents), and keeps every one of them.
pub proof fn law_newest_first(s: Seq<Seq<char>>)
    requires
        semver_orders_totally(),
    ensures
        newest_first(s).len() == s.len(),
        forall|a: int, b: int|
            0 <= a < b < s.len() ==> version_order(#[trigger] newest_first(s)[a], #[trigger] newest_first(s)[b])
                >= 0,
        newest_first(s).to_multiset() == s.to_multiset(),
    decreases s.len(),
{
    broadcast use vstd::seq_lib::group_to_multiset_ensures;

    if s.len() > 0 {
        let r = newest_first(s.drop_last());
        let x = s.last();
        law_newest_first(s.drop_last());
        lemma_newer_pos(r, x, 0);
        let p = newer_pos(r, x, 0);
        let q = r.insert(p, x);
        vstd::seq_lib::to_multiset_insert(r, p, x);
        assert(s =~= s.drop_last().push(x));
        assert forall|a: int, b: int| 0 <= a < b < q.len() implies version_order(#[trigger] q[a], #[trigger] q[b])
            >= 0 by {
            if b < p {
                assert(q[a] == r[a] && q[b] == r[b]);
            } else if b == p {
                assert(q[a] == r[a]);
                assert(version_order(r[a], x) != -1);
                lemma_version_order(r[a], x, x);
            } else if a == p {
                assert(q[b] == r[b - 1]);
                assert(version_order(r[p], x) == -1);
                lemma_version_order(r[p], x, x);
                if b - 1 != p {
                    assert(version_order(r[p], r[b - 1]) >= 0);
                    lemma_version_order(x, r[p], r[b - 1]);
                }
            } else if a < p {
                assert(q[a] == r[a] && q[b] == r[b - 1]);
            } else {
                assert(q[a] == r[a - 1] && q[b] == r[b - 1]);
            }
        }
    }
}

/// The position of package `key` in the name-ordered `acc`, or where it
/// goes.
fn find_key(acc: &Vec<PkgShowEntry>, key: &str) -> (r: usize)
    ensures
        r == key_pos(pkg_views(acc@), key@, 0),
        r <= acc@.len(),
{
    let ghost a = pkg_views(acc@);
    let mut p: usize = 0;
    proof {
        lemma_key_pos(a, key@, 0);
    }
    while p < acc.len() && crate::text::compare_text(acc[p].name.as_str(), key) == -1
        invariant
            a == pkg_views(acc@),
            p <= a.len(),
            key_pos(a, key@, 0) == key_pos(a, key@, p as int),
        decreases a.len() - p,
    {
        p = p + 1;
    }
    p
}

/// Versions newest first.
fn sort_newest_first(v: Vec<String>) -> (r: Vec<String>)
    ensures
        views(r@) == newest_first(views(v@)),
{
    let ghost vs = views(v@);
    let mut r: Vec<String> = Vec::new();
    let mut k: usize = 0;
    proof {
        assert(vs.take(0) =~= Seq::<Seq<char>>::empty());
        assert(views(r@) =~= newest_first(vs.take(0)));
    }
    while k < v.len()
        invariant
            vs == views(v@),
            k <= vs.len(),
            views(r@) == newest_first(vs.take(k as int)),
        decreases vs.len() - k,
    {
        let x = v[k].clone();
        let ghost rs = views(r@);
        let mut p: usize = 0;
        proof {
            lemma_newer_pos(rs, x@, 0);
        }
        while p < r.len() && compare_versions(r[p].as_str(), x.as_str()) != -1
            invariant
                rs == views(r@),
                p <= rs.len(),
                newer_pos(rs, x@, 0) == newer_pos(rs, x@, p as int),
            decreases rs.len() - p,
        {
            p = p + 1;
        }
        r.insert(p, x);
        proof {
            assert(vs.take(k + 1).drop_last() =~= vs.take(k as int));
            assert(vs.take(k + 1).last() == x@);
            assert(views(r@) =~= rs.insert(p as int, x@));
        }
        k = k + 1;
    }
    proof {
        assert(vs.take(k as int) =~= vs);
    }
    r
}

/// What `pkg-show` lists for the entries of the package directory.
pub fn collect_packages(entries: &Vec<PackageDirEntry>) -> (r: Vec<PkgShowEntry>)
    ensures
        pkg_views(r@) == package_listing(entries@),
{
    let mut acc: Vec<PkgShowEntry> = Vec::new();
    let mut k: usize = 0;
    proof {
        assert(pkg_views(acc@) =~= grouped(entries@, 0));
    }
    while k < entries.len()
        invariant
            k <= entries@.len(),
            pkg_views(acc@) == grouped(entries@, k as int),
        decreases entries@.len() - k,
    {
        let e = &entries[k];
        let ghost before = pkg_views(acc@);
        if e.kind == EntryKind::Dir {
            let (pkg, ver) = split_package_spec(e.name.as_str());
            match ver {
                Some(v) => {
                    let p = find_key(&acc, pkg.as_str());
                    let ghost vv = v@;
                    if p < acc.len() && str_eq(acc[p].name.as_str(), pkg.as_str()) {
                        let mut entry = acc.remove(p);
                        entry.versions.push(v);
                        let ghost ev = pkg_view(entry);
                        acc.insert(p, entry);
                        proof {
                            assert(pkg_views(acc@) =~= before.update(p as int, ev));
                            assert(views(entry.versions@) =~= before[p as int].2.push(vv));
                            assert(pkg_views(acc@) == with_version(before, pkg@, vv));
                        }
                    } else {
                        let mut versions: Vec<String> = Vec::new();
                        versions.push(v);
                        let entry = PkgShowEntry { name: pkg, enabled: None, versions };
                        let ghost ev = pkg_view(entry);
                        acc.insert(p, entry);
                        proof {
                            assert(views(entry.versions@) =~= seq![vv]);
                            assert(pkg_views(acc@) =~= before.insert(p as int, ev));
                            assert(pkg_views(acc@) == with_version(before, pkg@, vv));
                        }
                    }
                },
                None => {},
            }
        } else if e.kind == EntryKind::File {
            let en = match &e.content {
                Some(c) => trim(c.as_str()),
                None => String::new(),
            };
            let p = find_key(&acc, e.name.as_str());
            if p < acc.len() && str_eq(acc[p].name.as_str(), e.name.as_str()) {
                let mut entry = acc.remove(p);
                entry.enabled = Some(en);
                let ghost ev = pkg_view(entry);
                acc.insert(p, entry);
                proof {
                    assert(pkg_views(acc@) =~= before.update(p as int, ev));
                    assert(pkg_views(acc@) == with_enabled(before, e.name@, en@));
                }
            } else {
                let entry = PkgShowEntry { name: e.name.clone(), enabled: Some(en), versions: Vec::new() };
                let ghost ev = pkg_view(entry);
                acc.insert(p, entry);
                proof {
                    assert(views(entry.versions@) =~= Seq::<Seq<char>>::empty());
                    assert(pkg_views(acc@) =~= before.insert(p as int, ev));
                    assert(pkg_views(acc@) == with_enabled(before, e.name@, en@));
                }
            }
        }
        k = k + 1;
    }
    let ghost g = pkg_views(acc@);
    let mut out: Vec<PkgShowEntry> = Vec::new();
    let mut j: usize = 0;
    proof {
        assert(pkg_views(out@) =~= package_listing(entries@).take(0));
    }
    while j < acc.len()
        invariant
            g == grouped(entries@, entries@.len() as int),
            g == pkg_views(acc@),
            j <= acc@.len(),
            pkg_views(out@) == package_listing(entries@).take(j as int),
        decreases acc@.len() - j,
    {
        let versions = sort_newest_first(crate::flag::clone_strings(&acc[j].versions));
        let enabled = match &acc[j].enabled {
            Some(x) => Some(x.clone()),
            None => None,
        };
        let ghost before = pkg_views(out@);
        out.push(PkgShowEntry { name: acc[j].name.clone(), enabled, versions });
        proof {
            assert(pkg_views(out@) =~= before.push(package_listing(entries@)[j as int]));
            assert(package_listing(entries@).take(j + 1) =~= package_listing(entries@).take(j as int).push(
                package_listing(entries@)[j as int],
            ));
        }
        j = j + 1;
    }
    proof {
        assert(package_listing(entries@).take(j as int) =~= package_listing(entries@));
    }
    out
}

proof fn lemma_names_with_prefix(names: Seq<Seq<char>>, p: Seq<char>, k: int)
    requires
        0 <= k <= names.len(),
    ensures
        forall|j: int|
            0 <= j < names_with_prefix(names, p, k).len() ==> names.contains(
                #[trigger] names_with_prefix(names, p, k)[j],
            ) && is_prefix(p, names_with_prefix(names, p, k)[j]),
    decreases k,
{
    if k > 0 {
        lemma_names_with_prefix(names, p, k - 1);
        let prev = names_with_prefix(names, p, k - 1);
        let cur = names_with_prefix(names, p, k);
        assert forall|j: int| 0 <= j < cur.len() implies names.contains(#[trigger] cur[j]) && is_prefix(
            p,
            cur[j],
        ) by {
            if j < prev.len() {
                assert(cur[j] == prev[j]);
            } else {
                assert(cur[j] == names[k - 1]);
            }
        }
    }
}

/// An uninstall removes only what was asked for: the spec itself when it
/// names a version, else listed entries named `name@...`.
pub proof fn law_uninstall_targets_listed(spec: Seq<char>, names: Seq<Seq<char>>, t: Seq<char>)
    requires
        uninstall_targets_of(spec, names).contains(t),
    ensures
        contains_text(spec, "@"@) ==> t == spec,
        !contains_text(spec, "@"@) ==> names.contains(t) && is_prefix(spec + "@"@, t),
{
    if !contains_text(spec, "@"@) {
        lemma_names_with_prefix(names, spec + "@"@, names.len() as int);
        let ts = uninstall_targets_of(spec, names);
        let j = choose|j: int| 0 <= j < ts.len() && ts[j] == t;
        assert(ts[j] == t);
    }
}

/// Whether `v` is the version of a candidate among `names[..k]`.
pub open spec fn from_candidate(names: Seq<Seq<char>>, name: Seq<char>, part: Option<Seq<char>>, k: int, v: Seq<char>) -> bool {
    exists|i: int|
        #![trigger names[i]]
        0 <= i < k && is_candidate(names[i], name, part) && v == spec_parts(names[i]).1->0
}

proof fn lemma_candidate_origin(names: Seq<Seq<char>>, name: Seq<char>, part: Option<Seq<char>>, k: int)
    requires
        0 <= k <= names.len(),
    ensures
        forall|j: int|
            0 <= j < candidate_versions(names, name, part, k).len() ==> from_candidate(
                names,
                name,
                part,
                k,
                #[trigger] candidate_versions(names, name, part, k)[j],
            ),
    decreases k,
{
    if k > 0 {
        lemma_candidate_origin(names, name, part, k - 1);
        let prev = candidate_versions(names, name, part, k - 1);
        let cur = candidate_versions(names, name, part, k);
        assert forall|j: int| 0 <= j < cur.len() implies from_candidate(names, name, part, k, #[trigger] cur[j]) by {
            if j < prev.len() {
                assert(cur[j] == prev[j]);
                assert(from_candidate(names, name, part, k - 1, prev[j]));
                let i = choose|i: int|
                    #![trigger names[i]]
                    0 <= i < k - 1 && is_candidate(names[i], name, part) && prev[j] == spec_parts(names[i]).1->0;
                assert(0 <= i < k && is_candidate(names[i], name, part) && cur[j] == spec_parts(names[i]).1->0);
            } else {
                assert(is_candidate(names[k - 1], name, part) && cur[j] == spec_parts(names[k - 1]).1->0);
            }
        }
    }
}

/// What `Ord` documents of `semver::Version`'s order, as `semver_order`
/// names it on the versions `semver` accepts: it is -1, 0 or 1, swapping
/// the versions negates it, and it is transitive.
pub open spec fn semver_orders_totally() -> bool {
    &&& forall|a: Seq<char>, b: Seq<char>|
        semver_valid(a) && semver_valid(b) ==> -1 <= #[trigger] semver_order(a, b) <= 1 && semver_order(a, b)
            == -semver_order(b, a)
    &&& forall|a: Seq<char>, b: Seq<char>, c: Seq<char>|
        #![trigger semver_order(a, b), semver_order(b, c)]
        semver_valid(a) && semver_valid(b) && semver_valid(c) && semver_order(a, b) >= 0 && semver_order(b, c)
            >= 0 ==> semver_order(a, c) >= 0
}

proof fn lemma_newest_is_max(vs: Seq<Seq<char>>, k: int)
    requires
        0 <= k <= vs.len(),
        forall|j: int| 0 <= j < vs.len() ==> semver_valid(#[trigger] vs[j]),
        semver_orders_totally(),
    ensures
        forall|j: int| 0 <= j < k ==> semver_order(vs[newest_index(vs, k)], #[trigger] vs[j]) >= 0,
    decreases k,
{
    if k > 0 {
        lemma_newest_is_max(vs, k - 1);
        lemma_newest_index(vs, k - 1);
        let b = newest_index(vs, k - 1);
        let last = vs[k - 1];
        assert(semver_valid(last));
        assert(semver_order(last, last) == -semver_order(last, last));
        if b != -1 {
            assert(semver_valid(vs[b]));
            assert(semver_order(vs[b], last) == -semver_order(last, vs[b]));
            if semver_order(vs[b], last) != 1 {
                assert forall|j: int| 0 <= j < k implies semver_order(last, #[trigger] vs[j]) >= 0 by {
                    if j < k - 1 {
                        assert(semver_valid(vs[j]));
                        assert(semver_order(vs[b], vs[j]) >= 0);
                    }
                }
            }
        }
    }
}

proof fn lemma_candidate_listed(names: Seq<Seq<char>>, name: Seq<char>, part: Option<Seq<char>>, k: int)
    requires
        0 <= k <= names.len(),
    ensures
        forall|j: int|
            0 <= j < k && is_candidate(#[trigger] names[j], name, part) ==> candidate_versions(
                names,
                name,
                part,
                k,
            ).contains(spec_parts(names[j]).1->0),
    decreases k,
{
    if k > 0 {
        lemma_candidate_listed(names, name, part, k - 1);
        let prev = candidate_versions(names, name, part, k - 1);
        let cur = candidate_versions(names, name, part, k);
        assert forall|j: int| 0 <= j < k && is_candidate(#[trigger] names[j], name, part) implies cur.contains(
            spec_parts(names[j]).1->0,
        ) by {
            if j < k - 1 {
                let m = choose|m: int| 0 <= m < prev.len() && prev[m] == spec_parts(names[j]).1->0;
                assert(cur[m] == prev[m]);
            } else {
                assert(cur[cur.len() - 1] == spec_parts(names[j]).1->0);
            }
        }
    }
}

/// The version enabled for a spec is the newest one installed: it comes
/// from a candidate directory whose version is, in `semver`'s order, not
/// older than that of any other candidate (given that the order is the
/// total order `Ord` documents).
pub proof fn law_picked_is_newest(names: Seq<Seq<char>>, name: Seq<char>, part: Option<Seq<char>>)
    requires
        picked_version(names, name, part) is Some,
        semver_orders_totally(),
    ensures
        exists|i: int|
            0 <= i < names.len() && is_candidate(names[i], name, part) && picked_version(names, name, part)
                == Some(semver_text(#[trigger] spec_parts(names[i]).1->0)) && forall|j: int|
                0 <= j < names.len() && is_candidate(names[j], name, part) ==> semver_order(
                    spec_parts(names[i]).1->0,
                    #[trigger] spec_parts(names[j]).1->0,
                ) >= 0,
{
    let vs = candidate_versions(names, name, part, names.len() as int);
    lemma_newest_index(vs, vs.len() as int);
    lemma_candidates_valid(names, name, part, names.len() as int);
    lemma_newest_is_max(vs, vs.len() as int);
    lemma_candidate_origin(names, name, part, names.len() as int);
    lemma_candidate_listed(names, name, part, names.len() as int);
    let b = newest_index(vs, vs.len() as int);
    assert(from_candidate(names, name, part, names.len() as int, vs[b]));
    let i = choose|i: int|
        #![trigger names[i]]
        0 <= i < names.len() && is_candidate(names[i], name, part) && vs[b] == spec_parts(names[i]).1->0;
    assert forall|j: int| 0 <= j < names.len() && is_candidate(names[j], name, part) implies semver_order(
        spec_parts(names[i]).1->0,
        #[trigger] spec_parts(names[j]).1->0,
    ) >= 0 by {
        assert(is_candidate(names[j], name, part));
        assert(vs.contains(spec_parts(names[j]).1->0));
        let m = choose|m: int| 0 <= m < vs.len() && vs[m] == spec_parts(names[j]).1->0;
        assert(semver_order(vs[b], vs[m]) >= 0);
    }
    assert(0 <= i < names.len() && is_candidate(names[i], name, part) && picked_version(names, name, part)
        == Some(semver_text(spec_parts(names[i]).1->0)));
}

/// The version enabled for a spec is an installed one: some listed
/// directory `name@version` is a candidate for the spec, and the picked
/// text is how `semver` writes its version.
pub proof fn law_picked_is_installed(names: Seq<Seq<char>>, name: Seq<char>, part: Option<Seq<char>>)
    requires
        picked_version(names, name, part) is Some,
    ensures
        exists|i: int|
            0 <= i < names.len() && is_candidate(names[i], name, part) && picked_version(names, name, part)
                == Some(semver_text(#[trigger] spec_parts(names[i]).1->0)),
{
    let vs = candidate_versions(names, name, part, names.len() as int);
    lemma_newest_index(vs, vs.len() as int);
    lemma_candidate_origin(names, name, part, names.len() as int);
    let b = newest_index(vs, vs.len() as int);
    assert(0 <= b < vs.len());
    assert(from_candidate(names, name, part, names.len() as int, vs[b]));
    let i = choose|i: int|
        #![trigger names[i]]
        0 <= i < names.len() && is_candidate(names[i], name, part) && vs[b] == spec_parts(names[i]).1->0;
    assert(picked_version(names, name, part) == Some(semver_text(spec_parts(names[i]).1->0)));
}

/// Whether the package names of a listing are in strictly increasing text
/// order.
pub open spec fn names_ordered(acc: Seq<(Seq<char>, Option<Seq<char>>, Seq<Seq<char>>)>) -> bool {
    forall|a: int, b: int| 0 <= a < b < acc.len() ==> text_lt(#[trigger] acc[a].0, #[trigger] acc[b].0)
}

proof fn lemma_key_pos_split(acc: Seq<(Seq<char>, Option<Seq<char>>, Seq<Seq<char>>)>, key: Seq<char>, i: int)
    requires
        0 <= i <= acc.len(),
        names_ordered(acc),
    ensures
        forall|j: int| i <= j < key_pos(acc, key, i) ==> text_lt(#[trigger] acc[j].0, key),
        key_pos(acc, key, i) < acc.len() ==> !text_lt(acc[key_pos(acc, key, i)].0, key),
    decreases acc.len() - i,
{
    if i < acc.len() && text_lt(acc[i].0, key) {
        lemma_key_pos_split(acc, key, i + 1);
    }
}

proof fn lemma_upsert_ordered(
    acc: Seq<(Seq<char>, Option<Seq<char>>, Seq<Seq<char>>)>,
    key: Seq<char>,
    x: (Seq<char>, Option<Seq<char>>, Seq<Seq<char>>),
)
    requires
        names_ordered(acc),
        x.0 == key,
    ensures
        ({
            let p = key_pos(acc, key, 0);
            &&& p < acc.len() && acc[p].0 == key ==> names_ordered(acc.update(p, x))
            &&& !(p < acc.len() && acc[p].0 == key) ==> names_ordered(acc.insert(p, x))
        }),
{
    lemma_key_pos(acc, key, 0);
    lemma_key_pos_split(acc, key, 0);
    let p = key_pos(acc, key, 0);
    if p < acc.len() && acc[p].0 == key {
        let q = acc.update(p, x);
        assert forall|a: int, b: int| 0 <= a < b < q.len() implies text_lt(#[trigger] q[a].0, #[trigger] q[b].0) by {
            assert(text_lt(acc[a].0, acc[b].0));
        }
    } else {
        let q = acc.insert(p, x);
        if p < acc.len() {
            lemma_text_order(acc[p].0, key, acc[p].0);
        }
        assert forall|a: int, b: int| 0 <= a < b < q.len() implies text_lt(#[trigger] q[a].0, #[trigger] q[b].0) by {
            if b < p {
                assert(q[a] == acc[a] && q[b] == acc[b]);
            } else if b == p {
                assert(q[a] == acc[a]);
            } else if a == p {
                assert(q[b] == acc[b - 1]);
                assert(text_lt(key, acc[p].0));
                if b - 1 > p {
                    assert(text_lt(acc[p].0, acc[b - 1].0));
                    lemma_text_order(key, acc[p].0, acc[b - 1].0);
                }
            } else if a < p {
                assert(q[a] == acc[a] && q[b] == acc[b - 1]);
            } else {
                assert(q[a] == acc[a - 1] && q[b] == acc[b - 1]);
            }
        }
    }
}

/// The packages of a listing stand in strictly increasing name order, so
/// no name is listed twice.
pub proof fn law_listing_ordered(es: Seq<PackageDirEntry>, k: int)
    requires
        0 <= k <= es.len(),
    ensures
        names_ordered(grouped(es, k)),
    decreases k,
{
    if k > 0 {
        law_listing_ordered(es, k - 1);
        let acc = grouped(es, k - 1);
        let e = es[k - 1];
        if e.kind == EntryKind::Dir && spec_parts(e.name@).1 is Some {
            let key = spec_parts(e.name@).0;
            let v = spec_parts(e.name@).1->0;
            let p = key_pos(acc, key, 0);
            if p < acc.len() && acc[p].0 == key {
                lemma_upsert_ordered(acc, key, (key, acc[p].1, acc[p].2.push(v)));
            } else {
                lemma_upsert_ordered(acc, key, (key, None, seq![v]));
            }
        } else if e.kind == EntryKind::File {
            let en = match e.content {
                Some(c) => trim_spec(c@),
                None => Seq::empty(),
            };
            let p = key_pos(acc, e.name@, 0);
            if p < acc.len() && acc[p].0 == e.name@ {
                lemma_upsert_ordered(acc, e.name@, (e.name@, Some(en), acc[p].2));
            } else {
                lemma_upsert_ordered(acc, e.name@, (e.name@, Some(en), Seq::empty()));
            }
        }
    }
}

/// The directory a package version is installed in: `name@version`.
pub fn package_dir_name(name: &str, version: &str) -> (r: String)
    ensures
        r@ == name@ + "@"@ + version@,
{
    let a = concat(name, "@");
    concat(a.as_str(), version)
}

/// The files of the binary targets of a workspace: each target's name with
/// the platform's executable suffix.
pub fn binary_file_names(targets: &Vec<String>, exe_suffix: &str) -> (r: Vec<String>)
    ensures
        views(r@) == views(targets@).map_values(|t: Seq<char>| t + exe_suffix@),
{
    let mut r: Vec<String> = Vec::new();
    let mut k: usize = 0;
    while k < targets.len()
        invariant
            k <= targets@.len(),
            views(r@) =~= views(targets@).take(k as int).map_values(|t: Seq<char>| t + exe_suffix@),
        decreases targets@.len() - k,
    {
        let ghost before = views(r@);
        r.push(concat(targets[k].as_str(), exe_suffix));
        proof {
            assert(views(r@) =~= before.push(targets@[k as int]@ + exe_suffix@));
            assert(views(targets@).take(k + 1) =~= views(targets@).take(k as int).push(targets@[k as int]@));
        }
        k = k + 1;
    }
    proof {
        assert(views(targets@).take(k as int) =~= views(targets@));
    }
    r
}

/// The names of `names[..k]` that contain `_comp`, in order.
pub open spec fn comp_script_names(names: Seq<Seq<char>>, k: int) -> Seq<Seq<char>>
    decreases k,
{
    if k <= 0 {
        Seq::empty()
    } else if contains_text(names[k - 1], "_comp"@) {
        comp_script_names(names, k - 1).push(names[k - 1])
    } else {
        comp_script_names(names, k - 1)
    }
}

/// The completion scripts among the files of a build directory: every file
/// whose name contains `_comp`, whatever its suffix.
pub fn completion_script_names(names: &Vec<String>) -> (r: Vec<String>)
    ensures
        views(r@) == comp_script_names(views(names@), names@.len() as int),
{
    let ghost ns = views(names@);
    let mut r: Vec<String> = Vec::new();
    let mut k: usize = 0;
    proof {
        assert(views(r@) =~= Seq::<Seq<char>>::empty());
    }
    while k < names.len()
        invariant
            ns == views(names@),
            k <= ns.len(),
            views(r@) == comp_script_names(ns, k as int),
        decreases ns.len() - k,
    {
        if contains(names[k].as_str(), "_comp") {
            let ghost before = views(r@);
            r.push(names[k].clone());
            proof {
                assert(views(r@) =~= before.push(ns[k as int]));
            }
        }
        k = k + 1;
    }
    r
}

/// The completions after a package command: file completion unless the
/// word before the cursor is the command `command`; then the given entry
/// names of the package directory (none when it could not be read).
pub fn entry_names_completion(ctx: &ShellContext, command: &str, names: Option<Vec<String>>) -> (r: Suggest)
    ensures
        ctx.previous_word@ != command@ ==> r is FileCompletion,
        ctx.previous_word@ == command@ ==> suggest_view(r) == Some(
            match names {
                None => Seq::<ItemView>::empty(),
                Some(v) => insert_all(Seq::empty(), simple_items(views(v@)), v@.len() as int),
            },
        ),
{
    if !str_eq(ctx.previous_word.as_str(), command) {
        return Suggest::file_comp();
    }
    let mut suggest = Suggest::new();
    let names = match names {
        Some(v) => v,
        None => {
            return suggest;
        },
    };
    let ghost items = simple_items(views(names@));
    let mut k: usize = 0;
    while k < names.len()
        invariant
            k <= names@.len(),
            items == simple_items(views(names@)),
            suggest_view(suggest) == Some(insert_all(Seq::empty(), items, k as int)),
        decreases names@.len() - k,
    {
        let item = SuggestItem::new(names[k].clone());
        proof {
            assert(item@ == items[k as int]);
        }
        suggest.insert(item);
        k = k + 1;
    }
    suggest
}

} // verus!
