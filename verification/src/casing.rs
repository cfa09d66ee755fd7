//! Letter-case conversions the library takes from `just_fmt` and from std.
//!
//! Each conversion is a function of its input alone; its result is named by
//! an uninterpreted spec function so that callers can state exactly which
//! string they hand on.
use vstd::prelude::*;

verus! {

/// What `just_fmt`'s kebab-case conversion yields for `s`.
pub uninterp spec fn kebab_case_of(s: Seq<char>) -> Seq<char>;

/// What `just_fmt`'s snake_case conversion yields for `s`.
pub uninterp spec fn snake_case_of(s: Seq<char>) -> Seq<char>;

/// What `just_fmt`'s PascalCase conversion yields for `s`.
pub uninterp spec fn pascal_case_of(s: Seq<char>) -> Seq<char>;

/// What `just_fmt`'s camelCase conversion yields for `s`.
pub uninterp spec fn camel_case_of(s: Seq<char>) -> Seq<char>;

/// What `str::to_lowercase` yields for `s`.
pub uninterp spec fn lowercase_of(s: Seq<char>) -> Seq<char>;

/// What `str::to_uppercase` yields for `s`.
pub uninterp spec fn uppercase_of(s: Seq<char>) -> Seq<char>;

/// Whether `s` is already in kebab-case: lowercase ASCII letters and digits,
/// with single hyphens between words and none at either end.
pub open spec fn is_kebab(s: Seq<char>) -> bool {
    &&& forall|i: int|
        0 <= i < s.len() ==> (('a' <= #[trigger] s[i] && s[i] <= 'z') || ('0' <= s[i] && s[i] <= '9')
            || s[i] == '-')
    &&& s.len() > 0 ==> s[0] != '-' && s[s.len() - 1] != '-'
    &&& forall|i: int| 0 <= i < s.len() - 1 ==> !(#[trigger] s[i] == '-' && s[i + 1] == '-')
}

/// `s` in kebab-case, through `just_fmt::CaseFormatter::to_kebab_case`
/// (what the `kebab_case!` macro expands to). The contract names the
/// result, which depends on `s` alone, and states what the source shows of
/// a string already in kebab-case: it splits into its words at the hyphens
/// and joins them with hyphens again, so it comes back unchanged.
#[verifier::external_body]
pub(crate) fn kebab_case(s: &str) -> (r: String)
    ensures
        r@ == kebab_case_of(s@),
        is_kebab(s@) ==> r@ == s@,
{
    just_fmt::CaseFormatter::from(s).to_kebab_case()
}

/// `s` in snake_case, through `just_fmt::CaseFormatter::to_snake_case`
/// (what the `snake_case!` macro expands to). The contract only names the
/// result: it depends on `s` alone.
#[verifier::external_body]
pub(crate) fn snake_case(s: &str) -> (r: String)
    ensures
        r@ == snake_case_of(s@),
{
    just_fmt::CaseFormatter::from(s).to_snake_case()
}

/// An ASCII character in lower case: `A` to `Z` become `a` to `z`.
pub open spec fn ascii_lower_char(c: char) -> char {
    if 'A' <= c && c <= 'Z' {
        ((c as u32) + 32) as char
    } else {
        c
    }
}

/// Whether every character of `s` is ASCII.
pub open spec fn is_ascii_text(s: Seq<char>) -> bool {
    forall|i: int| 0 <= i < s.len() ==> (#[trigger] s[i] as u32) < 128
}

/// `s` in lower case, through `str::to_lowercase`. The contract names the
/// result, which depends on `s` alone, and states what the Unicode
/// lower-case mapping it documents gives for ASCII text: each upper-case
/// letter becomes its lower-case letter, and nothing else changes.
#[verifier::external_body]
pub(crate) fn lowercase(s: &str) -> (r: String)
    ensures
        r@ == lowercase_of(s@),
        is_ascii_text(s@) ==> r@ == s@.map_values(|c: char| ascii_lower_char(c)),
{
    s.to_lowercase()
}

/// `s` in PascalCase, through `just_fmt::CaseFormatter::to_pascal_case`
/// (what the `pascal_case!` macro expands to). The contract only names the
/// result: it depends on `s` alone.
#[verifier::external_body]
pub(crate) fn pascal_case(s: &str) -> (r: String)
    ensures
        r@ == pascal_case_of(s@),
{
    just_fmt::CaseFormatter::from(s).to_pascal_case()
}

/// `s` in camelCase, through `just_fmt::CaseFormatter::to_camel_case`
/// (what the `camel_case!` macro expands to). The contract only names the
/// result: it depends on `s` alone.
#[verifier::external_body]
pub(crate) fn camel_case(s: &str) -> (r: String)
    ensures
        r@ == camel_case_of(s@),
{
    just_fmt::CaseFormatter::from(s).to_camel_case()
}

/// `s` in upper case, through `str::to_uppercase`. The contract only names
/// the result: it depends on `s` alone.
#[verifier::external_body]
pub(crate) fn uppercase(s: &str) -> (r: String)
    ensures
        r@ == uppercase_of(s@),
{
    s.to_uppercase()
}

} // verus!
