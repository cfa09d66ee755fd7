//! Messages laid out the way cargo prints them: a right-aligned, colored
//! verb in a twelve-column gutter, then the message.
use vstd::prelude::*;
use crate::template_source::{find_char, first_index_of};
use crate::text::{chars_of, concat, push_char, string_of_range, trim, trim_spec, trim_start, trim_start_spec};
use crate::paint::{bold_bright_green, bold_bright_red, bright_white, painted_in};

verus! {

/// The verb of a message: the text before its first `:`, trimmed, or
/// nothing when there is no `:`.
pub open spec fn info_prefix(s: Seq<char>) -> Seq<char> {
    let i = first_index_of(s, ':');
    if i != -1 {
        trim_spec(s.take(i))
    } else {
        Seq::empty()
    }
}

/// The message after the verb, trimmed.
pub open spec fn info_content(s: Seq<char>) -> Seq<char> {
    let i = first_index_of(s, ':');
    if i != -1 {
        trim_spec(trim_start_spec(s.skip(i + 1)))
    } else {
        trim_spec(trim_spec(s))
    }
}

/// `n` spaces.
pub open spec fn spaces(n: int) -> Seq<char> {
    Seq::new(n as nat, |_k: int| ' ')
}

/// A message in cargo's layout: `verb: message` becomes the verb,
/// right-aligned in twelve columns, bold bright green, a space and the message.
/// The verb may take at most twelve characters.
pub fn get_cargo_info_format<S>(str: S) -> (r: String)
    where String: From<S>,
    requires
        forall|s: String| call_ensures(<String as From<S>>::from, (str,), s) ==> info_prefix(s@).len() <= 12,
    ensures
        exists|s: String, p: Seq<char>|
            #![trigger call_ensures(<String as From<S>>::from, (str,), s), painted_in(info_prefix(s@), p, "1;92"@)]
            call_ensures(<String as From<S>>::from, (str,), s) && painted_in(info_prefix(s@), p, "1;92"@) && r@ == spaces(
                12 - info_prefix(s@).len(),
            ) + p + " "@ + info_content(s@),
{
    let s = String::from(str);
    let (prefix, content) = match find_char(s.as_str(), ':') {
        Some(pos) => {
            let v = chars_of(s.as_str());
            let n = v.len();
            assert(pos < n);
            let head = string_of_range(&v, 0, pos);
            let tail = string_of_range(&v, pos + 1, n);
            proof {
                assert(head@ == s@.take(pos as int));
                assert(tail@ == s@.skip(pos + 1));
            }
            (trim(head.as_str()), trim_start(tail.as_str()))
        },
        None => (String::new(), trim(s.as_str())),
    };
    let len = prefix.unicode_len();
    let mut padding = String::new();
    let mut k: usize = 0;
    while k < 12 - len
        invariant
            len <= 12,
            k <= 12 - len,
            padding@ == spaces(k as int),
        decreases 12 - len - k,
    {
        push_char(&mut padding, ' ');
        proof {
            assert(padding@ =~= spaces(k + 1));
        }
        k = k + 1;
    }
    let verb = bold_bright_green(prefix.as_str());
    let body = trim(content.as_str());
    let a = concat(padding.as_str(), verb.as_str());
    let b = concat(a.as_str(), " ");
    let r = concat(b.as_str(), body.as_str());
    proof {
        assert(r@ == spaces(12 - info_prefix(s@).len()) + verb@ + " "@ + info_content(s@));
    }
    r
}

/// An error message in cargo's layout: a bold bright red `error`, a colon and the
/// message.
pub fn get_cargo_error_format<S>(str: S) -> (r: String)
    where String: From<S>,
    ensures
        exists|s: String, p: Seq<char>|
            #![trigger call_ensures(<String as From<S>>::from, (str,), s), painted_in("error"@, p, "1;91"@)]
            call_ensures(<String as From<S>>::from, (str,), s) && painted_in("error"@, p, "1;91"@) && r@ == p + ": "@ + s@,
{
    let s = String::from(str);
    let verb = bold_bright_red("error");
    let a = concat(verb.as_str(), ": ");
    let r = concat(a.as_str(), s.as_str());
    r
}

/// A help message in cargo's layout: a bright white `help`, a colon and the
/// message.
pub fn get_cargo_help_format<S>(str: S) -> (r: String)
    where String: From<S>,
    ensures
        exists|s: String, p: Seq<char>|
            #![trigger call_ensures(<String as From<S>>::from, (str,), s), painted_in("help"@, p, "97"@)]
            call_ensures(<String as From<S>>::from, (str,), s) && painted_in("help"@, p, "97"@) && r@ == p + ": "@ + s@,
{
    let s = String::from(str);
    let verb = bright_white("help");
    let a = concat(verb.as_str(), ": ");
    let r = concat(a.as_str(), s.as_str());
    r
}

} // verus!
