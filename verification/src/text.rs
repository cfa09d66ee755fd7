//! Character-level helpers shared by the string-processing modules.
use vstd::prelude::*;

verus! {

/// The character sequences held by a vector of strings.
pub open spec fn views(v: Seq<String>) -> Seq<Seq<char>> {
    v.map_values(|s: String| s@)
}

/// Appends one character to a string.
///
/// Wraps `String::push`, whose documentation promises that the character is
/// appended at the end; the contract states exactly that.
#[verifier::external_body]
pub(crate) fn push_char(s: &mut String, c: char)
    ensures
        final(s)@ == old(s)@.push(c),
{
    s.push(c);
}

/// Copies a string slice into an owned string with the same characters.
pub fn owned(s: &str) -> (r: String)
    ensures
        r@ == s@,
{
    let mut r = String::new();
    r.append(s);
    proof {
        assert(r@ =~= s@);
    }
    r
}

/// `a` followed by `b`.
pub fn concat(a: &str, b: &str) -> (r: String)
    ensures
        r@ == a@ + b@,
{
    let mut r = owned(a);
    r.append(b);
    r
}

/// The characters of `s`, in order.
pub fn chars_of(s: &str) -> (v: Vec<char>)
    ensures
        v@ == s@,
{
    let n = s.unicode_len();
    let mut v: Vec<char> = Vec::new();
    let mut i: usize = 0;
    while i < n
        invariant
            n == s@.len(),
            i <= n,
            v@ == s@.take(i as int),
        decreases n - i,
    {
        let c = s.get_char(i);
        v.push(c);
        i = i + 1;
        proof {
            assert(v@ =~= s@.take(i as int));
        }
    }
    proof {
        assert(v@ =~= s@);
    }
    v
}

/// Builds a string from the characters `v[from..to]`.
pub fn string_of_range(v: &Vec<char>, from: usize, to: usize) -> (r: String)
    requires
        from <= to <= v@.len(),
    ensures
        r@ == v@.subrange(from as int, to as int),
{
    let mut r = String::new();
    let mut i = from;
    while i < to
        invariant
            from <= i <= to <= v@.len(),
            r@ == v@.subrange(from as int, i as int),
        decreases to - i,
    {
        push_char(&mut r, v[i]);
        i = i + 1;
        proof {
            assert(r@ =~= v@.subrange(from as int, i as int));
        }
    }
    r
}

/// Builds a string holding all the characters of `v`.
pub fn string_of(v: &Vec<char>) -> (r: String)
    ensures
        r@ == v@,
{
    let r = string_of_range(v, 0, v.len());
    proof {
        assert(v@.subrange(0, v@.len() as int) =~= v@);
    }
    r
}

/// Whether two string slices hold the same characters.
pub fn str_eq(a: &str, b: &str) -> (r: bool)
    ensures
        r == (a@ == b@),
{
    let n = a.unicode_len();
    let m = b.unicode_len();
    if n != m {
        return false;
    }
    let mut i: usize = 0;
    while i < n
        invariant
            n == a@.len(),
            m == b@.len(),
            n == m,
            i <= n,
            forall|k: int| 0 <= k < i ==> a@[k] == b@[k],
        decreases n - i,
    {
        if a.get_char(i) != b.get_char(i) {
            return false;
        }
        i = i + 1;
    }
    proof {
        assert(a@ =~= b@);
    }
    true
}

/// Whether `p` is a prefix of `s`.
pub open spec fn is_prefix(p: Seq<char>, s: Seq<char>) -> bool {
    p.len() <= s.len() && s.take(p.len() as int) == p
}

/// Whether `p` is a suffix of `s`.
pub open spec fn is_suffix(p: Seq<char>, s: Seq<char>) -> bool {
    p.len() <= s.len() && s.skip(s.len() - p.len()) == p
}

/// Whether `s` starts with `p`.
pub fn starts_with(s: &str, p: &str) -> (r: bool)
    ensures
        r == is_prefix(p@, s@),
{
    let n = s.unicode_len();
    let m = p.unicode_len();
    if m > n {
        return false;
    }
    let mut i: usize = 0;
    while i < m
        invariant
            n == s@.len(),
            m == p@.len(),
            m <= n,
            i <= m,
            forall|k: int| 0 <= k < i ==> s@[k] == p@[k],
        decreases m - i,
    {
        if s.get_char(i) != p.get_char(i) {
            proof {
                assert(s@.take(m as int)[i as int] != p@[i as int]);
            }
            return false;
        }
        i = i + 1;
    }
    proof {
        assert(s@.take(m as int) =~= p@);
    }
    true
}

/// Whether `s` ends with `p`.
pub fn ends_with(s: &str, p: &str) -> (r: bool)
    ensures
        r == is_suffix(p@, s@),
{
    let n = s.unicode_len();
    let m = p.unicode_len();
    if m > n {
        return false;
    }
    let off = n - m;
    let mut i: usize = 0;
    while i < m
        invariant
            n == s@.len(),
            m == p@.len(),
            m <= n,
            off == n - m,
            i <= m,
            forall|k: int| 0 <= k < i ==> s@[off + k] == p@[k],
        decreases m - i,
    {
        if s.get_char(off + i) != p.get_char(i) {
            proof {
                assert(s@.skip(off as int)[i as int] != p@[i as int]);
            }
            return false;
        }
        i = i + 1;
    }
    proof {
        assert(s@.skip(off as int) =~= p@);
    }
    true
}

/// Lexicographic order on character sequences by code point, compared from
/// position `i` on; this is the order of `str` and `String`.
pub open spec fn text_lt_from(a: Seq<char>, b: Seq<char>, i: int) -> bool
    decreases a.len() - i,
{
    if i < 0 {
        false
    } else if i >= a.len() {
        i < b.len()
    } else if i >= b.len() {
        false
    } else if a[i] != b[i] {
        a[i] < b[i]
    } else {
        text_lt_from(a, b, i + 1)
    }
}

/// `a` sorts strictly before `b`.
pub open spec fn text_lt(a: Seq<char>, b: Seq<char>) -> bool {
    text_lt_from(a, b, 0)
}

proof fn lemma_text_lt_irrefl(a: Seq<char>, i: int)
    requires
        0 <= i,
    ensures
        !text_lt_from(a, a, i),
    decreases a.len() - i,
{
    if i < a.len() {
        lemma_text_lt_irrefl(a, i + 1);
    }
}

proof fn lemma_text_lt_asym(a: Seq<char>, b: Seq<char>, i: int)
    requires
        0 <= i,
    ensures
        text_lt_from(a, b, i) ==> !text_lt_from(b, a, i),
    decreases a.len() - i,
{
    if i < a.len() && i < b.len() && a[i] == b[i] {
        lemma_text_lt_asym(a, b, i + 1);
    }
}

proof fn lemma_text_lt_trans(a: Seq<char>, b: Seq<char>, c: Seq<char>, i: int)
    requires
        0 <= i,
    ensures
        text_lt_from(a, b, i) && text_lt_from(b, c, i) ==> text_lt_from(a, c, i),
    decreases a.len() - i,
{
    if i < a.len() && i < b.len() && i < c.len() {
        lemma_text_lt_trans(a, b, c, i + 1);
    }
}

proof fn lemma_text_lt_total(a: Seq<char>, b: Seq<char>, i: int)
    requires
        0 <= i <= a.len(),
        i <= b.len(),
        forall|k: int| 0 <= k < i ==> a[k] == b[k],
    ensures
        a != b ==> text_lt_from(a, b, i) || text_lt_from(b, a, i),
    decreases a.len() - i,
{
    if i == a.len() && i == b.len() {
        assert(a =~= b);
    } else if i < a.len() && i < b.len() && a[i] == b[i] {
        lemma_text_lt_total(a, b, i + 1);
    } else if i < a.len() && i < b.len() {
        assert(a[i] < b[i] || b[i] < a[i]);
    }
}

/// The text order is a strict total order.
pub proof fn lemma_text_order(a: Seq<char>, b: Seq<char>, c: Seq<char>)
    ensures
        !text_lt(a, a),
        text_lt(a, b) ==> !text_lt(b, a),
        text_lt(a, b) && text_lt(b, c) ==> text_lt(a, c),
        a != b ==> text_lt(a, b) || text_lt(b, a),
{
    lemma_text_lt_irrefl(a, 0);
    lemma_text_lt_asym(a, b, 0);
    lemma_text_lt_trans(a, b, c, 0);
    lemma_text_lt_total(a, b, 0);
}

/// Three-way comparison of two strings in the order of `str`:
/// -1 when `a` sorts first, 0 when they are equal, 1 otherwise.
pub fn compare_text(a: &str, b: &str) -> (r: i8)
    ensures
        r == -1 <==> text_lt(a@, b@),
        r == 0 <==> a@ == b@,
        r == 1 <==> text_lt(b@, a@),
{
    proof {
        lemma_text_order(a@, b@, a@);
        lemma_text_lt_asym(a@, b@, 0);
    }
    let n = a.unicode_len();
    let m = b.unicode_len();
    let mut i: usize = 0;
    while i < n && i < m
        invariant
            n == a@.len(),
            m == b@.len(),
            i <= n,
            i <= m,
            forall|k: int| 0 <= k < i ==> a@[k] == b@[k],
            text_lt(a@, b@) == text_lt_from(a@, b@, i as int),
            text_lt(b@, a@) == text_lt_from(b@, a@, i as int),
        decreases n - i,
    {
        let x = a.get_char(i);
        let y = b.get_char(i);
        if x != y {
            if x < y {
                return -1;
            } else {
                return 1;
            }
        }
        i = i + 1;
    }
    if i < m {
        -1
    } else if i < n {
        1
    } else {
        proof {
            assert(a@ =~= b@);
        }
        0
    }
}

/// The Unicode `White_Space` characters, which `char::is_whitespace`,
/// `str::trim` and `str::split_whitespace` treat as blank.
pub open spec fn is_space(c: char) -> bool {
    ||| c == ' '
    ||| ('\u{9}' <= c && c <= '\u{d}')
    ||| c == '\u{85}'
    ||| c == '\u{a0}'
    ||| c == '\u{1680}'
    ||| ('\u{2000}' <= c && c <= '\u{200a}')
    ||| c == '\u{2028}'
    ||| c == '\u{2029}'
    ||| c == '\u{202f}'
    ||| c == '\u{205f}'
    ||| c == '\u{3000}'
}

/// Whether `c` is a Unicode white-space character.
pub fn is_space_char(c: char) -> (r: bool)
    ensures
        r == is_space(c),
{
    c == ' ' || ('\u{9}' <= c && c <= '\u{d}') || c == '\u{85}' || c == '\u{a0}' || c == '\u{1680}'
        || ('\u{2000}' <= c && c <= '\u{200a}') || c == '\u{2028}' || c == '\u{2029}' || c
        == '\u{202f}' || c == '\u{205f}' || c == '\u{3000}'
}

/// The index of the first non-blank character of `s` at or after `i`.
pub open spec fn skip_spaces(s: Seq<char>, i: int) -> int
    decreases s.len() - i,
{
    if 0 <= i < s.len() && is_space(s[i]) {
        skip_spaces(s, i + 1)
    } else {
        i
    }
}

/// One past the last non-blank character of `s[..j]`, not going below `lo`.
pub open spec fn back_spaces(s: Seq<char>, lo: int, j: int) -> int
    decreases j - lo,
{
    if lo < j && j <= s.len() && is_space(s[j - 1]) {
        back_spaces(s, lo, j - 1)
    } else {
        j
    }
}

/// `s` without its leading blanks.
pub open spec fn trim_start_spec(s: Seq<char>) -> Seq<char> {
    s.skip(skip_spaces(s, 0))
}

/// `s` without leading and trailing blanks.
pub open spec fn trim_spec(s: Seq<char>) -> Seq<char> {
    s.subrange(skip_spaces(s, 0), back_spaces(s, skip_spaces(s, 0), s.len() as int))
}

proof fn lemma_skip_spaces(s: Seq<char>, i: int)
    requires
        0 <= i <= s.len(),
    ensures
        i <= skip_spaces(s, i) <= s.len(),
    decreases s.len() - i,
{
    if i < s.len() && is_space(s[i]) {
        lemma_skip_spaces(s, i + 1);
    }
}

proof fn lemma_back_spaces(s: Seq<char>, lo: int, j: int)
    requires
        0 <= lo <= j <= s.len(),
    ensures
        lo <= back_spaces(s, lo, j) <= j,
    decreases j - lo,
{
    if lo < j && is_space(s[j - 1]) {
        lemma_back_spaces(s, lo, j - 1);
    }
}

/// The bounds of `s` without leading and trailing blanks.
pub fn trim_bounds(s: &Vec<char>) -> (r: (usize, usize))
    ensures
        r.0 == skip_spaces(s@, 0),
        r.1 == back_spaces(s@, r.0 as int, s@.len() as int),
        r.0 <= r.1 <= s@.len(),
{
    proof {
        lemma_skip_spaces(s@, 0);
    }
    let mut i: usize = 0;
    while i < s.len() && is_space_char(s[i])
        invariant
            i <= s@.len(),
            skip_spaces(s@, 0) == skip_spaces(s@, i as int),
        decreases s@.len() - i,
    {
        i = i + 1;
    }
    proof {
        lemma_back_spaces(s@, i as int, s@.len() as int);
    }
    let mut j: usize = s.len();
    while j > i && is_space_char(s[j - 1])
        invariant
            i <= j <= s@.len(),
            back_spaces(s@, i as int, s@.len() as int) == back_spaces(s@, i as int, j as int),
        decreases j,
    {
        j = j - 1;
    }
    (i, j)
}

/// `s` without leading and trailing white space, as `str::trim`.
pub fn trim(s: &str) -> (r: String)
    ensures
        r@ == trim_spec(s@),
{
    let v = chars_of(s);
    let (i, j) = trim_bounds(&v);
    string_of_range(&v, i, j)
}

/// `s` without leading white space, as `str::trim_start`.
pub fn trim_start(s: &str) -> (r: String)
    ensures
        r@ == trim_start_spec(s@),
{
    let v = chars_of(s);
    let (i, _j) = trim_bounds(&v);
    let r = string_of_range(&v, i, v.len());
    proof {
        assert(v@.subrange(i as int, v@.len() as int) =~= v@.skip(i as int));
    }
    r
}

/// The words of `s[i..]` separated by white space, given the word being
/// built and the words already finished.
pub open spec fn words_from(s: Seq<char>, i: int, cur: Seq<char>, acc: Seq<Seq<char>>) -> Seq<Seq<char>>
    decreases s.len() - i,
{
    if i < 0 || i >= s.len() {
        if cur.len() > 0 { acc.push(cur) } else { acc }
    } else if is_space(s[i]) {
        if cur.len() > 0 {
            words_from(s, i + 1, Seq::empty(), acc.push(cur))
        } else {
            words_from(s, i + 1, cur, acc)
        }
    } else {
        words_from(s, i + 1, cur.push(s[i]), acc)
    }
}

/// The white-space separated words of `s`, as `str::split_whitespace`.
pub open spec fn words(s: Seq<char>) -> Seq<Seq<char>> {
    words_from(s, 0, Seq::empty(), Seq::empty())
}

/// The white-space separated words of `s`.
pub fn split_whitespace(s: &str) -> (r: Vec<String>)
    ensures
        views(r@) == words(s@),
{
    let v = chars_of(s);
    let n = v.len();
    let mut result: Vec<String> = Vec::new();
    let mut current = String::new();
    let mut i: usize = 0;
    proof {
        assert(views(result@) =~= Seq::<Seq<char>>::empty());
    }
    while i < n
        invariant
            n == v@.len(),
            v@ == s@,
            i <= n,
            words(s@) == words_from(v@, i as int, current@, views(result@)),
        decreases n - i,
    {
        let c = v[i];
        if is_space_char(c) {
            if current.unicode_len() > 0 {
                let ghost prev = views(result@);
                let w = current.clone();
                result.push(w);
                current = String::new();
                proof {
                    assert(views(result@) =~= prev.push(w@));
                }
            }
        } else {
            push_char(&mut current, c);
        }
        i = i + 1;
    }
    if current.unicode_len() > 0 {
        let ghost prev = views(result@);
        let w = current.clone();
        result.push(w);
        proof {
            assert(views(result@) =~= prev.push(w@));
        }
    }
    result
}

/// `s` with every `from` replaced by `to`.
pub open spec fn replace_char_spec(s: Seq<char>, from: char, to: char) -> Seq<char> {
    s.map_values(|c: char| if c == from { to } else { c })
}

/// `s` with every `from` replaced by `to`, as `str::replace` with a
/// single-character pattern.
pub fn replace_char(s: &str, from: char, to: char) -> (r: String)
    ensures
        r@ == replace_char_spec(s@, from, to),
{
    let v = chars_of(s);
    let mut r = String::new();
    let mut i: usize = 0;
    while i < v.len()
        invariant
            v@ == s@,
            i <= v@.len(),
            r@ == replace_char_spec(s@, from, to).take(i as int),
        decreases v@.len() - i,
    {
        let c = v[i];
        if c == from {
            push_char(&mut r, to);
        } else {
            push_char(&mut r, c);
        }
        proof {
            assert(r@ =~= replace_char_spec(s@, from, to).take(i + 1));
        }
        i = i + 1;
    }
    proof {
        assert(replace_char_spec(s@, from, to).take(v@.len() as int) =~= replace_char_spec(s@, from, to));
    }
    r
}

/// Whether `c` is an ASCII decimal digit.
pub open spec fn is_digit(c: char) -> bool {
    48 <= (c as u32) <= 57
}

/// The value of the decimal digit `c`.
pub open spec fn digit_value(c: char) -> int {
    (c as u32) - 48
}

/// The decimal digit for `d`, between 0 and 9.
pub open spec fn digit_char(d: int) -> char {
    ((d + 48) as u32) as char
}

/// The decimal digits of `n`, without leading zeros.
pub open spec fn digits_text(n: nat) -> Seq<char>
    decreases n,
{
    if n < 10 {
        seq![digit_char(n as int)]
    } else {
        digits_text(n / 10).push(digit_char((n % 10) as int))
    }
}

/// An integer in decimal, with a `-` when negative.
pub open spec fn int_text(i: int) -> Seq<char> {
    if i < 0 {
        seq!['-'] + digits_text((-i) as nat)
    } else {
        digits_text(i as nat)
    }
}

fn push_digits(n: u64, s: &mut String)
    ensures
        final(s)@ == old(s)@ + digits_text(n as nat),
    decreases n,
{
    if n >= 10 {
        push_digits(n / 10, s);
    }
    let d: u8 = (n % 10) as u8;
    let c = (48u8 + d) as char;
    proof {
        assert(c == digit_char((n % 10) as int));
    }
    push_char(s, c);
    proof {
        if n >= 10 {
            assert(digits_text(n as nat) == digits_text((n / 10) as nat).push(digit_char((n % 10) as int)));
        }
    }
}

/// An integer written in decimal, as `i64`'s `to_string` writes it.
pub fn int_to_text(i: i64) -> (r: String)
    ensures
        r@ == int_text(i as int),
{
    let mut s = String::new();
    if i < 0 {
        push_char(&mut s, '-');
        let mag: u64 = if i == i64::MIN {
            9223372036854775808u64
        } else {
            (-i) as u64
        };
        push_digits(mag, &mut s);
    } else {
        push_digits(i as u64, &mut s);
    }
    s
}

/// The value of the decimal digits `s[..k]`.
pub open spec fn decimal_value(s: Seq<char>, k: int) -> int
    decreases k,
{
    if k <= 0 {
        0
    } else {
        decimal_value(s, k - 1) * 10 + digit_value(s[k - 1])
    }
}

/// `s` without one leading `+`.
pub open spec fn unsigned_part(s: Seq<char>) -> Seq<char> {
    if s.len() > 0 && s[0] == '+' { s.skip(1) } else { s }
}

/// Whether every character of `d` is a decimal digit.
pub open spec fn all_digits(d: Seq<char>) -> bool {
    forall|k: int| 0 <= k < d.len() ==> is_digit(#[trigger] d[k])
}

/// The digits of a number as `str::parse::<usize>` reads them: an optional
/// leading `+` followed by at least one digit.
pub open spec fn number_digits(s: Seq<char>) -> Option<Seq<char>> {
    let d = unsigned_part(s);
    if d.len() > 0 && all_digits(d) {
        Some(d)
    } else {
        None
    }
}

/// What `str::parse::<usize>` yields: the value when `s` is a number that
/// fits in `usize`, otherwise nothing.
pub open spec fn parse_usize_spec(s: Seq<char>) -> Option<usize> {
    match number_digits(s) {
        Some(d) => if decimal_value(d, d.len() as int) <= usize::MAX {
            Some(decimal_value(d, d.len() as int) as usize)
        } else {
            None
        },
        None => None,
    }
}

proof fn lemma_decimal_monotone(s: Seq<char>, k: int, m: int)
    requires
        0 <= k <= m <= s.len(),
        forall|j: int| 0 <= j < s.len() ==> is_digit(#[trigger] s[j]),
    ensures
        0 <= decimal_value(s, k) <= decimal_value(s, m),
    decreases m - k,
{
    if k < m {
        lemma_decimal_monotone(s, k, m - 1);
        assert(is_digit(s[m - 1]));
    } else {
        lemma_decimal_nonneg(s, k);
    }
}

proof fn lemma_decimal_nonneg(s: Seq<char>, k: int)
    requires
        0 <= k <= s.len(),
        forall|j: int| 0 <= j < s.len() ==> is_digit(#[trigger] s[j]),
    ensures
        0 <= decimal_value(s, k),
    decreases k,
{
    if k > 0 {
        lemma_decimal_nonneg(s, k - 1);
    }
}

/// Reads a decimal number as `str::parse::<usize>` does.
pub fn parse_usize(s: &str) -> (r: Option<usize>)
    ensures
        r == parse_usize_spec(s@),
{
    let v = chars_of(s);
    let start: usize = if v.len() > 0 && v[0] == '+' { 1 } else { 0 };
    let ghost d = unsigned_part(s@);
    proof {
        assert(d =~= v@.skip(start as int));
    }
    if start >= v.len() {
        return None;
    }
    let mut k: usize = start;
    while k < v.len()
        invariant
            start <= k <= v@.len(),
            d == v@.skip(start as int),
            forall|j: int| 0 <= j < k - start ==> is_digit(#[trigger] d[j]),
            d == unsigned_part(s@),
        decreases v@.len() - k,
    {
        let code = v[k] as u32;
        if !(code >= 48 && code <= 57) {
            proof {
                assert(d[k - start] == v@[k as int]);
                assert(!is_digit(d[k - start]));
                assert(!all_digits(d));
                assert(number_digits(s@).is_none());
            }
            return None;
        }
        k = k + 1;
    }
    proof {
        assert(number_digits(s@) == Some(d));
    }
    let mut value: usize = 0;
    let mut i: usize = start;
    while i < v.len()
        invariant
            start <= i <= v@.len(),
            d == v@.skip(start as int),
            forall|j: int| 0 <= j < d.len() ==> is_digit(#[trigger] d[j]),
            number_digits(s@) == Some(d),
            value == decimal_value(d, i - start),
        decreases v@.len() - i,
    {
        proof {
            assert(d[i - start] == v@[i as int]);
            assert(is_digit(d[i - start]));
        }
        let digit = (v[i] as u32) - 48;
        proof {
            lemma_decimal_monotone(d, i - start + 1, d.len() as int);
        }
        if value > (usize::MAX - digit as usize) / 10 {
            proof {
                assert(decimal_value(d, i - start + 1) == value * 10 + digit);
                assert(value * 10 + digit > usize::MAX) by (nonlinear_arith)
                    requires
                        value > (usize::MAX - digit as usize) / 10,
                        digit <= 9,
                ;
            }
            return None;
        }
        proof {
            assert(value * 10 + digit <= usize::MAX) by (nonlinear_arith)
                requires
                    value <= (usize::MAX - digit as usize) / 10,
                    digit <= 9,
            ;
        }
        value = value * 10 + digit as usize;
        i = i + 1;
    }
    Some(value)
}

/// The parts of `s[i..]` between occurrences of `sep`, given the part being
/// built and the parts already finished; empty parts are kept, as
/// `str::split` with a character pattern keeps them.
pub open spec fn sep_parts_from(s: Seq<char>, sep: char, i: int, cur: Seq<char>, acc: Seq<Seq<char>>) -> Seq<Seq<char>>
    decreases s.len() - i,
{
    if i < 0 || i >= s.len() {
        acc.push(cur)
    } else if s[i] == sep {
        sep_parts_from(s, sep, i + 1, Seq::empty(), acc.push(cur))
    } else {
        sep_parts_from(s, sep, i + 1, cur.push(s[i]), acc)
    }
}

/// The parts of `s` between occurrences of `sep`.
pub open spec fn sep_parts(s: Seq<char>, sep: char) -> Seq<Seq<char>> {
    sep_parts_from(s, sep, 0, Seq::empty(), Seq::empty())
}

proof fn lemma_sep_parts_from_len(s: Seq<char>, sep: char, i: int, cur: Seq<char>, acc: Seq<Seq<char>>)
    requires
        0 <= i,
    ensures
        sep_parts_from(s, sep, i, cur, acc).len() > acc.len(),
        sep_parts_from(s, sep, i, cur, acc).take(acc.len() as int) == acc,
    decreases s.len() - i,
{
    if i < s.len() {
        if s[i] == sep {
            lemma_sep_parts_from_len(s, sep, i + 1, Seq::empty(), acc.push(cur));
            let r = sep_parts_from(s, sep, i + 1, Seq::empty(), acc.push(cur));
            assert(r.take(acc.len() as int) =~= r.take(acc.len() + 1int).take(acc.len() as int));
        } else {
            lemma_sep_parts_from_len(s, sep, i + 1, cur.push(s[i]), acc);
        }
    } else {
        assert(acc.push(cur).take(acc.len() as int) =~= acc);
    }
}

proof fn lemma_sep_parts_from_no_sep(s: Seq<char>, sep: char, i: int, cur: Seq<char>, acc: Seq<Seq<char>>)
    requires
        0 <= i <= s.len(),
        !s.skip(i).contains(sep),
    ensures
        sep_parts_from(s, sep, i, cur, acc) == acc.push(cur + s.skip(i)),
    decreases s.len() - i,
{
    if i < s.len() {
        assert(s.skip(i)[0] == s[i]);
        assert forall|k: int| 0 <= k < s.skip(i + 1).len() implies #[trigger] s.skip(i + 1)[k] != sep by {
            assert(s.skip(i + 1)[k] == s.skip(i)[k + 1]);
        }
        lemma_sep_parts_from_no_sep(s, sep, i + 1, cur.push(s[i]), acc);
        assert(cur.push(s[i]) + s.skip(i + 1) =~= cur + s.skip(i));
    } else {
        assert(cur + s.skip(i) =~= cur);
    }
}

/// A text without the separator is a single part: itself.
pub proof fn lemma_sep_parts_single(s: Seq<char>, sep: char)
    requires
        !s.contains(sep),
    ensures
        sep_parts(s, sep) == seq![s],
{
    assert(s.skip(0) =~= s);
    lemma_sep_parts_from_no_sep(s, sep, 0, Seq::empty(), Seq::empty());
    assert(Seq::<char>::empty() + s =~= s);
    assert(Seq::<Seq<char>>::empty().push(s) =~= seq![s]);
}

/// The parts of `s` between occurrences of `sep`, empty ones included;
/// there is always at least one.
pub fn split_on(s: &str, sep: char) -> (r: Vec<String>)
    ensures
        views(r@) == sep_parts(s@, sep),
        r@.len() >= 1,
{
    let n = s.unicode_len();
    let mut parts: Vec<String> = Vec::new();
    let mut cur = String::new();
    let mut i: usize = 0;
    proof {
        assert(views(parts@) =~= Seq::<Seq<char>>::empty());
    }
    while i < n
        invariant
            n == s@.len(),
            i <= n,
            sep_parts(s@, sep) == sep_parts_from(s@, sep, i as int, cur@, views(parts@)),
        decreases n - i,
    {
        let c = s.get_char(i);
        if c == sep {
            let ghost prev = views(parts@);
            let done = cur;
            parts.push(done);
            cur = String::new();
            proof {
                assert(views(parts@) =~= prev.push(done@));
            }
        } else {
            push_char(&mut cur, c);
        }
        i = i + 1;
    }
    let ghost prev = views(parts@);
    let last = cur;
    parts.push(last);
    proof {
        assert(views(parts@) =~= prev.push(last@));
        lemma_sep_parts_from_len(s@, sep, 0, Seq::empty(), Seq::empty());
    }
    parts
}

/// The strings of `parts` joined with `sep` between each two.
pub open spec fn joined(parts: Seq<Seq<char>>, sep: Seq<char>) -> Seq<char>
    decreases parts.len(),
{
    if parts.len() == 0 {
        Seq::empty()
    } else if parts.len() == 1 {
        parts[0]
    } else {
        joined(parts.drop_last(), sep) + sep + parts.last()
    }
}

/// The strings of `parts` joined with `sep` between each two.
pub fn join(parts: &Vec<String>, sep: &str) -> (r: String)
    ensures
        r@ == joined(views(parts@), sep@),
{
    let ghost ps = views(parts@);
    let mut r = String::new();
    let mut i: usize = 0;
    while i < parts.len()
        invariant
            ps == views(parts@),
            i <= ps.len(),
            r@ == joined(ps.take(i as int), sep@),
        decreases ps.len() - i,
    {
        proof {
            assert(ps.take(i + 1).drop_last() =~= ps.take(i as int));
        }
        if i > 0 {
            r.append(sep);
        }
        r.append(parts[i].as_str());
        proof {
            if i == 0 {
                assert(r@ =~= ps.take(1)[0]);
            } else {
                assert(r@ =~= joined(ps.take(i as int), sep@) + sep@ + ps.take(i + 1).last());
            }
        }
        i = i + 1;
    }
    proof {
        assert(ps.take(ps.len() as int) =~= ps);
    }
    r
}

} // verus!
