//! The rules of a project template: which blocks are shown and which files
//! are left out, each decided by a boolean rule over the user's answers,
//! and the defaults and mutually exclusive toggles the answers must obey.
use vstd::prelude::*;
use crate::answers::Answers;
use crate::text::{concat, is_space, is_space_char, join, joined, owned, string_of_range, views};
use crate::toml_model::{
    toml_document, toml_document_of,
    entry_get, get_entry, get_str, get_tables, item_str, item_tables, lemma_read_all_err, read_all, TomlItem,
};

verus! {

/// A block of the template shown when its rule holds.
#[derive(Debug)]
pub struct DisplayRule {
    pub name: String,
    pub rule: String,
}

/// A generated file removed when its rule holds.
#[derive(Debug)]
pub struct HideFileRule {
    pub file: String,
    pub rule: String,
}

/// A generated directory removed when its rule holds.
#[derive(Debug)]
pub struct HideDirRule {
    pub dir: String,
    pub rule: String,
}

/// A question of the template and its default answer.
#[derive(Debug)]
pub struct UserRule {
    pub name: String,
    pub default: Option<String>,
}

/// Toggles of which at most one may be on, and why.
#[derive(Debug)]
pub struct UserMutex {
    pub mutex: Vec<String>,
    pub reason: String,
}

/// Everything a template's rule file declares.
#[derive(Debug)]
pub struct TemplateRules {
    pub users: Vec<UserRule>,
    pub mutexes: Vec<UserMutex>,
    pub display: Vec<DisplayRule>,
    pub hide_files: Vec<HideFileRule>,
    pub hide_dirs: Vec<HideDirRule>,
}

impl Default for TemplateRules {
    fn default() -> (r: TemplateRules)
        ensures
            r.users@.len() == 0,
            r.mutexes@.len() == 0,
            r.display@.len() == 0,
            r.hide_files@.len() == 0,
            r.hide_dirs@.len() == 0,
    {
        TemplateRules {
            users: Vec::new(),
            mutexes: Vec::new(),
            display: Vec::new(),
            hide_files: Vec::new(),
            hide_dirs: Vec::new(),
        }
    }
}

/// Whether the answer named `key` counts as on: it is present, not empty
/// and not `false`.
pub open spec fn truthy(m: Map<Seq<char>, Seq<char>>, key: Seq<char>) -> bool {
    m.contains_key(key) && m[key].len() > 0 && m[key] != "false"@
}

/// Whether the answer named `key` counts as on.
pub fn is_truthy(key: &str, answers: &Answers) -> (r: bool)
    ensures
        r == truthy(answers@, key@),
{
    match answers.get(key) {
        Some(v) => v.unicode_len() > 0 && !crate::text::str_eq(v.as_str(), "false"),
        None => false,
    }
}

/// The answers after the questions `users[..k]` with a default have been
/// given it where they had no answer.
pub open spec fn resolved(m: Map<Seq<char>, Seq<char>>, users: Seq<UserRule>, k: int) -> Map<Seq<char>, Seq<char>>
    decreases k,
{
    if k <= 0 {
        m
    } else {
        let prev = resolved(m, users, k - 1);
        match users[k - 1].default {
            Some(d) => if prev.contains_key(users[k - 1].name@) {
                prev
            } else {
                prev.insert(users[k - 1].name@, d@)
            },
            None => prev,
        }
    }
}

/// The answers completed with the declared defaults: a question without an
/// answer takes its default; an answer given always wins.
pub fn resolve_answers(answers: &Answers, rules: &TemplateRules) -> (r: Answers)
    ensures
        r@ == resolved(answers@, rules.users@, rules.users@.len() as int),
{
    let mut merged = answers.clone();
    let mut k: usize = 0;
    while k < rules.users.len()
        invariant
            k <= rules.users@.len(),
            merged@ == resolved(answers@, rules.users@, k as int),
        decreases rules.users@.len() - k,
    {
        let user = &rules.users[k];
        match &user.default {
            Some(d) => {
                if !merged.contains_key(user.name.as_str()) {
                    merged.insert(user.name.clone(), d.clone());
                }
            },
            None => {},
        }
        k = k + 1;
    }
    merged
}

proof fn lemma_resolved(m: Map<Seq<char>, Seq<char>>, users: Seq<UserRule>, k: int)
    requires
        0 <= k <= users.len(),
    ensures
        forall|key: Seq<char>| #[trigger] m.contains_key(key) ==> resolved(m, users, k).contains_key(key)
            && resolved(m, users, k)[key] == m[key],
        forall|j: int| 0 <= j < k && users[j].default is Some ==> resolved(m, users, k).contains_key(
            #[trigger] users[j].name@,
        ),
        (forall|j: int| 0 <= j < k && users[j].default is Some ==> m.contains_key(#[trigger] users[j].name@))
            ==> resolved(m, users, k) == m,
    decreases k,
{
    if k > 0 {
        lemma_resolved(m, users, k - 1);
    }
}

/// An answer that was given is never replaced by a default.
pub proof fn law_given_answers_win(m: Map<Seq<char>, Seq<char>>, users: Seq<UserRule>, key: Seq<char>)
    requires
        m.contains_key(key),
    ensures
        resolved(m, users, users.len() as int).contains_key(key),
        resolved(m, users, users.len() as int)[key] == m[key],
{
    lemma_resolved(m, users, users.len() as int);
}

/// After resolution every question that declares a default has an answer.
pub proof fn law_defaults_fill_gaps(m: Map<Seq<char>, Seq<char>>, users: Seq<UserRule>, j: int)
    requires
        0 <= j < users.len(),
        users[j].default is Some,
    ensures
        resolved(m, users, users.len() as int).contains_key(users[j].name@),
{
    lemma_resolved(m, users, users.len() as int);
}

/// Resolving answers that were already resolved changes nothing.
pub proof fn law_resolve_idempotent(m: Map<Seq<char>, Seq<char>>, users: Seq<UserRule>)
    ensures
        resolved(resolved(m, users, users.len() as int), users, users.len() as int) == resolved(
            m,
            users,
            users.len() as int,
        ),
{
    let n = users.len() as int;
    lemma_resolved(m, users, n);
    lemma_resolved(resolved(m, users, n), users, n);
}

/// The keys of `keys[..k]` whose answers are on, in order.
pub open spec fn enabled_keys(keys: Seq<Seq<char>>, m: Map<Seq<char>, Seq<char>>, k: int) -> Seq<Seq<char>>
    decreases k,
{
    if k <= 0 {
        Seq::empty()
    } else if truthy(m, keys[k - 1]) {
        enabled_keys(keys, m, k - 1).push(keys[k - 1])
    } else {
        enabled_keys(keys, m, k - 1)
    }
}

/// The keys of a group whose answers are on, in order.
pub open spec fn group_enabled(g: UserMutex, m: Map<Seq<char>, Seq<char>>) -> Seq<Seq<char>> {
    enabled_keys(views(g.mutex@), m, g.mutex@.len() as int)
}

/// The index of the first of `groups[..k]` with more than one toggle on,
/// or -1.
pub open spec fn first_violation(groups: Seq<UserMutex>, m: Map<Seq<char>, Seq<char>>, k: int) -> int
    decreases k,
{
    if k <= 0 {
        -1
    } else if first_violation(groups, m, k - 1) != -1 {
        first_violation(groups, m, k - 1)
    } else if group_enabled(groups[k - 1], m).len() > 1 {
        k - 1
    } else {
        -1
    }
}

proof fn lemma_first_violation(groups: Seq<UserMutex>, m: Map<Seq<char>, Seq<char>>, k: int)
    requires
        0 <= k <= groups.len(),
    ensures
        -1 <= first_violation(groups, m, k) < k,
        first_violation(groups, m, k) == -1 ==> forall|j: int| 0 <= j < k ==> group_enabled(#[trigger] groups[j], m).len() <= 1,
    decreases k,
{
    if k > 0 {
        lemma_first_violation(groups, m, k - 1);
    }
}

/// The toggles pass the check exactly when no group has more than one on.
pub proof fn law_no_violation_iff_groups_ok(groups: Seq<UserMutex>, m: Map<Seq<char>, Seq<char>>)
    ensures
        first_violation(groups, m, groups.len() as int) == -1 <==> forall|j: int|
            0 <= j < groups.len() ==> group_enabled(#[trigger] groups[j], m).len() <= 1,
{
    lemma_first_violation(groups, m, groups.len() as int);
    if forall|j: int| 0 <= j < groups.len() ==> group_enabled(#[trigger] groups[j], m).len() <= 1 {
        lemma_no_violation(groups, m, groups.len() as int);
    }
}

proof fn lemma_no_violation(groups: Seq<UserMutex>, m: Map<Seq<char>, Seq<char>>, k: int)
    requires
        0 <= k <= groups.len(),
        forall|j: int| 0 <= j < k ==> group_enabled(#[trigger] groups[j], m).len() <= 1,
    ensures
        first_violation(groups, m, k) == -1,
    decreases k,
{
    if k > 0 {
        lemma_no_violation(groups, m, k - 1);
    }
}

/// Checks that no group of mutually exclusive toggles has more than one
/// on; the first group that does is reported with its reason and the
/// toggles that are on.
pub fn validate_mutexes(answers: &Answers, rules: &TemplateRules) -> (r: Result<(), String>)
    ensures
        ({
            let g = first_violation(rules.mutexes@, answers@, rules.mutexes@.len() as int);
            &&& g == -1 ==> r is Ok
            &&& g != -1 ==> (r matches Err(msg) && msg@ == rules.mutexes@[g].reason@ + " (enabled: "@ + joined(
                group_enabled(rules.mutexes@[g], answers@),
                ", "@,
            ) + ")"@)
        }),
{
    let ghost gs = rules.mutexes@;
    let mut k: usize = 0;
    while k < rules.mutexes.len()
        invariant
            gs == rules.mutexes@,
            k <= gs.len(),
            first_violation(gs, answers@, k as int) == -1,
        decreases gs.len() - k,
    {
        let group = &rules.mutexes[k];
        let ghost keys = views(group.mutex@);
        let mut enabled: Vec<String> = Vec::new();
        let mut j: usize = 0;
        while j < group.mutex.len()
            invariant
                keys == views(group.mutex@),
                j <= keys.len(),
                views(enabled@) == enabled_keys(keys, answers@, j as int),
            decreases keys.len() - j,
        {
            if is_truthy(group.mutex[j].as_str(), answers) {
                let ghost prev = views(enabled@);
                enabled.push(group.mutex[j].clone());
                proof {
                    assert(views(enabled@) =~= prev.push(keys[j as int]));
                }
            }
            j = j + 1;
        }
        if enabled.len() > 1 {
            let list = join(&enabled, ", ");
            let head = concat(group.reason.as_str(), " (enabled: ");
            let body = concat(head.as_str(), list.as_str());
            let msg = concat(body.as_str(), ")");
            proof {
                assert(first_violation(gs, answers@, k + 1) == k);
                lemma_first_violation(gs, answers@, gs.len() as int);
                lemma_first_violation_stays(gs, answers@, k + 1, gs.len() as int);
            }
            return Err(msg);
        }
        k = k + 1;
    }
    Ok(())
}

proof fn lemma_first_violation_stays(groups: Seq<UserMutex>, m: Map<Seq<char>, Seq<char>>, k: int, n: int)
    requires
        0 <= k <= n <= groups.len(),
        first_violation(groups, m, k) != -1,
    ensures
        first_violation(groups, m, n) == first_violation(groups, m, k),
    decreases n - k,
{
    if k < n {
        lemma_first_violation_stays(groups, m, k, n - 1);
    }
}

// ---------------------------------------------------------------------
// Rules: `a`, `!a`, `a == b`, `a != b`, `&&`, `||` and parentheses.
// ---------------------------------------------------------------------

/// Whether `char::is_alphanumeric` holds of `c`.
pub uninterp spec fn alphanumeric(c: char) -> bool;

/// Whether `c` is an ASCII letter or digit.
pub open spec fn ascii_alphanumeric(c: char) -> bool {
    ('a' <= c && c <= 'z') || ('A' <= c && c <= 'Z') || ('0' <= c && c <= '9')
}

/// Whether `c` is alphabetic or numeric, through `char::is_alphanumeric`.
/// The contract names the result, which depends on `c` alone, and states
/// what the documentation gives for ASCII: the letters and the digits.
#[verifier::external_body]
fn is_alphanumeric(c: char) -> (r: bool)
    ensures
        r == alphanumeric(c),
        (c as u32) < 128 ==> r == ascii_alphanumeric(c),
{
    c.is_alphanumeric()
}

/// Whether `c` may appear in a name: alphanumeric (for ASCII, a letter or
/// a digit), `_` or `-`.
pub open spec fn is_ident_char(c: char) -> bool {
    (if (c as u32) < 128 {
        ascii_alphanumeric(c)
    } else {
        alphanumeric(c)
    }) || c == '_' || c == '-'
}

/// The first position at or after `p` that is not white space.
pub open spec fn skip_ws(cs: Seq<char>, p: int) -> int
    decreases cs.len() - p,
{
    if 0 <= p < cs.len() && is_space(cs[p]) {
        skip_ws(cs, p + 1)
    } else {
        p
    }
}

/// The end of the name starting at `i`.
pub open spec fn ident_end(cs: Seq<char>, i: int) -> int
    decreases cs.len() - i,
{
    if 0 <= i < cs.len() && is_ident_char(cs[i]) {
        ident_end(cs, i + 1)
    } else {
        i
    }
}

/// Skipping white space, whether `c` comes next, and the position after it
/// (or after the white space when it does not come).
pub open spec fn eat(cs: Seq<char>, p: int, c: char) -> (bool, int) {
    let q = skip_ws(cs, p);
    if 0 <= q < cs.len() && cs[q] == c {
        (true, q + 1)
    } else {
        (false, q)
    }
}

/// Skipping white space, the name that comes next and the position after
/// it; none when no name comes.
pub open spec fn ident(cs: Seq<char>, p: int) -> Option<(Seq<char>, int)> {
    let s = skip_ws(cs, p);
    let e = ident_end(cs, s);
    if e > s {
        Some((cs.subrange(s, e), e))
    } else {
        None
    }
}

/// Whether the answer named `k` is exactly `v`.
pub open spec fn answer_is(m: Map<Seq<char>, Seq<char>>, k: Seq<char>, v: Seq<char>) -> bool {
    m.contains_key(k) && m[k] == v
}

/// A primary: a parenthesised rule (the closing parenthesis may be left
/// out), `a == b`, `a != b`, or a name that is on or off.
pub open spec fn rule_primary(cs: Seq<char>, m: Map<Seq<char>, Seq<char>>, p: int) -> Option<(bool, int)>
    decreases cs.len() - p, 0int,
{
    let (open, q) = eat(cs, p, '(');
    if open {
        if q <= p || q > cs.len() {
            None
        } else {
            match rule_or(cs, m, q) {
                None => None,
                Some((v, r)) => Some((v, eat(cs, r, ')').1)),
            }
        }
    } else {
        match ident(cs, q) {
            None => None,
            Some((id, e)) => {
                let (e1, q1) = eat(cs, e, '=');
                let (e2, q2) = if e1 {
                    eat(cs, q1, '=')
                } else {
                    (false, q1)
                };
                if e1 && e2 {
                    match ident(cs, q2) {
                        None => None,
                        Some((other, r)) => Some((answer_is(m, id, other), r)),
                    }
                } else {
                    let (n1, r1) = eat(cs, q2, '!');
                    let (n2, r2) = if n1 {
                        eat(cs, r1, '=')
                    } else {
                        (false, r1)
                    };
                    if n1 && n2 {
                        match ident(cs, r2) {
                            None => None,
                            Some((other, r)) => Some((!answer_is(m, id, other), r)),
                        }
                    } else {
                        Some((truthy(m, id), r2))
                    }
                }
            },
        }
    }
}

/// A primary, or `!` before a unary rule.
pub open spec fn rule_unary(cs: Seq<char>, m: Map<Seq<char>, Seq<char>>, p: int) -> Option<(bool, int)>
    decreases cs.len() - p, 1int,
{
    let (not, q) = eat(cs, p, '!');
    if q < p || q > cs.len() {
        None
    } else if not {
        if q == p {
            None
        } else {
            match rule_unary(cs, m, q) {
                None => None,
                Some((v, r)) => Some((!v, r)),
            }
        }
    } else {
        rule_primary(cs, m, q)
    }
}

/// The rest of a conjunction whose value so far is `v`.
pub open spec fn rule_and_tail(cs: Seq<char>, m: Map<Seq<char>, Seq<char>>, p: int, v: bool) -> Option<(bool, int)>
    decreases cs.len() - p, 2int,
{
    let (a1, q1) = eat(cs, p, '&');
    let (a2, q2) = if a1 {
        eat(cs, q1, '&')
    } else {
        (false, q1)
    };
    if a1 && a2 {
        if q2 <= p || q2 > cs.len() {
            None
        } else {
            match rule_unary(cs, m, q2) {
                None => None,
                Some((r, q3)) => if q3 < q2 || q3 > cs.len() {
                    None
                } else {
                    rule_and_tail(cs, m, q3, v && r)
                },
            }
        }
    } else {
        Some((v, q2))
    }
}

/// Unary rules joined by `&&`.
pub open spec fn rule_and(cs: Seq<char>, m: Map<Seq<char>, Seq<char>>, p: int) -> Option<(bool, int)>
    decreases cs.len() - p, 3int,
{
    match rule_unary(cs, m, p) {
        None => None,
        Some((v, q)) => if q < p || q > cs.len() {
            None
        } else {
            rule_and_tail(cs, m, q, v)
        },
    }
}

/// The rest of a disjunction whose value so far is `v`.
pub open spec fn rule_or_tail(cs: Seq<char>, m: Map<Seq<char>, Seq<char>>, p: int, v: bool) -> Option<(bool, int)>
    decreases cs.len() - p, 4int,
{
    let (o1, q1) = eat(cs, p, '|');
    let (o2, q2) = if o1 {
        eat(cs, q1, '|')
    } else {
        (false, q1)
    };
    if o1 && o2 {
        if q2 <= p || q2 > cs.len() {
            None
        } else {
            match rule_and(cs, m, q2) {
                None => None,
                Some((r, q3)) => if q3 < q2 || q3 > cs.len() {
                    None
                } else {
                    rule_or_tail(cs, m, q3, v || r)
                },
            }
        }
    } else {
        Some((v, q2))
    }
}

/// Conjunctions joined by `||`.
pub open spec fn rule_or(cs: Seq<char>, m: Map<Seq<char>, Seq<char>>, p: int) -> Option<(bool, int)>
    decreases cs.len() - p, 5int,
{
    match rule_and(cs, m, p) {
        None => None,
        Some((v, q)) => if q < p || q > cs.len() {
            None
        } else {
            rule_or_tail(cs, m, q, v)
        },
    }
}

/// The value of the rule `cs` over the answers `m`: false when the rule
/// does not parse or does not end where the parse ends.
pub open spec fn rule_value(cs: Seq<char>, m: Map<Seq<char>, Seq<char>>) -> bool {
    match rule_or(cs, m, 0) {
        None => false,
        Some((v, p)) => skip_ws(cs, p) == cs.len() && v,
    }
}

/// Whether `c` is a character of a plain name: an ASCII letter or digit,
/// `_` or `-`.
pub open spec fn is_name_char(c: char) -> bool {
    ascii_alphanumeric(c) || c == '_' || c == '-'
}

/// Whether `a` is a plain, non-empty name.
pub open spec fn is_plain_name(a: Seq<char>) -> bool {
    a.len() > 0 && forall|k: int| 0 <= k < a.len() ==> is_name_char(#[trigger] a[k])
}

proof fn lemma_ident_end_run(cs: Seq<char>, i: int, e: int)
    requires
        0 <= i <= e <= cs.len(),
        forall|k: int| i <= k < e ==> is_name_char(#[trigger] cs[k]),
        e == cs.len() || !is_ident_char(cs[e]),
    ensures
        ident_end(cs, i) == e,
    decreases e - i,
{
    if i < e {
        assert(is_name_char(cs[i]));
        assert(is_ident_char(cs[i]));
        lemma_ident_end_run(cs, i + 1, e);
    }
}

/// The value of `a || b` for two plain names is the logical or of their
/// values: true exactly when one of the answers named `a` and `b` is on
/// (so in particular when both are).
pub proof fn law_or_is_logical_or(a: Seq<char>, b: Seq<char>, m: Map<Seq<char>, Seq<char>>)
    requires
        is_plain_name(a),
        is_plain_name(b),
    ensures
        rule_value(a + " || "@ + b, m) == (truthy(m, a) || truthy(m, b)),
{
    reveal_strlit(" || ");
    let cs = a + " || "@ + b;
    let la = a.len() as int;
    let n = cs.len() as int;
    assert(n == la + 4 + b.len());
    assert(cs[la] == ' ' && cs[la + 1] == '|' && cs[la + 2] == '|' && cs[la + 3] == ' ');
    assert forall|k: int| 0 <= k < la implies is_name_char(#[trigger] cs[k]) by {
        assert(cs[k] == a[k]);
    }
    assert forall|k: int| la + 4 <= k < n implies is_name_char(#[trigger] cs[k]) by {
        assert(cs[k] == b[k - la - 4]);
    }
    assert(cs.subrange(0, la) =~= a);
    assert(cs.subrange(la + 4, n) =~= b);
    assert(is_name_char(cs[0]));
    assert(is_name_char(cs[la + 4]));
    // the first name
    assert(skip_ws(cs, 0) == 0);
    assert(eat(cs, 0, '!') == (false, 0int));
    assert(eat(cs, 0, '(') == (false, 0int));
    assert(!is_ident_char(' '));
    lemma_ident_end_run(cs, 0, la);
    assert(ident(cs, 0) == Some((a, la)));
    assert(skip_ws(cs, la + 1) == la + 1);
    assert(skip_ws(cs, la) == la + 1);
    assert(eat(cs, la, '=') == (false, la + 1));
    assert(eat(cs, la + 1, '!') == (false, la + 1));
    assert(rule_primary(cs, m, 0) == Some((truthy(m, a), la + 1)));
    assert(rule_unary(cs, m, 0) == Some((truthy(m, a), la + 1)));
    assert(eat(cs, la + 1, '&') == (false, la + 1));
    assert(rule_and_tail(cs, m, la + 1, truthy(m, a)) == Some((truthy(m, a), la + 1)));
    assert(rule_and(cs, m, 0) == Some((truthy(m, a), la + 1)));
    // the operator
    assert(eat(cs, la + 1, '|') == (true, la + 2));
    assert(skip_ws(cs, la + 2) == la + 2);
    assert(eat(cs, la + 2, '|') == (true, la + 3));
    // the second name
    assert(skip_ws(cs, la + 4) == la + 4);
    assert(skip_ws(cs, la + 3) == la + 4);
    assert(eat(cs, la + 3, '!') == (false, la + 4));
    assert(eat(cs, la + 4, '(') == (false, la + 4));
    lemma_ident_end_run(cs, la + 4, n);
    assert(ident(cs, la + 4) == Some((b, n)));
    assert(skip_ws(cs, n) == n);
    assert(eat(cs, n, '=') == (false, n));
    assert(eat(cs, n, '!') == (false, n));
    assert(rule_primary(cs, m, la + 4) == Some((truthy(m, b), n)));
    assert(rule_unary(cs, m, la + 3) == Some((truthy(m, b), n)));
    assert(eat(cs, n, '&') == (false, n));
    assert(rule_and_tail(cs, m, n, truthy(m, b)) == Some((truthy(m, b), n)));
    assert(rule_and(cs, m, la + 3) == Some((truthy(m, b), n)));
    assert(eat(cs, n, '|') == (false, n));
    let v = truthy(m, a) || truthy(m, b);
    assert(rule_or_tail(cs, m, n, v) == Some((v, n)));
    assert(rule_or_tail(cs, m, la + 1, truthy(m, a)) == Some((v, n)));
    assert(rule_or(cs, m, 0) == Some((v, n)));
}

/// The value of `a && b` for two plain names is the logical and of their
/// values: true exactly when both answers named `a` and `b` are on.
pub proof fn law_and_is_logical_and(a: Seq<char>, b: Seq<char>, m: Map<Seq<char>, Seq<char>>)
    requires
        is_plain_name(a),
        is_plain_name(b),
    ensures
        rule_value(a + " && "@ + b, m) == (truthy(m, a) && truthy(m, b)),
{
    reveal_strlit(" && ");
    let cs = a + " && "@ + b;
    let la = a.len() as int;
    let n = cs.len() as int;
    assert(n == la + 4 + b.len());
    assert(cs[la] == ' ' && cs[la + 1] == '&' && cs[la + 2] == '&' && cs[la + 3] == ' ');
    assert forall|k: int| 0 <= k < la implies is_name_char(#[trigger] cs[k]) by {
        assert(cs[k] == a[k]);
    }
    assert forall|k: int| la + 4 <= k < n implies is_name_char(#[trigger] cs[k]) by {
        assert(cs[k] == b[k - la - 4]);
    }
    assert(cs.subrange(0, la) =~= a);
    assert(cs.subrange(la + 4, n) =~= b);
    assert(is_name_char(cs[0]));
    assert(is_name_char(cs[la + 4]));
    // the first name
    assert(skip_ws(cs, 0) == 0);
    assert(eat(cs, 0, '!') == (false, 0int));
    assert(eat(cs, 0, '(') == (false, 0int));
    assert(!is_ident_char(' '));
    lemma_ident_end_run(cs, 0, la);
    assert(ident(cs, 0) == Some((a, la)));
    assert(skip_ws(cs, la + 1) == la + 1);
    assert(skip_ws(cs, la) == la + 1);
    assert(eat(cs, la, '=') == (false, la + 1));
    assert(eat(cs, la + 1, '!') == (false, la + 1));
    assert(rule_primary(cs, m, 0) == Some((truthy(m, a), la + 1)));
    assert(rule_unary(cs, m, 0) == Some((truthy(m, a), la + 1)));
    // the operator
    assert(eat(cs, la + 1, '&') == (true, la + 2));
    assert(skip_ws(cs, la + 2) == la + 2);
    assert(eat(cs, la + 2, '&') == (true, la + 3));
    // the second name
    assert(skip_ws(cs, la + 4) == la + 4);
    assert(skip_ws(cs, la + 3) == la + 4);
    assert(eat(cs, la + 3, '!') == (false, la + 4));
    assert(eat(cs, la + 4, '(') == (false, la + 4));
    lemma_ident_end_run(cs, la + 4, n);
    assert(ident(cs, la + 4) == Some((b, n)));
    assert(skip_ws(cs, n) == n);
    assert(eat(cs, n, '=') == (false, n));
    assert(eat(cs, n, '!') == (false, n));
    assert(rule_primary(cs, m, la + 4) == Some((truthy(m, b), n)));
    assert(rule_unary(cs, m, la + 3) == Some((truthy(m, b), n)));
    let v = truthy(m, a) && truthy(m, b);
    assert(eat(cs, n, '&') == (false, n));
    assert(rule_and_tail(cs, m, n, v) == Some((v, n)));
    assert(rule_and_tail(cs, m, la + 1, truthy(m, a)) == Some((v, n)));
    assert(rule_and(cs, m, 0) == Some((v, n)));
    assert(eat(cs, n, '|') == (false, n));
    assert(rule_or_tail(cs, m, n, v) == Some((v, n)));
    assert(rule_or(cs, m, 0) == Some((v, n)));
}

proof fn lemma_skip_ws(cs: Seq<char>, p: int)
    requires
        0 <= p <= cs.len(),
    ensures
        p <= skip_ws(cs, p) <= cs.len(),
    decreases cs.len() - p,
{
    if p < cs.len() && is_space(cs[p]) {
        lemma_skip_ws(cs, p + 1);
    }
}

proof fn lemma_ident_end(cs: Seq<char>, i: int)
    requires
        0 <= i <= cs.len(),
    ensures
        i <= ident_end(cs, i) <= cs.len(),
    decreases cs.len() - i,
{
    if i < cs.len() && is_ident_char(cs[i]) {
        lemma_ident_end(cs, i + 1);
    }
}

proof fn lemma_eat(cs: Seq<char>, p: int, c: char)
    requires
        0 <= p <= cs.len(),
    ensures
        p <= eat(cs, p, c).1 <= cs.len(),
        eat(cs, p, c).0 ==> p < eat(cs, p, c).1,
{
    lemma_skip_ws(cs, p);
}

proof fn lemma_ident(cs: Seq<char>, p: int)
    requires
        0 <= p <= cs.len(),
    ensures
        ident(cs, p) matches Some((_, e)) ==> p < e <= cs.len(),
{
    lemma_skip_ws(cs, p);
    lemma_ident_end(cs, skip_ws(cs, p));
}

/// A rule being read: its characters and the position reached.
struct RuleParser {
    chars: Vec<char>,
    pos: usize,
}

impl RuleParser {
    /// A reader at the start of `rule`.
    fn new(rule: &str) -> (r: RuleParser)
        ensures
            r.chars@ == rule@,
            r.pos == 0,
    {
        RuleParser { chars: crate::text::chars_of(rule), pos: 0 }
    }

    /// Moves past white space.
    fn skip_ws(&mut self)
        requires
            old(self).pos <= old(self).chars@.len(),
        ensures
            final(self).chars == old(self).chars,
            final(self).pos == skip_ws(old(self).chars@, old(self).pos as int),
    {
        proof {
            lemma_skip_ws(self.chars@, self.pos as int);
        }
        while self.pos < self.chars.len() && is_space_char(self.chars[self.pos])
            invariant
                self.chars == old(self).chars,
                old(self).pos <= self.pos <= self.chars@.len(),
                skip_ws(self.chars@, old(self).pos as int) == skip_ws(self.chars@, self.pos as int),
            decreases self.chars@.len() - self.pos,
        {
            self.pos = self.pos + 1;
        }
    }

    /// Moves past white space and, if `c` comes next, past it.
    fn eat(&mut self, c: char) -> (r: bool)
        requires
            old(self).pos <= old(self).chars@.len(),
        ensures
            final(self).chars == old(self).chars,
            (r, final(self).pos as int) == eat(old(self).chars@, old(self).pos as int, c),
            final(self).pos <= final(self).chars@.len(),
    {
        proof {
            lemma_skip_ws(self.chars@, self.pos as int);
        }
        self.skip_ws();
        if self.pos < self.chars.len() && self.chars[self.pos] == c {
            self.pos = self.pos + 1;
            true
        } else {
            false
        }
    }

    /// Moves past white space and the name that comes next, if one does.
    fn parse_ident(&mut self) -> (r: Option<String>)
        requires
            old(self).pos <= old(self).chars@.len(),
        ensures
            final(self).chars == old(self).chars,
            final(self).pos <= final(self).chars@.len(),
            match r {
                None => ident(old(self).chars@, old(self).pos as int) is None,
                Some(s) => ident(old(self).chars@, old(self).pos as int) == Some((s@, final(self).pos as int)),
            },
    {
        proof {
            lemma_skip_ws(self.chars@, self.pos as int);
        }
        self.skip_ws();
        let start = self.pos;
        proof {
            lemma_ident_end(self.chars@, start as int);
        }
        while self.pos < self.chars.len() && (is_alphanumeric(self.chars[self.pos]) || self.chars[self.pos] == '_'
            || self.chars[self.pos] == '-')
            invariant
                self.chars == old(self).chars,
                start <= self.pos <= self.chars@.len(),
                ident_end(self.chars@, start as int) == ident_end(self.chars@, self.pos as int),
            decreases self.chars@.len() - self.pos,
        {
            self.pos = self.pos + 1;
        }
        if self.pos > start {
            Some(string_of_range(&self.chars, start, self.pos))
        } else {
            None
        }
    }

    /// Reads a primary.
    fn parse_primary(&mut self, answers: &Answers) -> (r: Option<bool>)
        requires
            old(self).pos <= old(self).chars@.len(),
        ensures
            final(self).chars == old(self).chars,
            match r {
                None => rule_primary(old(self).chars@, answers@, old(self).pos as int) is None,
                Some(v) => rule_primary(old(self).chars@, answers@, old(self).pos as int) == Some(
                    (v, final(self).pos as int),
                ) && old(self).pos <= final(self).pos <= final(self).chars@.len(),
            },
        decreases old(self).chars@.len() - old(self).pos, 0int,
    {
        let ghost cs = self.chars@;
        let ghost p = self.pos as int;
        proof {
            lemma_eat(cs, p, '(');
        }
        if self.eat('(') {
            let value = match self.parse_or(answers) {
                Some(v) => v,
                None => {
                    return None;
                },
            };
            proof {
                lemma_eat(cs, self.pos as int, ')');
            }
            self.eat(')');
            return Some(value);
        }
        let ghost q = self.pos as int;
        proof {
            lemma_ident(cs, q);
        }
        let id = match self.parse_ident() {
            Some(s) => s,
            None => {
                return None;
            },
        };
        let ghost e = self.pos as int;
        proof {
            lemma_eat(cs, e, '=');
        }
        let e1 = self.eat('=');
        let ghost q1 = self.pos as int;
        proof {
            lemma_eat(cs, q1, '=');
        }
        let e2 = if e1 {
            self.eat('=')
        } else {
            false
        };
        if e1 && e2 {
            let ghost q2 = self.pos as int;
            proof {
                lemma_ident(cs, q2);
            }
            let other = match self.parse_ident() {
                Some(s) => s,
                None => {
                    return None;
                },
            };
            let same = match answers.get(id.as_str()) {
                Some(a) => crate::text::str_eq(a.as_str(), other.as_str()),
                None => false,
            };
            return Some(same);
        }
        let ghost q2 = self.pos as int;
        proof {
            lemma_eat(cs, q2, '!');
        }
        let n1 = self.eat('!');
        let ghost r1 = self.pos as int;
        proof {
            lemma_eat(cs, r1, '=');
        }
        let n2 = if n1 {
            self.eat('=')
        } else {
            false
        };
        if n1 && n2 {
            let ghost r2 = self.pos as int;
            proof {
                lemma_ident(cs, r2);
            }
            let other = match self.parse_ident() {
                Some(s) => s,
                None => {
                    return None;
                },
            };
            let same = match answers.get(id.as_str()) {
                Some(a) => crate::text::str_eq(a.as_str(), other.as_str()),
                None => false,
            };
            return Some(!same);
        }
        Some(is_truthy(id.as_str(), answers))
    }

    /// Reads a unary rule.
    fn parse_unary(&mut self, answers: &Answers) -> (r: Option<bool>)
        requires
            old(self).pos <= old(self).chars@.len(),
        ensures
            final(self).chars == old(self).chars,
            match r {
                None => rule_unary(old(self).chars@, answers@, old(self).pos as int) is None,
                Some(v) => rule_unary(old(self).chars@, answers@, old(self).pos as int) == Some(
                    (v, final(self).pos as int),
                ) && old(self).pos <= final(self).pos <= final(self).chars@.len(),
            },
        decreases old(self).chars@.len() - old(self).pos, 1int,
    {
        proof {
            lemma_eat(self.chars@, self.pos as int, '!');
        }
        if self.eat('!') {
            return match self.parse_unary(answers) {
                Some(v) => Some(!v),
                None => None,
            };
        }
        self.parse_primary(answers)
    }

    /// Reads the rest of a conjunction whose value so far is `value`.
    fn parse_and_tail(&mut self, answers: &Answers, value: bool) -> (r: Option<bool>)
        requires
            old(self).pos <= old(self).chars@.len(),
        ensures
            final(self).chars == old(self).chars,
            match r {
                None => rule_and_tail(old(self).chars@, answers@, old(self).pos as int, value) is None,
                Some(v) => rule_and_tail(old(self).chars@, answers@, old(self).pos as int, value) == Some(
                    (v, final(self).pos as int),
                ) && old(self).pos <= final(self).pos <= final(self).chars@.len(),
            },
        decreases old(self).chars@.len() - old(self).pos, 2int,
    {
        let ghost p = self.pos as int;
        proof {
            lemma_eat(self.chars@, p, '&');
        }
        let a1 = self.eat('&');
        proof {
            lemma_eat(self.chars@, self.pos as int, '&');
        }
        let a2 = if a1 {
            self.eat('&')
        } else {
            false
        };
        if a1 && a2 {
            let rhs = match self.parse_unary(answers) {
                Some(v) => v,
                None => {
                    return None;
                },
            };
            self.parse_and_tail(answers, value && rhs)
        } else {
            Some(value)
        }
    }

    /// Reads unary rules joined by `&&`.
    fn parse_and(&mut self, answers: &Answers) -> (r: Option<bool>)
        requires
            old(self).pos <= old(self).chars@.len(),
        ensures
            final(self).chars == old(self).chars,
            match r {
                None => rule_and(old(self).chars@, answers@, old(self).pos as int) is None,
                Some(v) => rule_and(old(self).chars@, answers@, old(self).pos as int) == Some(
                    (v, final(self).pos as int),
                ) && old(self).pos <= final(self).pos <= final(self).chars@.len(),
            },
        decreases old(self).chars@.len() - old(self).pos, 3int,
    {
        let value = match self.parse_unary(answers) {
            Some(v) => v,
            None => {
                return None;
            },
        };
        self.parse_and_tail(answers, value)
    }

    /// Reads the rest of a disjunction whose value so far is `value`.
    fn parse_or_tail(&mut self, answers: &Answers, value: bool) -> (r: Option<bool>)
        requires
            old(self).pos <= old(self).chars@.len(),
        ensures
            final(self).chars == old(self).chars,
            match r {
                None => rule_or_tail(old(self).chars@, answers@, old(self).pos as int, value) is None,
                Some(v) => rule_or_tail(old(self).chars@, answers@, old(self).pos as int, value) == Some(
                    (v, final(self).pos as int),
                ) && old(self).pos <= final(self).pos <= final(self).chars@.len(),
            },
        decreases old(self).chars@.len() - old(self).pos, 4int,
    {
        let ghost p = self.pos as int;
        proof {
            lemma_eat(self.chars@, p, '|');
        }
        let o1 = self.eat('|');
        proof {
            lemma_eat(self.chars@, self.pos as int, '|');
        }
        let o2 = if o1 {
            self.eat('|')
        } else {
            false
        };
        if o1 && o2 {
            let rhs = match self.parse_and(answers) {
                Some(v) => v,
                None => {
                    return None;
                },
            };
            self.parse_or_tail(answers, value || rhs)
        } else {
            Some(value)
        }
    }

    /// Reads conjunctions joined by `||`.
    fn parse_or(&mut self, answers: &Answers) -> (r: Option<bool>)
        requires
            old(self).pos <= old(self).chars@.len(),
        ensures
            final(self).chars == old(self).chars,
            match r {
                None => rule_or(old(self).chars@, answers@, old(self).pos as int) is None,
                Some(v) => rule_or(old(self).chars@, answers@, old(self).pos as int) == Some(
                    (v, final(self).pos as int),
                ) && old(self).pos <= final(self).pos <= final(self).chars@.len(),
            },
        decreases old(self).chars@.len() - old(self).pos, 5int,
    {
        let value = match self.parse_and(answers) {
            Some(v) => v,
            None => {
                return None;
            },
        };
        self.parse_or_tail(answers, value)
    }
}

/// The value of `rule` over the answers: names that are on are true,
/// `a == b` and `a != b` compare the answer named `a` with the text `b`,
/// `!`, `&&` (binding tighter) and `||` combine, parentheses group. A rule
/// that does not parse, or that goes on after its end, is false.
pub fn eval_rule(rule: &str, answers: &Answers) -> (r: bool)
    ensures
        r == rule_value(rule@, answers@),
{
    let mut parser = RuleParser::new(rule);
    let value = match parser.parse_or(answers) {
        Some(v) => v,
        None => {
            return false;
        },
    };
    parser.skip_ws();
    if parser.pos != parser.chars.len() {
        return false;
    }
    value
}

// ---------------------------------------------------------------------
// Reading a rule file.
// ---------------------------------------------------------------------

/// A question as plain values: its name and default answer.
pub open spec fn user_view(u: UserRule) -> (Seq<char>, Option<Seq<char>>) {
    (
        u.name@,
        match u.default {
            Some(d) => Some(d@),
            None => None,
        },
    )
}

pub open spec fn user_views(us: Seq<UserRule>) -> Seq<(Seq<char>, Option<Seq<char>>)> {
    us.map_values(|u: UserRule| user_view(u))
}

/// A group of toggles as plain values: the toggles and the reason.
pub open spec fn mutex_views(ms: Seq<UserMutex>) -> Seq<(Seq<Seq<char>>, Seq<char>)> {
    ms.map_values(|m: UserMutex| (views(m.mutex@), m.reason@))
}

pub open spec fn display_views(ds: Seq<DisplayRule>) -> Seq<(Seq<char>, Seq<char>)> {
    ds.map_values(|d: DisplayRule| (d.name@, d.rule@))
}

pub open spec fn hide_file_views(hs: Seq<HideFileRule>) -> Seq<(Seq<char>, Seq<char>)> {
    hs.map_values(|h: HideFileRule| (h.file@, h.rule@))
}

pub open spec fn hide_dir_views(hs: Seq<HideDirRule>) -> Seq<(Seq<char>, Seq<char>)> {
    hs.map_values(|h: HideDirRule| (h.dir@, h.rule@))
}

/// The default answer a question declares: a string as it is, a boolean as
/// `true` or `false`; any other value declares none.
pub open spec fn default_of(t: Seq<(String, TomlItem)>) -> Option<Seq<char>> {
    match entry_get(t, "default"@) {
        Some(TomlItem::Str(s)) => Some(s@),
        Some(TomlItem::Bool(b)) => Some(
            if b {
                "true"@
            } else {
                "false"@
            },
        ),
        _ => None,
    }
}

/// A `[[user.*]]` table: a question, which must have a `name`.
pub open spec fn read_user(t: Seq<(String, TomlItem)>) -> Result<(Seq<char>, Option<Seq<char>>), Seq<char>> {
    match item_str(entry_get(t, "name"@)) {
        Some(n) => Ok((n, default_of(t))),
        None => Err("[[user.*]] entry is missing `name`"@),
    }
}

/// The strings among array elements `vs[..k]`, in order.
pub open spec fn strings_of(vs: Seq<TomlItem>, k: int) -> Seq<Seq<char>>
    decreases k,
{
    if k <= 0 {
        Seq::empty()
    } else {
        match vs[k - 1] {
            TomlItem::Str(s) => strings_of(vs, k - 1).push(s@),
            _ => strings_of(vs, k - 1),
        }
    }
}

/// A `[[user.toggle-mutex]]` table: the strings of its `mutex` array (none
/// when it has none) and its `reason`, with a default reason.
pub open spec fn read_mutex(t: Seq<(String, TomlItem)>) -> (Seq<Seq<char>>, Seq<char>) {
    (
        match entry_get(t, "mutex"@) {
            Some(TomlItem::Array(v)) => strings_of(v@, v@.len() as int),
            _ => Seq::empty(),
        },
        match item_str(entry_get(t, "reason"@)) {
            Some(r) => r,
            None => "these options are mutually exclusive"@,
        },
    )
}

/// A table with two required strings, `first` and then `second`; the
/// first one missing is reported with its message.
pub open spec fn read_pair(
    t: Seq<(String, TomlItem)>,
    first: Seq<char>,
    second: Seq<char>,
    missing_first: Seq<char>,
    missing_second: Seq<char>,
) -> Result<(Seq<char>, Seq<char>), Seq<char>> {
    match item_str(entry_get(t, first)) {
        None => Err(missing_first),
        Some(a) => match item_str(entry_get(t, second)) {
            None => Err(missing_second),
            Some(b) => Ok((a, b)),
        },
    }
}

/// The entries of the `user` table, when the document has one.
pub open spec fn user_section(doc: Seq<(String, TomlItem)>) -> Seq<(String, TomlItem)> {
    match entry_get(doc, "user"@) {
        Some(TomlItem::Table(es)) => es@,
        _ => Seq::empty(),
    }
}

/// Reads the tables of the array stored under `key` with `f`.
pub open spec fn read_section<T>(
    es: Seq<(String, TomlItem)>,
    key: Seq<char>,
    f: spec_fn(Seq<(String, TomlItem)>) -> Result<T, Seq<char>>,
) -> Result<Seq<T>, Seq<char>> {
    read_all(item_tables(entry_get(es, key)), f, item_tables(entry_get(es, key)).len() as int)
}

pub open spec fn users_of_kind(doc: Seq<(String, TomlItem)>, kind: Seq<char>) -> Result<
    Seq<(Seq<char>, Option<Seq<char>>)>,
    Seq<char>,
> {
    read_section(user_section(doc), kind, |t: Seq<(String, TomlItem)>| read_user(t))
}

pub open spec fn mutexes_of(doc: Seq<(String, TomlItem)>) -> Seq<(Seq<Seq<char>>, Seq<char>)> {
    item_tables(entry_get(user_section(doc), "toggle-mutex"@)).map_values(
        |t: Vec<(String, TomlItem)>| read_mutex(t@),
    )
}

pub open spec fn displays_of(doc: Seq<(String, TomlItem)>) -> Result<Seq<(Seq<char>, Seq<char>)>, Seq<char>> {
    read_section(
        doc,
        "display"@,
        |t: Seq<(String, TomlItem)>|
            read_pair(
                t,
                "name"@,
                "rule"@,
                "[[display]] entry is missing `name`"@,
                "[[display]] entry is missing `rule`"@,
            ),
    )
}

pub open spec fn hide_files_of(doc: Seq<(String, TomlItem)>) -> Result<Seq<(Seq<char>, Seq<char>)>, Seq<char>> {
    read_section(
        doc,
        "hide-file"@,
        |t: Seq<(String, TomlItem)>|
            read_pair(
                t,
                "file"@,
                "rule"@,
                "[[hide-file]] entry is missing `file`"@,
                "[[hide-file]] entry is missing `rule`"@,
            ),
    )
}

pub open spec fn hide_dirs_of(doc: Seq<(String, TomlItem)>) -> Result<Seq<(Seq<char>, Seq<char>)>, Seq<char>> {
    read_section(
        doc,
        "hide-dir"@,
        |t: Seq<(String, TomlItem)>|
            read_pair(
                t,
                "dir"@,
                "rule"@,
                "[[hide-dir]] entry is missing `dir`"@,
                "[[hide-dir]] entry is missing `rule`"@,
            ),
    )
}

pub open spec fn ok_items<T>(r: Result<Seq<T>, Seq<char>>) -> Seq<T> {
    match r {
        Ok(s) => s,
        Err(_) => Seq::empty(),
    }
}

/// The error a rule file is refused with: the first entry, in the order
/// inputs, toggles, selections, displays, hidden files, hidden directories,
/// that misses a required string.
pub open spec fn rules_error(doc: Seq<(String, TomlItem)>) -> Option<Seq<char>> {
    if let Err(e) = users_of_kind(doc, "input"@) {
        Some(e)
    } else if let Err(e) = users_of_kind(doc, "toggle"@) {
        Some(e)
    } else if let Err(e) = users_of_kind(doc, "selection"@) {
        Some(e)
    } else if let Err(e) = displays_of(doc) {
        Some(e)
    } else if let Err(e) = hide_files_of(doc) {
        Some(e)
    } else if let Err(e) = hide_dirs_of(doc) {
        Some(e)
    } else {
        None
    }
}

/// The questions a rule file declares: its inputs, toggles and selections,
/// in that order.
pub open spec fn users_of(doc: Seq<(String, TomlItem)>) -> Seq<(Seq<char>, Option<Seq<char>>)> {
    ok_items(users_of_kind(doc, "input"@)) + ok_items(users_of_kind(doc, "toggle"@)) + ok_items(
        users_of_kind(doc, "selection"@),
    )
}

/// Reads the `[[user.*]]` tables `tables` onto the end of `out`.
fn read_users(tables: &Vec<Vec<(String, TomlItem)>>, out: &mut Vec<UserRule>) -> (r: Result<(), String>)
    ensures
        match read_all(tables@, |t: Seq<(String, TomlItem)>| read_user(t), tables@.len() as int) {
            Ok(us) => r is Ok && user_views(final(out)@) == user_views(old(out)@) + us,
            Err(e) => r matches Err(m) && m@ == e,
        },
{
    let ghost f = |t: Seq<(String, TomlItem)>| read_user(t);
    let ghost start = user_views(out@);
    let mut k: usize = 0;
    while k < tables.len()
        invariant
            f == (|t: Seq<(String, TomlItem)>| read_user(t)),
            k <= tables@.len(),
            read_all(tables@, f, k as int) matches Ok(us) && user_views(out@) == start + us,
        decreases tables@.len() - k,
    {
        let t = &tables[k];
        let name = match get_str(t, "name") {
            Some(n) => n.clone(),
            None => {
                proof {
                    lemma_read_all_err(tables@, f, k + 1, tables@.len() as int);
                }
                return Err(owned("[[user.*]] entry is missing `name`"));
            },
        };
        let default = match get_entry(t, "default") {
            Some(TomlItem::Str(d)) => Some(d.clone()),
            Some(TomlItem::Bool(b)) => Some(
                if *b {
                    owned("true")
                } else {
                    owned("false")
                },
            ),
            _ => None,
        };
        let ghost before = user_views(out@);
        out.push(UserRule { name, default });
        proof {
            assert(user_views(out@) =~= before.push(user_view(out@.last())));
            let prev = read_all(tables@, f, k as int)->Ok_0;
            assert(read_all(tables@, f, k + 1) == Ok::<Seq<(Seq<char>, Option<Seq<char>>)>, Seq<char>>(
                prev.push((name@, default_of(tables@[k as int]@))),
            ));
            assert(start + prev.push((name@, default_of(tables@[k as int]@))) =~= (start + prev).push(
                (name@, default_of(tables@[k as int]@)),
            ));
        }
        k = k + 1;
    }
    Ok(())
}

pub open spec fn pair_views(v: Seq<(String, String)>) -> Seq<(Seq<char>, Seq<char>)> {
    v.map_values(|p: (String, String)| (p.0@, p.1@))
}

/// Reads tables with two required strings.
fn read_pairs(
    tables: &Vec<Vec<(String, TomlItem)>>,
    first: &str,
    second: &str,
    missing_first: &str,
    missing_second: &str,
) -> (r: Result<Vec<(String, String)>, String>)
    ensures
        match read_all(
            tables@,
            |t: Seq<(String, TomlItem)>| read_pair(t, first@, second@, missing_first@, missing_second@),
            tables@.len() as int,
        ) {
            Ok(ps) => r matches Ok(v) && pair_views(v@) == ps,
            Err(e) => r matches Err(m) && m@ == e,
        },
{
    let ghost f = |t: Seq<(String, TomlItem)>| read_pair(t, first@, second@, missing_first@, missing_second@);
    let mut out: Vec<(String, String)> = Vec::new();
    let mut k: usize = 0;
    proof {
        assert(pair_views(out@) =~= Seq::<(Seq<char>, Seq<char>)>::empty());
    }
    while k < tables.len()
        invariant
            f == (|t: Seq<(String, TomlItem)>| read_pair(t, first@, second@, missing_first@, missing_second@)),
            k <= tables@.len(),
            read_all(tables@, f, k as int) matches Ok(ps) && pair_views(out@) == ps,
        decreases tables@.len() - k,
    {
        let t = &tables[k];
        let a = match get_str(t, first) {
            Some(x) => x.clone(),
            None => {
                proof {
                    lemma_read_all_err(tables@, f, k + 1, tables@.len() as int);
                }
                return Err(owned(missing_first));
            },
        };
        let b = match get_str(t, second) {
            Some(x) => x.clone(),
            None => {
                proof {
                    lemma_read_all_err(tables@, f, k + 1, tables@.len() as int);
                }
                return Err(owned(missing_second));
            },
        };
        let ghost before = pair_views(out@);
        out.push((a, b));
        proof {
            assert(pair_views(out@) =~= before.push((a@, b@)));
        }
        k = k + 1;
    }
    Ok(out)
}

/// Reads `[[user.toggle-mutex]]` tables.
fn read_mutexes(tables: &Vec<Vec<(String, TomlItem)>>) -> (r: Vec<UserMutex>)
    ensures
        mutex_views(r@) == tables@.map_values(|t: Vec<(String, TomlItem)>| read_mutex(t@)),
{
    let mut out: Vec<UserMutex> = Vec::new();
    let mut k: usize = 0;
    while k < tables.len()
        invariant
            k <= tables@.len(),
            mutex_views(out@) =~= tables@.take(k as int).map_values(|t: Vec<(String, TomlItem)>| read_mutex(t@)),
        decreases tables@.len() - k,
    {
        let t = &tables[k];
        let mut mutex: Vec<String> = Vec::new();
        match get_entry(t, "mutex") {
            Some(TomlItem::Array(v)) => {
                let mut j: usize = 0;
                proof {
                    assert(views(mutex@) =~= strings_of(v@, 0));
                }
                while j < v.len()
                    invariant
                        j <= v@.len(),
                        views(mutex@) == strings_of(v@, j as int),
                    decreases v@.len() - j,
                {
                    if let TomlItem::Str(x) = &v[j] {
                        let ghost before = views(mutex@);
                        mutex.push(x.clone());
                        proof {
                            assert(views(mutex@) =~= before.push(x@));
                        }
                    }
                    j = j + 1;
                }
            },
            _ => {
                proof {
                    assert(views(mutex@) =~= Seq::<Seq<char>>::empty());
                }
            },
        }
        let reason = match get_str(t, "reason") {
            Some(x) => x.clone(),
            None => owned("these options are mutually exclusive"),
        };
        let ghost before = mutex_views(out@);
        out.push(UserMutex { mutex, reason });
        proof {
            assert(mutex_views(out@) =~= before.push(read_mutex(tables@[k as int]@)));
            assert(tables@.take(k + 1) =~= tables@.take(k as int).push(tables@[k as int]));
        }
        k = k + 1;
    }
    proof {
        assert(tables@.take(tables@.len() as int) =~= tables@);
    }
    out
}

/// Reads the tables stored under `key`, if any.
fn tables_under<'a>(es: &'a Vec<(String, TomlItem)>, key: &str, none: &'a Vec<Vec<(String, TomlItem)>>) -> (r: &'a Vec<
    Vec<(String, TomlItem)>,
>)
    requires
        none@.len() == 0,
    ensures
        r@ == item_tables(entry_get(es@, key@)),
{
    match get_tables(es, key) {
        Some(v) => v,
        None => none,
    }
}

/// The rules a rule file declares, read from its parsed document: the
/// questions of `[[user.input]]`, `[[user.toggle]]` and
/// `[[user.selection]]` (a `name` and a string or boolean `default`), the
/// groups of `[[user.toggle-mutex]]`, and the `[[display]]`, `[[hide-file]]`
/// and `[[hide-dir]]` rules. An entry missing a required string refuses the
/// file.
pub fn rules_from_toml(doc: &Vec<(String, TomlItem)>) -> (r: Result<TemplateRules, String>)
    ensures
        r is Ok <==> rules_error(doc@) is None,
        r matches Err(e) ==> Some(e@) == rules_error(doc@),
        r matches Ok(rules) ==> {
            &&& user_views(rules.users@) == users_of(doc@)
            &&& mutex_views(rules.mutexes@) == mutexes_of(doc@)
            &&& display_views(rules.display@) == ok_items(displays_of(doc@))
            &&& hide_file_views(rules.hide_files@) == ok_items(hide_files_of(doc@))
            &&& hide_dir_views(rules.hide_dirs@) == ok_items(hide_dirs_of(doc@))
        },
{
    let none: Vec<Vec<(String, TomlItem)>> = Vec::new();
    let no_entries: Vec<(String, TomlItem)> = Vec::new();
    let user = match get_entry(doc, "user") {
        Some(TomlItem::Table(es)) => es,
        _ => &no_entries,
    };
    proof {
        assert(user@ == user_section(doc@));
    }
    let mut users: Vec<UserRule> = Vec::new();
    let r1 = read_users(tables_under(user, "input", &none), &mut users);
    if let Err(e) = r1 {
        return Err(e);
    }
    let ghost u1 = user_views(users@);
    proof {
        assert(u1 =~= Seq::<(Seq<char>, Option<Seq<char>>)>::empty() + ok_items(users_of_kind(doc@, "input"@)));
    }
    let r2 = read_users(tables_under(user, "toggle", &none), &mut users);
    if let Err(e) = r2 {
        return Err(e);
    }
    let r3 = read_users(tables_under(user, "selection", &none), &mut users);
    if let Err(e) = r3 {
        return Err(e);
    }
    let mutexes = read_mutexes(tables_under(user, "toggle-mutex", &none));
    let display = match read_pairs(
        tables_under(doc, "display", &none),
        "name",
        "rule",
        "[[display]] entry is missing `name`",
        "[[display]] entry is missing `rule`",
    ) {
        Ok(v) => v,
        Err(e) => {
            return Err(e);
        },
    };
    let hide_files = match read_pairs(
        tables_under(doc, "hide-file", &none),
        "file",
        "rule",
        "[[hide-file]] entry is missing `file`",
        "[[hide-file]] entry is missing `rule`",
    ) {
        Ok(v) => v,
        Err(e) => {
            return Err(e);
        },
    };
    let hide_dirs = match read_pairs(
        tables_under(doc, "hide-dir", &none),
        "dir",
        "rule",
        "[[hide-dir]] entry is missing `dir`",
        "[[hide-dir]] entry is missing `rule`",
    ) {
        Ok(v) => v,
        Err(e) => {
            return Err(e);
        },
    };
    let rules = TemplateRules {
        users,
        mutexes,
        display: to_display(&display),
        hide_files: to_hide_files(&hide_files),
        hide_dirs: to_hide_dirs(&hide_dirs),
    };
    Ok(rules)
}

fn to_display(v: &Vec<(String, String)>) -> (r: Vec<DisplayRule>)
    ensures
        display_views(r@) == pair_views(v@),
{
    let mut out: Vec<DisplayRule> = Vec::new();
    let mut k: usize = 0;
    while k < v.len()
        invariant
            k <= v@.len(),
            display_views(out@) =~= pair_views(v@).take(k as int),
        decreases v@.len() - k,
    {
        let ghost before = display_views(out@);
        out.push(DisplayRule { name: v[k].0.clone(), rule: v[k].1.clone() });
        proof {
            assert(display_views(out@) =~= before.push((v@[k as int].0@, v@[k as int].1@)));
            assert(pair_views(v@).take(k + 1) =~= pair_views(v@).take(k as int).push((v@[k as int].0@, v@[k as int].1@)));
        }
        k = k + 1;
    }
    proof {
        assert(pair_views(v@).take(v@.len() as int) =~= pair_views(v@));
    }
    out
}

fn to_hide_files(v: &Vec<(String, String)>) -> (r: Vec<HideFileRule>)
    ensures
        hide_file_views(r@) == pair_views(v@),
{
    let mut out: Vec<HideFileRule> = Vec::new();
    let mut k: usize = 0;
    while k < v.len()
        invariant
            k <= v@.len(),
            hide_file_views(out@) =~= pair_views(v@).take(k as int),
        decreases v@.len() - k,
    {
        let ghost before = hide_file_views(out@);
        out.push(HideFileRule { file: v[k].0.clone(), rule: v[k].1.clone() });
        proof {
            assert(hide_file_views(out@) =~= before.push((v@[k as int].0@, v@[k as int].1@)));
            assert(pair_views(v@).take(k + 1) =~= pair_views(v@).take(k as int).push((v@[k as int].0@, v@[k as int].1@)));
        }
        k = k + 1;
    }
    proof {
        assert(pair_views(v@).take(v@.len() as int) =~= pair_views(v@));
    }
    out
}

fn to_hide_dirs(v: &Vec<(String, String)>) -> (r: Vec<HideDirRule>)
    ensures
        hide_dir_views(r@) == pair_views(v@),
{
    let mut out: Vec<HideDirRule> = Vec::new();
    let mut k: usize = 0;
    while k < v.len()
        invariant
            k <= v@.len(),
            hide_dir_views(out@) =~= pair_views(v@).take(k as int),
        decreases v@.len() - k,
    {
        let ghost before = hide_dir_views(out@);
        out.push(HideDirRule { dir: v[k].0.clone(), rule: v[k].1.clone() });
        proof {
            assert(hide_dir_views(out@) =~= before.push((v@[k as int].0@, v@[k as int].1@)));
            assert(pair_views(v@).take(k + 1) =~= pair_views(v@).take(k as int).push((v@[k as int].0@, v@[k as int].1@)));
        }
        k = k + 1;
    }
    proof {
        assert(pair_views(v@).take(v@.len() as int) =~= pair_views(v@));
    }
    out
}

/// The answer a checklist entry gives: a string as it is, a boolean as
/// `true` or `false`, a number as written in decimal; arrays, tables,
/// inline tables and date-times give none.
pub open spec fn answer_text(i: TomlItem) -> Option<Seq<char>> {
    match i {
        TomlItem::Str(s) => Some(s@),
        TomlItem::Bool(b) => Some(
            if b {
                "true"@
            } else {
                "false"@
            },
        ),
        TomlItem::Int(n) => Some(crate::text::int_text(n as int)),
        TomlItem::Float(t) => Some(t@),
        _ => None,
    }
}

/// The answers the top-level entries `doc[..k]` of a checklist give, a
/// later entry winning over an earlier one with the same key.
pub open spec fn checklist_of(doc: Seq<(String, TomlItem)>, k: int) -> Map<Seq<char>, Seq<char>>
    decreases k,
{
    if k <= 0 {
        Map::empty()
    } else {
        match answer_text(doc[k - 1].1) {
            Some(t) => checklist_of(doc, k - 1).insert(doc[k - 1].0@, t),
            None => checklist_of(doc, k - 1),
        }
    }
}

/// A checklist entry that no later entry overrides gives its answer: a
/// boolean `b` is answered with the text `true` or `false` (so a `false`
/// answer is kept, not dropped), and a string with the string itself.
pub proof fn law_checklist_keeps_answers(doc: Seq<(String, TomlItem)>, i: int)
    requires
        0 <= i < doc.len(),
        forall|j: int| i < j < doc.len() ==> #[trigger] doc[j].0@ != doc[i].0@,
    ensures
        doc[i].1 matches TomlItem::Bool(b) ==> checklist_of(doc, doc.len() as int).contains_key(doc[i].0@)
            && checklist_of(doc, doc.len() as int)[doc[i].0@] == (if b {
            "true"@
        } else {
            "false"@
        }),
        doc[i].1 matches TomlItem::Str(t) ==> checklist_of(doc, doc.len() as int).contains_key(doc[i].0@)
            && checklist_of(doc, doc.len() as int)[doc[i].0@] == t@,
{
    lemma_checklist_keeps(doc, i, doc.len() as int);
}

proof fn lemma_checklist_keeps(doc: Seq<(String, TomlItem)>, i: int, k: int)
    requires
        0 <= i < k <= doc.len(),
        forall|j: int| i < j < doc.len() ==> #[trigger] doc[j].0@ != doc[i].0@,
    ensures
        doc[i].1 matches TomlItem::Bool(b) ==> checklist_of(doc, k).contains_key(doc[i].0@) && checklist_of(
            doc,
            k,
        )[doc[i].0@] == (if b {
            "true"@
        } else {
            "false"@
        }),
        doc[i].1 matches TomlItem::Str(t) ==> checklist_of(doc, k).contains_key(doc[i].0@) && checklist_of(
            doc,
            k,
        )[doc[i].0@] == t@,
    decreases k,
{
    if k > i + 1 {
        lemma_checklist_keeps(doc, i, k - 1);
        assert(doc[k - 1].0@ != doc[i].0@);
    }
}

/// The answers a checklist gives, read from its parsed document.
pub fn checklist_from_toml(doc: &Vec<(String, TomlItem)>) -> (r: Answers)
    ensures
        r@ == checklist_of(doc@, doc@.len() as int),
{
    let mut answers = Answers::new();
    let mut k: usize = 0;
    while k < doc.len()
        invariant
            k <= doc@.len(),
            answers@ == checklist_of(doc@, k as int),
        decreases doc@.len() - k,
    {
        let text = match &doc[k].1 {
            TomlItem::Str(s) => Some(s.clone()),
            TomlItem::Bool(b) => Some(
                if *b {
                    owned("true")
                } else {
                    owned("false")
                },
            ),
            TomlItem::Int(n) => Some(crate::text::int_to_text(*n)),
            TomlItem::Float(t) => Some(t.clone()),
            _ => None,
        };
        match text {
            Some(t) => {
                answers.insert(doc[k].0.clone(), t);
            },
            None => {},
        }
        k = k + 1;
    }
    answers
}

/// The rules of a `rule.toml` file: its text is parsed as TOML (a text
/// that is not TOML is refused with the parser's message), then read as
/// `rules_from_toml` reads a document.
pub fn parse_rules(content: &str) -> (r: Result<TemplateRules, String>)
    ensures
        match toml_document_of(content@) {
            Err(e) => r matches Err(m) && m@ == e,
            Ok(doc) => {
                &&& r is Ok <==> rules_error(doc) is None
                &&& r matches Err(e) ==> Some(e@) == rules_error(doc)
                &&& r matches Ok(rules) ==> {
                    &&& user_views(rules.users@) == users_of(doc)
                    &&& mutex_views(rules.mutexes@) == mutexes_of(doc)
                    &&& display_views(rules.display@) == ok_items(displays_of(doc))
                    &&& hide_file_views(rules.hide_files@) == ok_items(hide_files_of(doc))
                    &&& hide_dir_views(rules.hide_dirs@) == ok_items(hide_dirs_of(doc))
                }
            },
        },
{
    match toml_document(content) {
        Ok(doc) => rules_from_toml(&doc),
        Err(e) => Err(e),
    }
}

/// The answers of a `checklist.toml` file: its text is parsed as TOML (a
/// text that is not TOML is refused with the parser's message), then read
/// as `checklist_from_toml` reads a document.
pub fn parse_checklist(content: &str) -> (r: Result<Answers, String>)
    ensures
        match toml_document_of(content@) {
            Err(e) => r matches Err(m) && m@ == e,
            Ok(doc) => r matches Ok(a) && a@ == checklist_of(doc, doc.len() as int),
        },
{
    match toml_document(content) {
        Ok(doc) => Ok(checklist_from_toml(&doc)),
        Err(e) => Err(e),
    }
}

} // verus!
