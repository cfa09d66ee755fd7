//! Extraction of special flags and their arguments from an argument vector,
//! and the `Flag` set of spellings a flag may take.
use vstd::prelude::*;
use crate::text::{owned, starts_with, str_eq, views};

verus! {

/// The index of the first element of `s[i..]` equal to `x`, or -1.
pub open spec fn find_from(s: Seq<Seq<char>>, x: Seq<char>, i: int) -> int
    decreases s.len() - i,
{
    if i < 0 || i >= s.len() {
        -1
    } else if s[i] == x {
        i
    } else {
        find_from(s, x, i + 1)
    }
}

/// The index of the first element of `s` equal to `x`, or -1.
pub open spec fn find_first(s: Seq<Seq<char>>, x: Seq<char>) -> int {
    find_from(s, x, 0)
}

/// `find_from` yields the first matching index at or after `i`.
pub proof fn lemma_find_from(s: Seq<Seq<char>>, x: Seq<char>, i: int)
    requires
        0 <= i,
    ensures
        find_from(s, x, i) == -1 ==> forall|k: int| i <= k < s.len() ==> s[k] != x,
        find_from(s, x, i) != -1 ==> {
            &&& i <= find_from(s, x, i) < s.len()
            &&& s[find_from(s, x, i)] == x
            &&& forall|k: int| i <= k < find_from(s, x, i) ==> s[k] != x
        },
    decreases s.len() - i,
{
    if i < s.len() && s[i] != x {
        lemma_find_from(s, x, i + 1);
    }
}

/// The elements of `s` that differ from `x`, in order.
pub open spec fn remove_all(s: Seq<Seq<char>>, x: Seq<char>) -> Seq<Seq<char>>
    decreases s.len(),
{
    if s.len() == 0 {
        Seq::empty()
    } else if s.last() == x {
        remove_all(s.drop_last(), x)
    } else {
        remove_all(s.drop_last(), x).push(s.last())
    }
}

/// Whether the argument looks like a flag (starts with `-`).
pub open spec fn is_dashed(a: Seq<char>) -> bool {
    a.len() > 0 && a[0] == '-'
}

/// The end of the run of non-flag arguments starting at `i`.
pub open spec fn value_run_end(s: Seq<Seq<char>>, i: int) -> int
    decreases s.len() - i,
{
    if 0 <= i < s.len() && !is_dashed(s[i]) {
        value_run_end(s, i + 1)
    } else {
        i
    }
}

proof fn lemma_value_run_end(s: Seq<Seq<char>>, i: int)
    requires
        0 <= i <= s.len(),
    ensures
        i <= value_run_end(s, i) <= s.len(),
        forall|k: int| i <= k < value_run_end(s, i) ==> !is_dashed(#[trigger] s[k]),
        value_run_end(s, i) < s.len() ==> is_dashed(s[value_run_end(s, i)]),
    decreases s.len() - i,
{
    if i < s.len() && !is_dashed(s[i]) {
        lemma_value_run_end(s, i + 1);
    }
}

proof fn lemma_dash(a: Seq<char>)
    ensures
        crate::text::is_prefix(seq!['-'], a) == is_dashed(a),
{
    if a.len() > 0 && a[0] == '-' {
        assert(a.take(1) =~= seq!['-']);
    }
    if crate::text::is_prefix(seq!['-'], a) {
        assert(a.take(1)[0] == '-');
    }
}

/// Where the values of `flag` start and where removal starts, or `None`
/// when the flag is absent. An empty flag stands for the start of the line.
pub open spec fn arguments_window(s: Seq<Seq<char>>, flag: Seq<char>) -> Option<(int, int)> {
    if flag.len() == 0 {
        Some((0, 0))
    } else if find_first(s, flag) == -1 {
        None
    } else {
        Some((find_first(s, flag), find_first(s, flag) + 1))
    }
}

pub(crate) fn find_string(args: &Vec<String>, flag: &str) -> (r: Option<usize>)
    ensures
        match r {
            None => find_first(views(args@), flag@) == -1,
            Some(p) => find_first(views(args@), flag@) == p as int && p < args.len(),
        },
{
    let ghost s = views(args@);
    let mut i: usize = 0;
    proof {
        lemma_find_from(s, flag@, 0);
    }
    while i < args.len()
        invariant
            s == views(args@),
            i <= args@.len(),
            find_first(s, flag@) == find_from(s, flag@, i as int),
        decreases args@.len() - i,
    {
        if str_eq(args[i].as_str(), flag) {
            return Some(i);
        }
        proof {
            assert(s[i as int] != flag@);
        }
        i = i + 1;
    }
    None
}

/// Whether `x` is one of the strings of `v`.
pub fn contains_string(v: &Vec<String>, x: &str) -> (r: bool)
    ensures
        r == views(v@).contains(x@),
{
    proof {
        lemma_find_from(views(v@), x@, 0);
    }
    match find_string(v, x) {
        Some(p) => {
            proof {
                assert(views(v@)[p as int] == x@);
            }
            true
        },
        None => false,
    }
}

/// Removes every occurrence of `flag` from `args`; tells whether there was one.
pub fn special_flag(args: &mut Vec<String>, flag: &str) -> (found: bool)
    ensures
        found == views(old(args)@).contains(flag@),
        views(final(args)@) == remove_all(views(old(args)@), flag@),
{
    let ghost s = views(args@);
    let mut kept: Vec<String> = Vec::new();
    let mut found = false;
    let mut i: usize = 0;
    let n = args.len();
    proof {
        assert(s.take(0) =~= Seq::<Seq<char>>::empty());
        assert(views(kept@) =~= Seq::<Seq<char>>::empty());
    }
    while i < n
        invariant
            n == args@.len(),
            s == views(args@),
            i <= n,
            views(kept@) == remove_all(s.take(i as int), flag@),
            found == s.take(i as int).contains(flag@),
        decreases n - i,
    {
        let ghost prev = views(kept@);
        proof {
            assert(args@[i as int]@ == s[i as int]);
        }
        let is_flag = str_eq(args[i].as_str(), flag);
        proof {
            assert(s.take(i + 1).drop_last() =~= s.take(i as int));
            assert(s.take(i + 1).last() == args@[i as int]@);
        }
        if is_flag {
            found = true;
        } else {
            kept.push(args[i].clone());
            proof {
                assert(views(kept@) =~= prev.push(args@[i as int]@));
            }
        }
        proof {
            if is_flag {
                assert(s.take(i + 1)[i as int] == flag@);
            } else if found {
                let w = choose|w: int| 0 <= w < s.take(i as int).len() && #[trigger] s.take(i as int)[w] == flag@;
                assert(s.take(i + 1)[w] == flag@);
            }
            if !found {
                assert forall|w: int| 0 <= w < s.take(i + 1).len() implies #[trigger] s.take(i + 1)[w] != flag@ by {
                    if w < i {
                        assert(s.take(i + 1)[w] == s.take(i as int)[w]);
                    }
                }
            }
        }
        i = i + 1;
    }
    proof {
        assert(s.take(n as int) =~= s);
    }
    *args = kept;
    found
}

/// The characters of an optional string.
pub open spec fn opt_view(o: Option<String>) -> Option<Seq<char>> {
    match o {
        Some(v) => Some(v@),
        None => None,
    }
}

/// What `special_argument` takes out of `s` for `flag`: the argument after
/// the first occurrence of the flag, if any, and the remaining arguments.
pub open spec fn take_argument(s: Seq<Seq<char>>, flag: Seq<char>) -> (Option<Seq<char>>, Seq<Seq<char>>) {
    let p = find_first(s, flag);
    if p == -1 {
        (None, s)
    } else if p + 1 < s.len() {
        (Some(s[p + 1]), s.take(p) + s.skip(p + 2))
    } else {
        (None, s.take(p))
    }
}

/// Removes the first occurrence of `flag` together with the argument after
/// it, returning that argument; when the flag ends the line it is removed
/// and `None` is returned, and when it is absent `args` is left unchanged.
pub fn special_argument(args: &mut Vec<String>, flag: &str) -> (value: Option<String>)
    ensures
        ({
            let s = views(old(args)@);
            let p = find_first(s, flag@);
            &&& p == -1 ==> value is None && views(final(args)@) == s
            &&& p != -1 && p + 1 < s.len() ==> value is Some && value->0@ == s[p + 1]
                && views(final(args)@) == s.take(p) + s.skip(p + 2)
            &&& p != -1 && p + 1 >= s.len() ==> value is None && views(final(args)@) == s.take(p)
        }),
        (opt_view(value), views(final(args)@)) == take_argument(views(old(args)@), flag@),
{
    let ghost s = views(args@);
    proof {
        lemma_find_from(s, flag@, 0);
    }
    match find_string(args, flag) {
        None => None,
        Some(p) => {
            let ghost before = args@;
            if p + 1 < args.len() {
                let v = args.remove(p + 1);
                proof {
                    assert(v@ == s[p + 1]);
                }
                args.remove(p);
                proof {
                    assert(views(args@) =~= s.take(p as int) + s.skip(p + 2));
                }
                Some(v)
            } else {
                args.remove(p);
                proof {
                    assert(views(args@) =~= s.take(p as int));
                }
                None
            }
        },
    }
}

/// Removes `flag` (its first occurrence) and the run of non-flag arguments
/// after it, returning that run. An empty flag takes the run at the start
/// of the line. When the flag is absent nothing changes.
pub fn special_arguments(args: &mut Vec<String>, flag: &str) -> (values: Vec<String>)
    ensures
        ({
            let s = views(old(args)@);
            match arguments_window(s, flag@) {
                None => values@.len() == 0 && views(final(args)@) == s,
                Some((from, first)) => {
                    &&& views(values@) == s.subrange(first, value_run_end(s, first))
                    &&& views(final(args)@) == s.take(from) + s.skip(value_run_end(s, first))
                },
            }
        }),
{
    let ghost s = views(args@);
    proof {
        lemma_find_from(s, flag@, 0);
    }
    let (from, first) = if flag.unicode_len() == 0 {
        (0usize, 0usize)
    } else {
        match find_string(args, flag) {
            None => {
                return Vec::new();
            },
            Some(p) => (p, p + 1),
        }
    };
    proof {
        lemma_value_run_end(s, first as int);
    }
    let mut stop = first;
    while stop < args.len() && !starts_with(args[stop].as_str(), "-")
        invariant
            s == views(args@),
            first <= stop <= args@.len(),
            value_run_end(s, first as int) == value_run_end(s, stop as int),
        decreases args@.len() - stop,
    {
        proof {
            reveal_strlit("-");
            assert("-"@ =~= seq!['-']);
            lemma_dash(s[stop as int]);
            assert(!is_dashed(s[stop as int]));
        }
        stop = stop + 1;
    }
    proof {
        reveal_strlit("-");
        assert("-"@ =~= seq!['-']);
        if stop < args@.len() {
            lemma_dash(s[stop as int]);
            assert(is_dashed(s[stop as int]));
        }
        assert(value_run_end(s, stop as int) == stop);
    }
    let mut values: Vec<String> = Vec::new();
    let mut i = first;
    while i < stop
        invariant
            s == views(args@),
            first <= i <= stop <= args@.len(),
            s.len() == args@.len(),
            views(values@) == s.subrange(first as int, i as int),
        decreases stop - i,
    {
        let ghost prev = views(values@);
        let item = args[i].clone();
        proof {
            assert(item@ == s[i as int]);
        }
        values.push(item);
        proof {
            assert(views(values@) =~= prev.push(s[i as int]));
            assert(s.subrange(first as int, i + 1) =~= s.subrange(first as int, i as int).push(s[i as int]));
        }
        i = i + 1;
    }
    let mut rest: Vec<String> = Vec::new();
    let mut k: usize = 0;
    while k < from
        invariant
            s == views(args@),
            from <= first <= stop <= args@.len(),
            k <= from,
            views(rest@) == s.take(k as int),
        decreases from - k,
    {
        let ghost prev = views(rest@);
        let item = args[k].clone();
        proof {
            assert(item@ == s[k as int]);
        }
        rest.push(item);
        proof {
            assert(views(rest@) =~= prev.push(s[k as int]));
            assert(s.take(k + 1) =~= s.take(k as int).push(s[k as int]));
        }
        k = k + 1;
    }
    let mut j = stop;
    while j < args.len()
        invariant
            s == views(args@),
            from <= first <= stop <= j <= args@.len(),
            views(rest@) == s.take(from as int) + s.subrange(stop as int, j as int),
        decreases args@.len() - j,
    {
        let ghost prev = views(rest@);
        let item = args[j].clone();
        proof {
            assert(item@ == s[j as int]);
        }
        rest.push(item);
        proof {
            assert(views(rest@) =~= prev.push(s[j as int]));
            assert(s.subrange(stop as int, j + 1) =~= s.subrange(stop as int, j as int).push(s[j as int]));
        }
        j = j + 1;
    }
    proof {
        assert(s.subrange(stop as int, s.len() as int) =~= s.skip(stop as int));
    }
    *args = rest;
    values
}

/// The spellings one flag may take, such as `-h` and `--help`.
#[derive(Debug)]
pub struct Flag {
    names: Vec<String>,
}

impl View for Flag {
    type V = Seq<Seq<char>>;

    closed spec fn view(&self) -> Seq<Seq<char>> {
        views(self.names@)
    }
}

/// The characters of each string slice, in order.
pub open spec fn str_views(v: Seq<&str>) -> Seq<Seq<char>> {
    v.map_values(|s: &str| s@)
}

impl Flag {
    /// A flag with no spelling; it matches nothing.
    pub fn empty() -> (f: Flag)
        ensures
            f@ == Seq::<Seq<char>>::empty(),
    {
        let f = Flag { names: Vec::new() };
        proof {
            assert(f@ =~= Seq::<Seq<char>>::empty());
        }
        f
    }

    /// A flag with a single spelling.
    pub fn single(name: &str) -> (f: Flag)
        ensures
            f@ == seq![name@],
    {
        let mut names = Vec::new();
        names.push(owned(name));
        let f = Flag { names };
        proof {
            assert(f@ =~= seq![name@]);
        }
        f
    }

    /// A flag with the given spellings, in order.
    pub fn from_strs(names: &[&str]) -> (f: Flag)
        ensures
            f@ == str_views(names@),
    {
        let mut v: Vec<String> = Vec::new();
        let mut i: usize = 0;
        while i < names.len()
            invariant
                i <= names@.len(),
                views(v@) == str_views(names@).take(i as int),
            decreases names@.len() - i,
        {
            let ghost prev = views(v@);
            let item = owned(names[i]);
            v.push(item);
            proof {
                assert(views(v@) =~= prev.push(names@[i as int]@));
                assert(str_views(names@).take(i + 1) =~= str_views(names@).take(i as int).push(names@[i as int]@));
            }
            i = i + 1;
        }
        proof {
            assert(str_views(names@).take(names@.len() as int) =~= str_views(names@));
        }
        Flag { names: v }
    }

    /// The spellings of the flag.
    pub fn as_ref(&self) -> (r: &[String])
        ensures
            views(r@) == self@,
    {
        self.names.as_slice()
    }

    /// Number of spellings.
    pub fn len(&self) -> (n: usize)
        ensures
            n == self@.len(),
    {
        self.names.len()
    }

    /// Whether `word` is one of the spellings.
    pub fn matches(&self, word: &str) -> (r: bool)
        ensures
            r == self@.contains(word@),
    {
        let mut i: usize = 0;
        while i < self.names.len()
            invariant
                i <= self.names@.len(),
                forall|k: int| 0 <= k < i ==> self@[k] != word@,
            decreases self.names@.len() - i,
        {
            if str_eq(self.names[i].as_str(), word) {
                proof {
                    assert(self@[i as int] == word@);
                }
                return true;
            }
            i = i + 1;
        }
        false
    }
}

/// Copies every string of `v`, in order.
pub fn clone_strings(v: &Vec<String>) -> (r: Vec<String>)
    ensures
        views(r@) == views(v@),
{
    let mut r: Vec<String> = Vec::new();
    let mut i: usize = 0;
    while i < v.len()
        invariant
            i <= v@.len(),
            views(r@) == views(v@).take(i as int),
        decreases v@.len() - i,
    {
        let ghost prev = views(r@);
        let item = v[i].clone();
        r.push(item);
        proof {
            assert(views(r@) =~= prev.push(v@[i as int]@));
            assert(views(v@).take(i + 1) =~= views(v@).take(i as int).push(v@[i as int]@));
        }
        i = i + 1;
    }
    proof {
        assert(views(v@).take(v@.len() as int) =~= views(v@));
    }
    r
}

impl Clone for Flag {
    fn clone(&self) -> (f: Flag)
        ensures
            f@ == self@,
    {
        Flag { names: clone_strings(&self.names) }
    }
}

impl From<()> for Flag {
    fn from(_unit: ()) -> (f: Flag)
        ensures
            f@ == Seq::<Seq<char>>::empty(),
    {
        Flag::empty()
    }
}

impl vstd::std_specs::convert::FromSpecImpl<()> for Flag {
    open spec fn obeys_from_spec() -> bool {
        false
    }

    open spec fn from_spec(v: ()) -> Flag {
        vstd::pervasive::arbitrary()
    }
}

impl<'a> From<&'a str> for Flag {
    fn from(name: &'a str) -> (f: Flag)
        ensures
            f@ == seq![name@],
    {
        Flag::single(name)
    }
}

impl<'a> vstd::std_specs::convert::FromSpecImpl<&'a str> for Flag {
    open spec fn obeys_from_spec() -> bool {
        false
    }

    open spec fn from_spec(v: &'a str) -> Flag {
        vstd::pervasive::arbitrary()
    }
}

impl<'a, 'b> From<&'a [&'b str]> for Flag {
    fn from(names: &'a [&'b str]) -> (f: Flag)
        ensures
            f@ == str_views(names@),
    {
        Flag::from_strs(names)
    }
}

impl<'a, 'b> vstd::std_specs::convert::FromSpecImpl<&'a [&'b str]> for Flag {
    open spec fn obeys_from_spec() -> bool {
        false
    }

    open spec fn from_spec(v: &'a [&'b str]) -> Flag {
        vstd::pervasive::arbitrary()
    }
}

impl<'b, const N: usize> From<[&'b str; N]> for Flag {
    fn from(names: [&'b str; N]) -> (f: Flag)
        ensures
            f@ == str_views(names@),
    {
        Flag::from_strs(names.as_slice())
    }
}

impl<'b, const N: usize> vstd::std_specs::convert::FromSpecImpl<[&'b str; N]> for Flag {
    open spec fn obeys_from_spec() -> bool {
        false
    }

    open spec fn from_spec(v: [&'b str; N]) -> Flag {
        vstd::pervasive::arbitrary()
    }
}

impl<'a, 'b, const N: usize> From<&'a [&'b str; N]> for Flag {
    fn from(names: &'a [&'b str; N]) -> (f: Flag)
        ensures
            f@ == str_views(names@),
    {
        Flag::from_strs(names.as_slice())
    }
}

impl<'a, 'b, const N: usize> vstd::std_specs::convert::FromSpecImpl<&'a [&'b str; N]> for Flag {
    open spec fn obeys_from_spec() -> bool {
        false
    }

    open spec fn from_spec(v: &'a [&'b str; N]) -> Flag {
        vstd::pervasive::arbitrary()
    }
}

impl<'a> From<&'a Flag> for Flag {
    fn from(other: &'a Flag) -> (f: Flag)
        ensures
            f@ == other@,
    {
        other.clone()
    }
}

impl<'a> vstd::std_specs::convert::FromSpecImpl<&'a Flag> for Flag {
    open spec fn obeys_from_spec() -> bool {
        false
    }

    open spec fn from_spec(v: &'a Flag) -> Flag {
        vstd::pervasive::arbitrary()
    }
}

} // verus!
