//! Splitting of a REPL input line into arguments, honouring single quotes,
//! double quotes and backslash escapes.
use vstd::prelude::*;
use crate::text::{push_char, chars_of, views};

verus! {

/// Where the splitter stands between two characters.
pub enum SplitMode {
    /// Outside any quote.
    Plain,
    /// Inside a quote opened by `quote`; `escaped` when the previous
    /// character was an unconsumed backslash.
    Quoted { quote: char, escaped: bool },
}

/// The arguments produced from `s[i..]`, given the mode, the argument being
/// built and the arguments already finished.
pub open spec fn split_from(
    s: Seq<char>,
    i: int,
    mode: SplitMode,
    cur: Seq<char>,
    acc: Seq<Seq<char>>,
) -> Seq<Seq<char>>
    decreases s.len() - i,
{
    if i < 0 || i >= s.len() {
        if cur.len() > 0 { acc.push(cur) } else { acc }
    } else {
        let c = s[i];
        match mode {
            SplitMode::Plain => {
                if c == '\\' {
                    if i + 1 < s.len() {
                        split_from(s, i + 2, SplitMode::Plain, cur.push(s[i + 1]), acc)
                    } else {
                        split_from(s, i + 1, SplitMode::Plain, cur, acc)
                    }
                } else if c == '"' || c == '\'' {
                    split_from(s, i + 1, SplitMode::Quoted { quote: c, escaped: false }, cur, acc)
                } else if c == ' ' {
                    if cur.len() > 0 {
                        split_from(s, i + 1, SplitMode::Plain, Seq::empty(), acc.push(cur))
                    } else {
                        split_from(s, i + 1, SplitMode::Plain, cur, acc)
                    }
                } else {
                    split_from(s, i + 1, SplitMode::Plain, cur.push(c), acc)
                }
            },
            SplitMode::Quoted { quote, escaped } => {
                if escaped {
                    split_from(s, i + 1, SplitMode::Quoted { quote, escaped: false }, cur.push(c), acc)
                } else if c == '\\' {
                    split_from(s, i + 1, SplitMode::Quoted { quote, escaped: true }, cur, acc)
                } else if c == quote {
                    split_from(s, i + 1, SplitMode::Plain, cur, acc)
                } else {
                    split_from(s, i + 1, SplitMode::Quoted { quote, escaped }, cur.push(c), acc)
                }
            },
        }
    }
}

/// The arguments of the line `s`.
pub open spec fn split_spec(s: Seq<char>) -> Seq<Seq<char>> {
    split_from(s, 0, SplitMode::Plain, Seq::empty(), Seq::empty())
}

/// Every sequence in `a` is non-empty.
pub open spec fn all_nonempty(a: Seq<Seq<char>>) -> bool {
    forall|k: int| 0 <= k < a.len() ==> #[trigger] a[k].len() > 0
}

proof fn lemma_push_nonempty(a: Seq<Seq<char>>, x: Seq<char>)
    requires
        all_nonempty(a),
        x.len() > 0,
    ensures
        all_nonempty(a.push(x)),
{
    assert forall|k: int| 0 <= k < a.push(x).len() implies #[trigger] a.push(x)[k].len() > 0 by {
        if k < a.len() {
            assert(a.push(x)[k] == a[k]);
        }
    }
}

/// Splitting keeps every finished argument non-empty.
proof fn lemma_split_from_nonempty(
    s: Seq<char>,
    i: int,
    mode: SplitMode,
    cur: Seq<char>,
    acc: Seq<Seq<char>>,
)
    requires
        all_nonempty(acc),
    ensures
        all_nonempty(split_from(s, i, mode, cur, acc)),
    decreases s.len() - i,
{
    if i < 0 || i >= s.len() {
        if cur.len() > 0 {
            lemma_push_nonempty(acc, cur);
        }
    } else {
        let c = s[i];
        match mode {
            SplitMode::Plain => {
                if c == '\\' {
                    if i + 1 < s.len() {
                        lemma_split_from_nonempty(s, i + 2, SplitMode::Plain, cur.push(s[i + 1]), acc);
                    } else {
                        lemma_split_from_nonempty(s, i + 1, SplitMode::Plain, cur, acc);
                    }
                } else if c == '"' || c == '\'' {
                    lemma_split_from_nonempty(s, i + 1, SplitMode::Quoted { quote: c, escaped: false }, cur, acc);
                } else if c == ' ' {
                    if cur.len() > 0 {
                        lemma_push_nonempty(acc, cur);
                        lemma_split_from_nonempty(s, i + 1, SplitMode::Plain, Seq::empty(), acc.push(cur));
                    } else {
                        lemma_split_from_nonempty(s, i + 1, SplitMode::Plain, cur, acc);
                    }
                } else {
                    lemma_split_from_nonempty(s, i + 1, SplitMode::Plain, cur.push(c), acc);
                }
            },
            SplitMode::Quoted { quote, escaped } => {
                if escaped {
                    lemma_split_from_nonempty(s, i + 1, SplitMode::Quoted { quote, escaped: false }, cur.push(c), acc);
                } else if c == '\\' {
                    lemma_split_from_nonempty(s, i + 1, SplitMode::Quoted { quote, escaped: true }, cur, acc);
                } else if c == quote {
                    lemma_split_from_nonempty(s, i + 1, SplitMode::Plain, cur, acc);
                } else {
                    lemma_split_from_nonempty(s, i + 1, SplitMode::Quoted { quote, escaped }, cur.push(c), acc);
                }
            },
        }
    }
}

/// No argument produced by splitting a line is empty.
pub proof fn lemma_split_args_nonempty(s: Seq<char>)
    ensures
        all_nonempty(split_spec(s)),
{
    lemma_split_from_nonempty(s, 0, SplitMode::Plain, Seq::empty(), Seq::empty());
}

/// Inside a quote, text with neither the quote character nor a backslash
/// is taken as it is, up to the quote that closes it.
proof fn lemma_quoted_run(
    s: Seq<char>,
    i: int,
    j: int,
    q: char,
    cur: Seq<char>,
    acc: Seq<Seq<char>>,
)
    requires
        0 <= i <= j < s.len(),
        s[j] == q,
        q != '\\',
        forall|k: int| i <= k < j ==> #[trigger] s[k] != q && s[k] != '\\',
    ensures
        split_from(s, i, SplitMode::Quoted { quote: q, escaped: false }, cur, acc) == split_from(
            s,
            j + 1,
            SplitMode::Plain,
            cur + s.subrange(i, j),
            acc,
        ),
    decreases j - i,
{
    if i == j {
        assert(cur + s.subrange(i, j) =~= cur);
    } else {
        lemma_quoted_run(s, i + 1, j, q, cur.push(s[i]), acc);
        assert(cur.push(s[i]) + s.subrange(i + 1, j) =~= cur + s.subrange(i, j));
    }
}

/// A quoted argument is closed only by the quote that opened it: a line
/// that is one quote character, then a non-empty text with neither that
/// quote nor a backslash (any other quote character and spaces included),
/// then the same quote, is that text as one argument.
pub proof fn law_quote_closed_by_its_own_quote(q: char, t: Seq<char>)
    requires
        q == '"' || q == '\'',
        t.len() > 0,
        forall|k: int| 0 <= k < t.len() ==> #[trigger] t[k] != q && t[k] != '\\',
    ensures
        split_spec(seq![q] + t + seq![q]) == seq![t],
{
    let s = seq![q] + t + seq![q];
    assert forall|k: int| 1 <= k < t.len() + 1 implies #[trigger] s[k] != q && s[k] != '\\' by {
        assert(s[k] == t[k - 1]);
    }
    lemma_quoted_run(s, 1, t.len() as int + 1, q, Seq::empty(), Seq::empty());
    assert(Seq::<char>::empty() + s.subrange(1, t.len() as int + 1) =~= t);
    assert(split_from(s, 0, SplitMode::Plain, Seq::empty(), Seq::empty()) == split_from(
        s,
        1,
        SplitMode::Quoted { quote: q, escaped: false },
        Seq::empty(),
        Seq::empty(),
    ));
    assert(seq![Seq::<char>::empty().push(t[0])].len() == 1);
    assert(Seq::<Seq<char>>::empty().push(t) =~= seq![t]);
}

/// Splits a string input into arguments, respecting single quotes, double
/// quotes and backslash escaping.
pub fn split_input(input: &str) -> (r: Vec<String>)
    ensures
        views(r@) == split_spec(input@),
{
    let chars = chars_of(input);
    let n = chars.len();
    let mut result: Vec<String> = Vec::new();
    let mut current = String::new();
    let mut in_quote = false;
    let mut quote_char = ' ';
    let mut escaped = false;
    let mut i: usize = 0;
    proof {
        assert(views(result@) =~= Seq::<Seq<char>>::empty());
    }
    while i < n
        invariant
            n == chars@.len(),
            chars@ == input@,
            i <= n,
            !in_quote ==> !escaped,
            split_spec(input@) == split_from(
                chars@,
                i as int,
                if in_quote {
                    SplitMode::Quoted { quote: quote_char, escaped }
                } else {
                    SplitMode::Plain
                },
                current@,
                views(result@),
            ),
        decreases n - i,
    {
        let ch = chars[i];
        if !in_quote {
            if ch == '\\' {
                if i + 1 < n {
                    push_char(&mut current, chars[i + 1]);
                    i = i + 2;
                } else {
                    i = i + 1;
                }
            } else if ch == '"' || ch == '\'' {
                in_quote = true;
                quote_char = ch;
                escaped = false;
                i = i + 1;
            } else if ch == ' ' {
                if current.unicode_len() > 0 {
                    let ghost old_result = result@;
                    let finished = current.clone();
                    result.push(finished);
                    current = String::new();
                    proof {
                        assert(views(result@) =~= views(old_result).push(finished@));
                    }
                }
                i = i + 1;
            } else {
                push_char(&mut current, ch);
                i = i + 1;
            }
        } else {
            if escaped {
                push_char(&mut current, ch);
                escaped = false;
            } else if ch == '\\' {
                escaped = true;
            } else if ch == quote_char {
                in_quote = false;
            } else {
                push_char(&mut current, ch);
            }
            i = i + 1;
        }
    }
    if current.unicode_len() > 0 {
        let ghost old_result = result@;
        let finished = current.clone();
        result.push(finished);
        proof {
            assert(views(result@) =~= views(old_result).push(finished@));
        }
    }
    result
}

/// Splits an input line into owned argument strings.
pub fn split_input_string(input: &str) -> (r: Vec<String>)
    ensures
        views(r@) == split_spec(input@),
{
    split_input(input)
}

} // verus!
