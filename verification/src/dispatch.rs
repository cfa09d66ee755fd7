//! Choosing the command that a command line names: the registered node
//! that the typed words start with, the most specific one when several do.
use vstd::prelude::*;
use crate::error::ProgramInternalExecuteError;
use crate::text::{concat, is_prefix, join, joined, starts_with, views, words, split_whitespace};

verus! {

/// The command line as it is matched against nodes: the arguments joined
/// with spaces, and one space after them.
pub open spec fn command_text(args: Seq<Seq<char>>) -> Seq<char> {
    joined(args, " "@) + " "@
}

/// Whether the node (its words separated by spaces) starts the command
/// line: the line starts with the node followed by a space.
pub open spec fn node_matches(node: Seq<char>, cmd: Seq<char>) -> bool {
    is_prefix(node + " "@, cmd)
}

/// How many bytes UTF-8 takes for `c`.
pub open spec fn char_utf8_len(c: char) -> nat {
    if (c as u32) < 0x80 {
        1
    } else if (c as u32) < 0x800 {
        2
    } else if (c as u32) < 0x10000 {
        3
    } else {
        4
    }
}

/// How many bytes UTF-8 takes for `s`: the length of a Rust string.
pub open spec fn utf8_len(s: Seq<char>) -> nat
    decreases s.len(),
{
    if s.len() == 0 {
        0
    } else {
        utf8_len(s.drop_last()) + char_utf8_len(s.last())
    }
}

/// Among `nodes[..k]` that start the command line, the index of the
/// longest, the last one of equal length winning; -1 when none matches.
pub open spec fn best_match(nodes: Seq<Seq<char>>, cmd: Seq<char>, k: int) -> int
    decreases k,
{
    if k <= 0 {
        -1
    } else {
        let b = best_match(nodes, cmd, k - 1);
        if node_matches(nodes[k - 1], cmd) && (b == -1 || utf8_len(nodes[b]) <= utf8_len(nodes[k - 1])) {
            k - 1
        } else {
            b
        }
    }
}

/// `args` without its first `n` elements (all of them when there are fewer).
pub open spec fn skip_args(args: Seq<Seq<char>>, n: int) -> Seq<Seq<char>> {
    if n >= args.len() {
        Seq::empty()
    } else {
        args.skip(n)
    }
}

pub proof fn lemma_best_match_range(nodes: Seq<Seq<char>>, cmd: Seq<char>, k: int)
    requires
        0 <= k <= nodes.len(),
    ensures
        -1 <= best_match(nodes, cmd, k) < k,
        best_match(nodes, cmd, k) != -1 ==> node_matches(nodes[best_match(nodes, cmd, k)], cmd),
    decreases k,
{
    if k > 0 {
        lemma_best_match_range(nodes, cmd, k - 1);
    }
}

/// The node chosen for a command line is one that starts it, and no other
/// node that starts it is longer; no node is chosen only when none starts
/// it.
pub proof fn law_match_is_longest(nodes: Seq<Seq<char>>, cmd: Seq<char>, k: int)
    requires
        0 <= k <= nodes.len(),
    ensures
        best_match(nodes, cmd, k) == -1 <==> forall|j: int| 0 <= j < k ==> !node_matches(#[trigger] nodes[j], cmd),
        best_match(nodes, cmd, k) != -1 ==> node_matches(nodes[best_match(nodes, cmd, k)], cmd),
        best_match(nodes, cmd, k) != -1 ==> forall|j: int|
            0 <= j < k && node_matches(#[trigger] nodes[j], cmd) ==> utf8_len(nodes[j]) <= utf8_len(
                nodes[best_match(nodes, cmd, k)],
            ),
    decreases k,
{
    lemma_best_match_range(nodes, cmd, k);
    if k > 0 {
        law_match_is_longest(nodes, cmd, k - 1);
        lemma_best_match_range(nodes, cmd, k - 1);
    }
}

/// How many bytes the string takes in UTF-8.
pub fn utf8_length(s: &str) -> (r: u128)
    ensures
        r == utf8_len(s@),
{
    let n = s.unicode_len();
    let mut total: u128 = 0;
    let mut i: usize = 0;
    while i < n
        invariant
            n == s@.len(),
            i <= n,
            total == utf8_len(s@.take(i as int)),
            total <= 4 * i,
        decreases n - i,
    {
        let c = s.get_char(i);
        let code = c as u32;
        let w: u128 = if code < 0x80 {
            1
        } else if code < 0x800 {
            2
        } else if code < 0x10000 {
            3
        } else {
            4
        };
        proof {
            assert(s@.take(i + 1).drop_last() =~= s@.take(i as int));
        }
        total = total + w;
        i = i + 1;
    }
    proof {
        assert(s@.take(n as int) =~= s@);
    }
    total
}

/// The registered node that the arguments name, and the arguments after
/// its words. Each node is written with its words separated by spaces; a
/// node matches when the arguments, joined with spaces, start with its
/// words. Of several matching nodes the longest wins, and of equally long
/// ones the last. When none matches the dispatcher is missing.
pub fn match_user_input(nodes: &Vec<String>, args: &Vec<String>) -> (r: Result<(usize, Vec<String>), ProgramInternalExecuteError>)
    ensures
        ({
            let b = best_match(views(nodes@), command_text(views(args@)), nodes@.len() as int);
            &&& b == -1 ==> (r matches Err(e) && e is DispatcherNotFound)
            &&& b != -1 ==> (r matches Ok((i, rest)) && i == b && views(rest@) == skip_args(
                views(args@),
                words(nodes@[b]@).len() as int,
            ))
        }),
{
    let ghost ns = views(nodes@);
    let joined_args = join(args, " ");
    let command = concat(joined_args.as_str(), " ");
    let ghost cmd = command@;
    let mut best: Option<usize> = None;
    let mut best_len: u128 = 0;
    let mut k: usize = 0;
    while k < nodes.len()
        invariant
            ns == views(nodes@),
            cmd == command_text(views(args@)),
            cmd == command@,
            k <= ns.len(),
            match best {
                None => best_match(ns, cmd, k as int) == -1,
                Some(b) => best_match(ns, cmd, k as int) == b as int && b < k && best_len == utf8_len(ns[b as int]),
            },
        decreases ns.len() - k,
    {
        let with_space = concat(nodes[k].as_str(), " ");
        let hit = starts_with(command.as_str(), with_space.as_str());
        proof {
            assert(with_space@ == ns[k as int] + " "@);
            assert(hit == node_matches(ns[k as int], cmd));
            lemma_best_match_range(ns, cmd, k as int);
        }
        if hit {
            let len = utf8_length(nodes[k].as_str());
            match best {
                None => {
                    best = Some(k);
                    best_len = len;
                },
                Some(_) => {
                    if best_len <= len {
                        best = Some(k);
                        best_len = len;
                    }
                },
            }
        }
        k = k + 1;
    }
    match best {
        None => Err(ProgramInternalExecuteError::DispatcherNotFound),
        Some(b) => {
            let prefix_len = split_whitespace(nodes[b].as_str()).len();
            let mut rest: Vec<String> = Vec::new();
            let mut i: usize = prefix_len;
            let ghost a = views(args@);
            proof {
                assert(views(rest@) =~= Seq::<Seq<char>>::empty());
            }
            while i < args.len()
                invariant
                    a == views(args@),
                    prefix_len <= i,
                    i <= a.len() || i == prefix_len,
                    prefix_len < a.len() ==> views(rest@) =~= a.subrange(prefix_len as int, i as int),
                    prefix_len >= a.len() ==> views(rest@).len() == 0,
                decreases a.len() - i,
            {
                let ghost prev = views(rest@);
                rest.push(args[i].clone());
                proof {
                    assert(views(rest@) =~= a.subrange(prefix_len as int, i + 1));
                }
                i = i + 1;
            }
            proof {
                if prefix_len < a.len() {
                    assert(a.subrange(prefix_len as int, a.len() as int) =~= a.skip(prefix_len as int));
                } else {
                    assert(views(rest@) =~= Seq::<Seq<char>>::empty());
                }
            }
            Ok((b, rest))
        },
    }
}

} // verus!
