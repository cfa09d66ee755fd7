//! Completion of command names: what the program suggests when no command
//! has its own completion for the words typed so far.
use vstd::prelude::*;
use crate::shell::{ShellContext, ShellFlag};
use crate::suggest::{collect_items, simple_items, suggest_view, ItemView, Suggest, SuggestItem};
use crate::text::{is_prefix, sep_parts, split_on, starts_with, str_eq, views};

verus! {

/// The completion a command offers for the words after it.
pub trait Completion {
    /// The command the completion belongs to.
    type Previous;

    /// The suggestions for the command line described by `ctx`.
    fn comp(ctx: &ShellContext) -> Suggest;
}

/// A value that can give back the arguments it was parsed from.
pub trait CompletionEntry {
    /// The arguments.
    fn get_input(self) -> Vec<String>;
}

/// The argument that turns a program run into a completion request.
pub const COMPLETION_SUBCOMMAND: &'static str = "__comp";

/// Whether the program was started to answer a completion request: its
/// first argument after the program name is `__comp`.
pub fn is_completing(args: &[String]) -> (r: bool)
    ensures
        r == (args@.len() > 1 && args@[1]@ == COMPLETION_SUBCOMMAND@),
{
    if args.len() > 1 {
        str_eq(args[1].as_str(), COMPLETION_SUBCOMMAND)
    } else {
        false
    }
}

/// The answer that asks the shell to complete file paths.
pub fn file_suggest() -> (r: Suggest)
    ensures
        r is FileCompletion,
{
    Suggest::FileCompletion
}

/// Whether a node is hidden from completion: its name starts with `_`.
pub open spec fn is_hidden(n: Seq<char>) -> bool {
    n.len() > 0 && n[0] == '_'
}

/// The nodes of `nodes[..k]` that are not hidden, in order.
pub open spec fn command_nodes(nodes: Seq<Seq<char>>, k: int) -> Seq<Seq<char>>
    decreases k,
{
    if k <= 0 {
        Seq::empty()
    } else if is_hidden(nodes[k - 1]) {
        command_nodes(nodes, k - 1)
    } else {
        command_nodes(nodes, k - 1).push(nodes[k - 1])
    }
}

/// The first word of each of `cmd[..k]`.
pub open spec fn heads(cmd: Seq<Seq<char>>, k: int) -> Seq<Seq<char>>
    decreases k,
{
    if k <= 0 {
        Seq::empty()
    } else {
        heads(cmd, k - 1).push(sep_parts(cmd[k - 1], ' ')[0])
    }
}

/// The first words of `cmd[..k]` that start with `w`.
pub open spec fn heads_with_prefix(cmd: Seq<Seq<char>>, w: Seq<char>, k: int) -> Seq<Seq<char>>
    decreases k,
{
    if k <= 0 {
        Seq::empty()
    } else if is_prefix(w, sep_parts(cmd[k - 1], ' ')[0]) {
        heads_with_prefix(cmd, w, k - 1).push(sep_parts(cmd[k - 1], ' ')[0])
    } else {
        heads_with_prefix(cmd, w, k - 1)
    }
}

/// Whether the typed path `ip` leads into the node with parts `p`: every
/// word but the last is a part, and the last starts the next part.
pub open spec fn path_matches(ip: Seq<Seq<char>>, p: Seq<Seq<char>>) -> bool {
    &&& 0 < ip.len() <= p.len()
    &&& forall|i: int| 0 <= i < ip.len() - 1 ==> #[trigger] ip[i] == p[i]
    &&& is_prefix(ip[ip.len() - 1], p[ip.len() - 1])
}

/// What the node with parts `p` suggests after the typed path `ip`: the
/// part being typed when it is not complete yet (or, at the node's last
/// part, while a word is being typed), else the part after it.
pub open spec fn next_words(ip: Seq<Seq<char>>, p: Seq<Seq<char>>, typing: bool) -> Seq<Seq<char>> {
    if !path_matches(ip, p) {
        Seq::empty()
    } else if ip.len() == p.len() {
        if typing {
            seq![p[ip.len() - 1]]
        } else {
            Seq::empty()
        }
    } else if ip[ip.len() - 1] != p[ip.len() - 1] {
        seq![p[ip.len() - 1]]
    } else {
        seq![p[ip.len() as int]]
    }
}

/// The suggestions of `cmd[..k]` after the typed path `ip`, in order.
pub open spec fn next_level(cmd: Seq<Seq<char>>, ip: Seq<Seq<char>>, typing: bool, k: int) -> Seq<Seq<char>>
    decreases k,
{
    if k <= 0 {
        Seq::empty()
    } else {
        next_level(cmd, ip, typing, k - 1) + next_words(ip, sep_parts(cmd[k - 1], ' '), typing)
    }
}

/// The non-empty words of `ws[..k]`, in order.
pub open spec fn nonempty_words(ws: Seq<Seq<char>>, k: int) -> Seq<Seq<char>>
    decreases k,
{
    if k <= 0 {
        Seq::empty()
    } else if ws[k - 1].len() == 0 {
        nonempty_words(ws, k - 1)
    } else {
        nonempty_words(ws, k - 1).push(ws[k - 1])
    }
}

/// The words typed before the cursor, after the program name, leaving out
/// empty ones.
pub open spec fn input_path(ws: Seq<Seq<char>>, word_index: int) -> Seq<Seq<char>> {
    let end = if word_index < ws.len() { word_index } else { ws.len() as int };
    if end < 1 {
        Seq::empty()
    } else {
        nonempty_words(ws.subrange(1, end), end - 1)
    }
}

/// The command words the default completion suggests for the nodes
/// `nodes` (command paths, words separated by spaces) and the shell state;
/// `None` when it leaves completion to the shell's file completion.
pub open spec fn completion_candidates(
    nodes: Seq<Seq<char>>,
    word_index: int,
    ws: Seq<Seq<char>>,
    current_word: Seq<char>,
) -> Option<Seq<Seq<char>>> {
    if word_index < 1 {
        None
    } else {
        let cmd = command_nodes(nodes, nodes.len() as int);
        let ip = input_path(ws, word_index);
        let s = if ip.len() == 0 {
            heads(cmd, cmd.len() as int)
        } else {
            let s1 = if ip.len() == 1 && current_word.len() > 0 {
                heads_with_prefix(cmd, ip[ip.len() - 1], cmd.len() as int)
            } else {
                Seq::empty()
            };
            if s1.len() > 0 {
                s1
            } else {
                next_level(cmd, ip, current_word.len() > 0, cmd.len() as int)
            }
        };
        if s.len() == 0 {
            None
        } else {
            Some(s)
        }
    }
}

proof fn lemma_typed_nodes_add_nothing(cmd: Seq<Seq<char>>, ip: Seq<Seq<char>>, k: int)
    requires
        0 <= k <= cmd.len(),
        forall|j: int|
            0 <= j < cmd.len() ==> sep_parts(#[trigger] cmd[j], ' ') == ip || !path_matches(ip, sep_parts(cmd[j], ' ')),
    ensures
        next_level(cmd, ip, false, k) == Seq::<Seq<char>>::empty(),
    decreases k,
{
    if k > 0 {
        lemma_typed_nodes_add_nothing(cmd, ip, k - 1);
        let p = sep_parts(cmd[k - 1], ' ');
        assert(next_words(ip, p, false) == Seq::<Seq<char>>::empty());
        assert(next_level(cmd, ip, false, k) =~= Seq::<Seq<char>>::empty());
    }
}

/// A command whose whole path has been typed offers nothing more while no
/// word is being typed: when the words typed so far are exactly the parts
/// of some visible nodes and lead into no other node, the default
/// completion leaves completion to the shell's file completion (so a
/// complete command is not suggested again).
pub proof fn law_typed_command_adds_nothing(
    nodes: Seq<Seq<char>>,
    word_index: int,
    ws: Seq<Seq<char>>,
    current_word: Seq<char>,
)
    requires
        word_index >= 1,
        current_word.len() == 0,
        input_path(ws, word_index).len() > 0,
        forall|j: int|
            0 <= j < command_nodes(nodes, nodes.len() as int).len() ==> sep_parts(
                #[trigger] command_nodes(nodes, nodes.len() as int)[j],
                ' ',
            ) == input_path(ws, word_index) || !path_matches(
                input_path(ws, word_index),
                sep_parts(command_nodes(nodes, nodes.len() as int)[j], ' '),
            ),
    ensures
        completion_candidates(nodes, word_index, ws, current_word) is None,
{
    let cmd = command_nodes(nodes, nodes.len() as int);
    let ip = input_path(ws, word_index);
    lemma_typed_nodes_add_nothing(cmd, ip, cmd.len() as int);
}

/// The nodes that are not hidden, in order.
fn visible_nodes(nodes: &Vec<String>) -> (r: Vec<String>)
    ensures
        views(r@) == command_nodes(views(nodes@), nodes@.len() as int),
{
    let ghost ns = views(nodes@);
    let mut r: Vec<String> = Vec::new();
    let mut k: usize = 0;
    while k < nodes.len()
        invariant
            ns == views(nodes@),
            k <= ns.len(),
            views(r@) == command_nodes(ns, k as int),
        decreases ns.len() - k,
    {
        let n = &nodes[k];
        proof {
            reveal_strlit("_");
            assert("_"@ =~= seq!['_']);
            if ns[k as int].len() > 0 {
                assert(ns[k as int].take(1) =~= seq![ns[k as int][0]]);
                if ns[k as int][0] != '_' {
                    assert(ns[k as int].take(1)[0] != "_"@[0]);
                }
            }
        }
        if !starts_with(n.as_str(), "_") {
            let ghost prev = views(r@);
            r.push(n.clone());
            proof {
                assert(views(r@) =~= prev.push(ns[k as int]));
            }
        }
        k = k + 1;
    }
    r
}

/// The words typed before the cursor, after the program name, leaving out
/// empty ones.
fn typed_path(ws: &Vec<String>, word_index: usize) -> (r: Vec<String>)
    ensures
        views(r@) == input_path(views(ws@), word_index as int),
{
    let ghost s = views(ws@);
    let end: usize = if word_index < ws.len() { word_index } else { ws.len() };
    let mut r: Vec<String> = Vec::new();
    if end < 1 {
        proof {
            assert(views(r@) =~= Seq::<Seq<char>>::empty());
        }
        return r;
    }
    let ghost sub = s.subrange(1, end as int);
    let mut k: usize = 1;
    while k < end
        invariant
            s == views(ws@),
            1 <= k <= end,
            end <= s.len(),
            sub == s.subrange(1, end as int),
            views(r@) == nonempty_words(sub, k - 1),
        decreases end - k,
    {
        let w = &ws[k];
        proof {
            assert(sub[k - 1] == s[k as int]);
        }
        if w.unicode_len() > 0 {
            let ghost prev = views(r@);
            r.push(w.clone());
            proof {
                assert(views(r@) =~= prev.push(s[k as int]));
            }
        }
        k = k + 1;
    }
    r
}

/// Whether the typed path `ip` leads into the node with parts `p`.
fn matches_path(ip: &Vec<String>, p: &Vec<String>) -> (r: bool)
    ensures
        r == path_matches(views(ip@), views(p@)),
{
    let ghost a = views(ip@);
    let ghost b = views(p@);
    if ip.len() == 0 || ip.len() > p.len() {
        return false;
    }
    let last = ip.len() - 1;
    let mut i: usize = 0;
    while i < last
        invariant
            a == views(ip@),
            b == views(p@),
            last == a.len() - 1,
            a.len() <= b.len(),
            i <= last,
            forall|j: int| 0 <= j < i ==> #[trigger] a[j] == b[j],
        decreases last - i,
    {
        if !str_eq(ip[i].as_str(), p[i].as_str()) {
            proof {
                assert(a[i as int] != b[i as int]);
            }
            return false;
        }
        i = i + 1;
    }
    starts_with(p[last].as_str(), ip[last].as_str())
}

/// The command words suggested when no command has its own completion:
/// the first words of the visible nodes when nothing is typed yet; while
/// the one typed word is the start of first words, those first words;
/// otherwise the next word of each node the typed path leads into. Hidden
/// nodes (starting with `_`) are never suggested, and when nothing is
/// found (or the cursor stands on the program name) the shell is asked to
/// complete file paths.
pub fn default_completion(nodes: &Vec<String>, ctx: &ShellContext) -> (r: Suggest)
    ensures
        match completion_candidates(views(nodes@), ctx.word_index as int, views(ctx.all_words@), ctx.current_word@) {
            None => r is FileCompletion,
            Some(s) => suggest_view(r) == Some(collect_items(simple_items(s))),
        },
{
    if ctx.word_index < 1 {
        return file_suggest();
    }
    let cmd = visible_nodes(nodes);
    let ghost c = views(cmd@);
    let ip = typed_path(&ctx.all_words, ctx.word_index);
    let ghost ipv = views(ip@);
    let mut suggestions: Vec<String> = Vec::new();
    if ip.len() == 0 {
        let mut k: usize = 0;
        while k < cmd.len()
            invariant
                c == views(cmd@),
                k <= c.len(),
                views(suggestions@) == heads(c, k as int),
            decreases c.len() - k,
        {
            let parts = split_on(cmd[k].as_str(), ' ');
            let ghost prev = views(suggestions@);
            suggestions.push(parts[0].clone());
            proof {
                assert(views(suggestions@) =~= prev.push(sep_parts(c[k as int], ' ')[0]));
            }
            k = k + 1;
        }
    } else {
        let last = ip.len() - 1;
        if ip.len() == 1 && ctx.current_word.unicode_len() > 0 {
            let mut k: usize = 0;
            while k < cmd.len()
                invariant
                    c == views(cmd@),
                    ipv == views(ip@),
                    last == ipv.len() - 1,
                    k <= c.len(),
                    views(suggestions@) == heads_with_prefix(c, ipv[last as int], k as int),
                decreases c.len() - k,
            {
                let parts = split_on(cmd[k].as_str(), ' ');
                if starts_with(parts[0].as_str(), ip[last].as_str()) {
                    let ghost prev = views(suggestions@);
                    suggestions.push(parts[0].clone());
                    proof {
                        assert(views(suggestions@) =~= prev.push(sep_parts(c[k as int], ' ')[0]));
                    }
                }
                k = k + 1;
            }
            if suggestions.len() > 0 {
                return Suggest::from_strings(suggestions);
            }
        }
        let typing = ctx.current_word.unicode_len() > 0;
        let ghost base = views(suggestions@);
        proof {
            assert(base =~= next_level(c, ipv, typing, 0));
        }
        let mut k: usize = 0;
        while k < cmd.len()
            invariant
                c == views(cmd@),
                ipv == views(ip@),
                ipv.len() > 0,
                last == ipv.len() - 1,
                k <= c.len(),
                views(suggestions@) == next_level(c, ipv, typing, k as int),
            decreases c.len() - k,
        {
            let parts = split_on(cmd[k].as_str(), ' ');
            let ghost p = views(parts@);
            let ghost prev = views(suggestions@);
            if matches_path(&ip, &parts) {
                if ip.len() == parts.len() {
                    if typing {
                        suggestions.push(parts[last].clone());
                        proof {
                            assert(views(suggestions@) =~= prev + seq![p[last as int]]);
                        }
                    } else {
                        proof {
                            assert(views(suggestions@) =~= prev + Seq::<Seq<char>>::empty());
                        }
                    }
                } else if !str_eq(ip[last].as_str(), parts[last].as_str()) {
                    suggestions.push(parts[last].clone());
                    proof {
                        assert(views(suggestions@) =~= prev + seq![p[last as int]]);
                    }
                } else {
                    suggestions.push(parts[ip.len()].clone());
                    proof {
                        assert(views(suggestions@) =~= prev + seq![p[ipv.len() as int]]);
                    }
                }
            } else {
                proof {
                    assert(views(suggestions@) =~= prev + Seq::<Seq<char>>::empty());
                }
            }
            k = k + 1;
        }
    }
    if suggestions.len() == 0 {
        file_suggest()
    } else {
        Suggest::from_strings(suggestions)
    }
}

/// How the suggestions are written for a shell.
#[derive(Debug, Clone, Copy, PartialEq, Eq, Structural)]
pub enum SuggestFormat {
    /// The text alone.
    Plain,
    /// The text, then the description as `$(description)` (zsh, PowerShell).
    Dollar,
    /// The text, then a tab and the description (fish).
    Tab,
}

/// The format a shell reads suggestions in.
pub open spec fn format_for(shell: ShellFlag) -> SuggestFormat {
    match shell {
        ShellFlag::Zsh | ShellFlag::Powershell => SuggestFormat::Dollar,
        ShellFlag::Fish => SuggestFormat::Tab,
        _ => SuggestFormat::Plain,
    }
}

/// One suggestion written as a line.
pub open spec fn suggest_line(it: ItemView, f: SuggestFormat) -> Seq<char> {
    match (it.1, f) {
        (Some(d), SuggestFormat::Dollar) => it.0 + "$("@ + d + ")"@,
        (Some(d), SuggestFormat::Tab) => it.0 + "\t"@ + d,
        _ => it.0,
    }
}

/// The lines a completion answers with: `_file_` to ask the shell for file
/// completion, else one line per suggestion, in text order, in the shell's
/// format.
pub open spec fn suggest_output(shell: ShellFlag, s: Suggest) -> Seq<Seq<char>> {
    match suggest_view(s) {
        None => seq!["_file_"@],
        Some(items) => items.map_values(|it: ItemView| suggest_line(it, format_for(shell))),
    }
}

/// The format a shell reads suggestions in.
pub fn shell_format(shell: &ShellFlag) -> (r: SuggestFormat)
    ensures
        r == format_for(*shell),
{
    match shell {
        ShellFlag::Zsh | ShellFlag::Powershell => SuggestFormat::Dollar,
        ShellFlag::Fish => SuggestFormat::Tab,
        _ => SuggestFormat::Plain,
    }
}

fn line_of(it: &SuggestItem, f: SuggestFormat) -> (r: String)
    ensures
        r@ == suggest_line(it@, f),
{
    match (it, f) {
        (SuggestItem::WithDescription(t, d), SuggestFormat::Dollar) => {
            let a = crate::text::concat(t.as_str(), "$(");
            let b = crate::text::concat(a.as_str(), d.as_str());
            crate::text::concat(b.as_str(), ")")
        },
        (SuggestItem::WithDescription(t, d), SuggestFormat::Tab) => {
            let a = crate::text::concat(t.as_str(), "\t");
            crate::text::concat(a.as_str(), d.as_str())
        },
        (SuggestItem::WithDescription(t, _), SuggestFormat::Plain) => t.clone(),
        (SuggestItem::Simple(t), _) => t.clone(),
    }
}

/// The lines that answer a completion request for `shell`.
pub fn render_suggest_lines(shell: &ShellFlag, suggest: &Suggest) -> (r: Vec<String>)
    ensures
        views(r@) == suggest_output(*shell, *suggest),
{
    match suggest.as_set() {
        None => {
            let mut r: Vec<String> = Vec::new();
            r.push(crate::text::owned("_file_"));
            proof {
                assert(views(r@) =~= seq!["_file_"@]);
            }
            r
        },
        Some(set) => {
            let f = shell_format(shell);
            let items = set.items();
            let ghost all = items@.map_values(|it: SuggestItem| it@);
            let mut r: Vec<String> = Vec::new();
            let mut k: usize = 0;
            while k < items.len()
                invariant
                    all == items@.map_values(|it: SuggestItem| it@),
                    f == format_for(*shell),
                    k <= items@.len(),
                    views(r@) =~= all.take(k as int).map_values(|it: ItemView| suggest_line(it, f)),
                decreases items@.len() - k,
            {
                let line = line_of(&items[k], f);
                let ghost before = views(r@);
                r.push(line);
                proof {
                    assert(views(r@) =~= before.push(line@));
                    assert(all.take(k + 1) =~= all.take(k as int).push(all[k as int]));
                }
                k = k + 1;
            }
            proof {
                assert(all.take(k as int) =~= all);
            }
            r
        },
    }
}

} // verus!
