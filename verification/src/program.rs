//! What a program knows of itself: the arguments it was started with, the
//! commands (nodes) it can dispatch to, and its settings; and the choices
//! it makes with them.
use vstd::prelude::*;
use crate::completion::{completion_candidates, default_completion, is_completing};
use crate::config::{ProgramStdoutSetting, ProgramUserContext, StructuralRendererSetting};
use crate::dispatch::{best_match, command_text, match_user_input, skip_args};
use crate::error::ProgramInternalExecuteError;
use crate::flag::clone_strings;
use crate::node::Node;
use crate::shell::ShellContext;
use crate::string_vec::StringVec;
use crate::suggest::{collect_items, simple_items, suggest_view, Suggest};
use crate::text::{joined, replace_char_spec, views, words};
use crate::completion::COMPLETION_SUBCOMMAND;

verus! {

/// The arguments, commands and settings of a program.
#[derive(Debug)]
pub struct Program {
    /// The arguments the program was started with.
    pub args: Vec<String>,
    /// The commands the program can dispatch to, in registration order.
    pub nodes: Vec<Node>,
    /// What the program prints.
    pub stdout_setting: ProgramStdoutSetting,
    /// What the user asked of the program besides the command.
    pub user_context: ProgramUserContext,
    /// The structural format results are rendered in.
    pub structural_renderer_name: StructuralRendererSetting,
}

/// A command node as it is typed: its levels separated by spaces.
pub open spec fn node_command(levels: Seq<Seq<char>>) -> Seq<char> {
    replace_char_spec(joined(levels, "."@), '.', ' ')
}

/// The typed form of each of `nodes`.
pub open spec fn node_commands(nodes: Seq<Node>) -> Seq<Seq<char>> {
    nodes.map_values(|n: Node| node_command(n@))
}

impl Program {
    /// The arguments the program was started with.
    pub open spec fn args_view(&self) -> Seq<Seq<char>> {
        views(self.args@)
    }

    /// The commands the program can dispatch to, in registration order.
    pub open spec fn nodes_view(&self) -> Seq<Node> {
        self.nodes@
    }

    /// A program started with `args`, with no command registered yet and
    /// the default settings.
    pub fn new_with_args<A>(args: A) -> (r: Program)
        where StringVec: From<A>,
        ensures
            exists|sv: StringVec| call_ensures(<StringVec as From<A>>::from, (args,), sv) && r.args_view() == sv@,
            r.nodes_view().len() == 0,
            r.stdout_setting == ProgramStdoutSetting::default_spec(),
            r.user_context == ProgramUserContext::default_spec(),
            r.structural_renderer_name == StructuralRendererSetting::Disable,
    {
        let sv = StringVec::from(args);
        let args = sv.into_vec();
        Program {
            args,
            nodes: Vec::new(),
            stdout_setting: ProgramStdoutSetting::default(),
            user_context: ProgramUserContext::default(),
            structural_renderer_name: StructuralRendererSetting::Disable,
        }
    }

    /// The arguments the program was started with.
    pub fn get_args(&self) -> (r: &[String])
        ensures
            views(r@) == self.args_view(),
    {
        self.args.as_slice()
    }

    /// Registers a command the program can dispatch to.
    pub fn register_node(&mut self, node: Node)
        ensures
            final(self).nodes_view() == old(self).nodes_view().push(node),
            final(self).args_view() == old(self).args_view(),
            final(self).stdout_setting == old(self).stdout_setting,
            final(self).user_context == old(self).user_context,
            final(self).structural_renderer_name == old(self).structural_renderer_name,
    {
        self.nodes.push(node);
    }

    /// Whether the program was started to answer a completion request.
    pub fn is_completing(&self) -> (r: bool)
        ensures
            r == (self.args_view().len() > 1 && self.args_view()[1] == COMPLETION_SUBCOMMAND@),
    {
        is_completing(self.args.as_slice())
    }

    /// The registered commands as they are typed, in registration order.
    pub fn get_nodes(&self) -> (r: Vec<String>)
        ensures
            views(r@) == node_commands(self.nodes_view()),
    {
        get_nodes(self)
    }

    /// The registered command that `args` names and the arguments after
    /// its words (see `match_user_input`); the index is that of the command
    /// in registration order.
    pub fn dispatch_args_dynamic<A>(&self, args: A) -> (r: Result<(usize, Vec<String>), ProgramInternalExecuteError>)
        where StringVec: From<A>,
        ensures
            exists|sv: StringVec|
                call_ensures(<StringVec as From<A>>::from, (args,), sv) && {
                    let b = best_match(
                        node_commands(self.nodes_view()),
                        command_text(sv@),
                        self.nodes_view().len() as int,
                    );
                    &&& b == -1 ==> (r matches Err(e) && e is DispatcherNotFound)
                    &&& b != -1 ==> (r matches Ok((i, rest)) && i == b && views(rest@) == skip_args(
                        sv@,
                        words(node_commands(self.nodes_view())[b]).len() as int,
                    ))
                },
    {
        let sv = StringVec::from(args);
        let ghost svc = sv;
        let list = sv.into_vec();
        let nodes = get_nodes(self);
        let r = match_user_input(&nodes, &list);
        proof {
            assert(call_ensures(<StringVec as From<A>>::from, (args,), svc));
            let ns = node_commands(self.nodes_view());
            assert(views(nodes@) == ns);
            assert(views(list@) == svc@);
            let b = best_match(ns, command_text(svc@), self.nodes_view().len() as int);
            if b != -1 {
                crate::dispatch::lemma_best_match_range(ns, command_text(svc@), ns.len() as int);
                assert(nodes@[b]@ == ns[b]);
            }
        }
        r
    }
}

/// Setup code that a program's author runs on the program before it starts
/// (registering commands, changing settings).
pub trait ProgramSetup: Sized {
    /// Sets `program` up.
    fn setup(self, program: &mut Program);
}

impl Program {
    /// Runs `setup` on the program: the program afterwards is what the
    /// author's `setup` makes of it.
    pub fn with_setup<S: ProgramSetup>(&mut self, setup: S)
        ensures
            exists|m: &mut Program|
                mut_ref_current(m) == *old(self) && mut_ref_future(m) == *final(self) && #[trigger] call_ensures(
                    S::setup,
                    (setup, m),
                    (),
                ),
    {
        S::setup(setup, self);
    }
}

/// The registered commands of `program` as they are typed (levels
/// separated by spaces), in registration order.
pub fn get_nodes(program: &Program) -> (r: Vec<String>)
    ensures
        views(r@) == node_commands(program.nodes_view()),
{
    let ghost ns = program.nodes@;
    let mut r: Vec<String> = Vec::new();
    let mut k: usize = 0;
    while k < program.nodes.len()
        invariant
            ns == program.nodes@,
            k <= ns.len(),
            views(r@) == node_commands(ns).take(k as int),
        decreases ns.len() - k,
    {
        let ghost prev = views(r@);
        r.push(program.nodes[k].command());
        proof {
            assert(views(r@) =~= prev.push(node_command(ns[k as int]@)));
            assert(node_commands(ns).take(k + 1) =~= node_commands(ns).take(k as int).push(node_command(ns[k as int]@)));
        }
        k = k + 1;
    }
    proof {
        assert(node_commands(ns).take(ns.len() as int) =~= node_commands(ns));
    }
    r
}

/// Completion of the program's commands.
pub struct CompletionHelper;

/// The words of a completion request after the program's name: what is
/// matched against the commands.
pub open spec fn completion_args(ws: Seq<Seq<char>>) -> Seq<Seq<char>> {
    if ws.len() == 0 {
        Seq::empty()
    } else {
        ws.skip(1)
    }
}

/// Whether `r` is the default completion of `program`'s commands for `ctx`.
pub open spec fn is_default_completion(program: Program, ctx: ShellContext, r: Suggest) -> bool {
    match completion_candidates(
        node_commands(program.nodes_view()),
        ctx.word_index as int,
        views(ctx.all_words@),
        ctx.current_word@,
    ) {
        None => r is FileCompletion,
        Some(s) => suggest_view(r) == Some(collect_items(simple_items(s))),
    }
}

impl CompletionHelper {
    /// The answer to a completion request. The words after the program's
    /// name are matched against the registered commands; when a command
    /// matches, `command_comp` is asked for that command's own suggestions
    /// (with its index and the words after the command), and its answer is
    /// used. When no command matches, or `command_comp` has none (the
    /// command could not be started), the default completion of the
    /// program's commands is used.
    pub fn exec_completion<F: Fn(usize, Vec<String>) -> Option<Suggest>>(
        program: &Program,
        ctx: &ShellContext,
        command_comp: F,
    ) -> (r: Suggest)
        requires
            forall|i: usize, rest: Vec<String>| call_requires(command_comp, (i, rest)),
        ensures
            ({
                let args = completion_args(views(ctx.all_words@));
                let cs = node_commands(program.nodes_view());
                let b = best_match(cs, command_text(args), cs.len() as int);
                &&& b == -1 ==> is_default_completion(*program, *ctx, r)
                &&& b != -1 ==> exists|rest: Vec<String>, c: Option<Suggest>|
                    #![trigger call_ensures(command_comp, (b as usize, rest), c)]
                    views(rest@) == skip_args(args, words(cs[b]).len() as int) && call_ensures(
                        command_comp,
                        (b as usize, rest),
                        c,
                    ) && match c {
                        Some(sg) => r == sg,
                        None => is_default_completion(*program, *ctx, r),
                    }
            }),
    {
        let ghost ws = views(ctx.all_words@);
        let mut args: Vec<String> = Vec::new();
        if ctx.all_words.len() > 0 {
            let mut k: usize = 1;
            proof {
                assert(views(args@) =~= ws.skip(1).take(0));
            }
            while k < ctx.all_words.len()
                invariant
                    ws == views(ctx.all_words@),
                    1 <= k <= ws.len(),
                    views(args@) == ws.skip(1).take(k - 1),
                decreases ws.len() - k,
            {
                let ghost prev = views(args@);
                args.push(ctx.all_words[k].clone());
                proof {
                    assert(views(args@) =~= prev.push(ws[k as int]));
                    assert(ws.skip(1).take(k as int) =~= ws.skip(1).take(k - 1).push(ws[k as int]));
                }
                k = k + 1;
            }
            proof {
                assert(ws.skip(1).take(k - 1) =~= ws.skip(1));
            }
        } else {
            proof {
                assert(views(args@) =~= Seq::<Seq<char>>::empty());
            }
        }
        assert(views(args@) == completion_args(ws));
        let nodes = get_nodes(program);
        let ghost cs = node_commands(program.nodes_view());
        let ghost b = best_match(cs, command_text(views(args@)), cs.len() as int);
        proof {
            crate::dispatch::lemma_best_match_range(cs, command_text(views(args@)), cs.len() as int);
        }
        let found = match_user_input(&nodes, &args);
        match found {
            Ok((i, rest)) => {
                proof {
                    assert(nodes@[b]@ == cs[b]);
                }
                let ghost rest_copy = rest;
                let c = command_comp(i, rest);
                proof {
                    assert(call_ensures(command_comp, (b as usize, rest_copy), c));
                }
                match c {
                    Some(sg) => sg,
                    None => default_completion(&nodes, ctx),
                }
            },
            Err(_) => default_completion(&nodes, ctx),
        }
    }
}

/// A slot that holds the running program: filled once, read while the
/// program runs, and emptied once it has finished.
pub struct ProgramCell<T> {
    inner: Option<T>,
}

impl<T> View for ProgramCell<T> {
    type V = Option<T>;

    /// What the slot holds, if anything.
    closed spec fn view(&self) -> Option<T> {
        self.inner
    }
}

impl<T> ProgramCell<T> {
    /// An empty slot.
    pub fn new() -> (r: ProgramCell<T>)
        ensures
            r@ is None,
    {
        ProgramCell { inner: None }
    }

    /// Fills the empty slot with `val`.
    pub fn set(&mut self, val: T)
        requires
            old(self)@ is None,
        ensures
            final(self)@ == Some(val),
    {
        self.inner = Some(val);
    }

    /// What the slot holds: `None` before it is filled and after it is
    /// emptied.
    pub fn get_raw(&self) -> (r: Option<&T>)
        ensures
            match self@ {
                Some(v) => r matches Some(x) && *x == v,
                None => r is None,
            },
    {
        match &self.inner {
            Some(v) => Some(v),
            None => None,
        }
    }

    /// Empties the slot; what it held.
    pub fn take(&mut self) -> (r: Option<T>)
        ensures
            r == old(self)@,
            final(self)@ is None,
    {
        let r = self.inner.take();
        r
    }
}

} // verus!
