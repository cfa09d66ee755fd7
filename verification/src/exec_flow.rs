//! The course of one run of a program, as a machine that decides each next
//! step: the caller performs the step (calls a hook, dispatches, runs a
//! chain, renders) and reports what happened.
//!
//! A run calls the pre-dispatch hook, dispatches the arguments, calls the
//! post-dispatch hook, and then either renders help (when help was asked
//! for) or runs chains until a value is rendered. A value with neither a
//! chain nor a renderer is replaced by a "renderer not found" value; when
//! that happens twice in a row the run ends with an empty result. Every
//! ending runs the finish hook first, and any hook may set the exit code or
//! end the run at once by routing a value to rendering or to help.
use vstd::prelude::*;
use crate::controls::{control_fold, control_units, handle_program_control, NextProcess, ProgramControlUnit, ProgramControls};
use crate::error::{ChainProcessError, ProgramInternalExecuteError};

verus! {

/// The hooks a run calls.
#[derive(Debug, Clone, Copy, PartialEq, Eq, Structural)]
pub enum HookPoint {
    PreDispatch,
    PostDispatch,
    PreChain,
    PostChain,
    PreRender,
    PostRender,
    Finish,
}

/// What a run waits for.
#[derive(Debug, Clone, Copy, PartialEq, Eq, Structural)]
pub enum ExecStage {
    /// Nothing has happened yet.
    Start,
    /// The controls of the pre-dispatch hook.
    PreDispatch,
    /// The outcome of dispatching the arguments.
    Dispatch,
    /// The controls of the post-dispatch hook.
    PostDispatch,
    /// Help for the current value has been rendered.
    HelpRender,
    /// The controls of the finish hook after help.
    HelpFinish,
    /// Whether the current value has a chain and a renderer.
    Inspect,
    /// The "renderer not found" value has been built.
    Built,
    /// The controls of the pre-chain hook.
    PreChain,
    /// The outcome of the chain.
    Chain,
    /// The controls of the post-chain hook.
    PostChain,
    /// The current value has been rendered, as the chain asked.
    ChainRender,
    /// The controls of the pre-render hook.
    PreRender,
    /// The current value has been rendered.
    Render,
    /// The controls of the post-render hook.
    PostRender,
    /// The controls of the finish hook after rendering.
    RenderFinish,
    /// The controls of the finish hook after a chain failed.
    FailFinish,
    /// The controls of the finish hook when no value could be rendered.
    EndFinish,
    /// The run is over.
    Done,
}

/// The state of a run.
pub struct ExecState {
    pub stage: ExecStage,
    /// The exit code so far.
    pub exit_code: i32,
    /// Whether help was asked for.
    pub help: bool,
    /// Whether the last value had neither a chain nor a renderer.
    pub stop_next: bool,
    /// Whether the current round of the chain loop is its last chance.
    pub final_exec: bool,
    /// The error a failed chain ends the run with, once the finish hook
    /// has run.
    pub failure: Option<ProgramInternalExecuteError>,
}

/// What the caller reports.
pub enum ExecEvent<A> {
    /// The run starts.
    Begin,
    /// A hook returned these controls.
    Controls(ProgramControls<A>),
    /// The arguments were dispatched; on success the dispatched value is
    /// now the current value.
    Dispatched(Result<(), ProgramInternalExecuteError>),
    /// Whether the current value has a chain and a renderer.
    Inspected { has_chain: bool, has_renderer: bool },
    /// The chain ran; on success its output is now the current value.
    ChainRan(Result<NextProcess, ChainProcessError>),
    /// The asked rendering is done and kept as the pending result.
    Rendered,
    /// The "renderer not found" value is now the current value.
    Built,
}

/// What the caller does next.
#[derive(Debug)]
pub enum ExecCommand<A> {
    /// Call the hook and report its controls.
    CallHook(HookPoint),
    /// Dispatch the arguments and report the outcome.
    Dispatch,
    /// Report whether the current value has a chain and a renderer.
    Inspect,
    /// Run the chain of the current value and report the outcome.
    RunChain,
    /// Render the current value as the pending result.
    RenderCurrent,
    /// Render help for the current value as the pending result.
    RenderHelpCurrent,
    /// Replace the current value by a "renderer not found" value built from
    /// it.
    BuildRendererNotFound,
    /// End the run with this value rendered (between the pre-render and
    /// post-render hooks, whose controls are not taken) and this exit code.
    RenderRouted(A, i32),
    /// End the run with help rendered for this value and this exit code.
    HelpRouted(A, i32),
    /// End the run with the pending result and this exit code.
    ReturnPending(i32),
    /// End the run with an empty result and this exit code.
    ReturnEmpty(i32),
    /// End the run with this error.
    Fail(ProgramInternalExecuteError),
}

/// One decision: a value that replaces the current value first (when a
/// hook routed one to the chain), and the command.
pub struct ExecStep<A> {
    pub replace: Option<A>,
    pub command: ExecCommand<A>,
}

/// The state of a run that has not started.
pub open spec fn initial_state(help: bool) -> ExecState {
    ExecState {
        stage: ExecStage::Start,
        exit_code: 0,
        help,
        stop_next: false,
        final_exec: false,
        failure: None,
    }
}

/// The command that ends a run at an instruction to render or to show
/// help.
pub open spec fn routed<A>(u: ProgramControlUnit<A>, code: i32) -> ExecCommand<A> {
    match u {
        ProgramControlUnit::RouteToRender(a) => ExecCommand::RenderRouted(a, code),
        ProgramControlUnit::RouteToHelp(a) => ExecCommand::HelpRouted(a, code),
        _ => ExecCommand::ReturnPending(code),
    }
}

/// What follows a hook that does not end the run: a command, or the end
/// of the run with the pending or an empty result and the exit code the
/// hook left.
pub enum HookNext<A> {
    Go(ExecCommand<A>),
    ReturnPending,
    ReturnEmpty,
}

pub open spec fn resolve_next<A>(n: HookNext<A>, code: i32) -> ExecCommand<A> {
    match n {
        HookNext::Go(cmd) => cmd,
        HookNext::ReturnPending => ExecCommand::ReturnPending(code),
        HookNext::ReturnEmpty => ExecCommand::ReturnEmpty(code),
    }
}

/// The decision after a hook's controls: when an instruction ends the run,
/// the run ends there; otherwise the exit code is updated, a value routed
/// to the chain replaces the current one (where the hook has one), and the
/// run goes on to `next`.
pub open spec fn after_hook<A>(
    s: ExecState,
    c: ProgramControls<A>,
    keeps_route: bool,
    next_stage: ExecStage,
    next: HookNext<A>,
) -> (ExecState, ExecStep<A>) {
    let f = control_fold(control_units(c), s.exit_code, None);
    match f.2 {
        Some(u) => (
            ExecState { stage: ExecStage::Done, exit_code: f.0, ..s },
            ExecStep { replace: None, command: routed(u, f.0) },
        ),
        None => (
            ExecState { stage: next_stage, exit_code: f.0, ..s },
            ExecStep { replace: if keeps_route { f.1 } else { None }, command: resolve_next(next, f.0) },
        ),
    }
}

/// The next round of the chain loop: it ends after a round that was the
/// last chance and found nothing to render, else it inspects the current
/// value again.
pub open spec fn loop_stage(s: ExecState) -> ExecStage {
    if s.final_exec && s.stop_next {
        ExecStage::EndFinish
    } else {
        ExecStage::Inspect
    }
}

pub open spec fn loop_command<A>(s: ExecState) -> ExecCommand<A> {
    if s.final_exec && s.stop_next {
        ExecCommand::CallHook(HookPoint::Finish)
    } else {
        ExecCommand::Inspect
    }
}

/// Whether the run, where it stands, expects this event.
pub open spec fn expects<A>(s: ExecState, e: ExecEvent<A>) -> bool {
    let stage = s.stage;
    match e {
        ExecEvent::Begin => stage is Start,
        ExecEvent::Controls(_) => stage is PreDispatch || stage is PostDispatch || stage is HelpFinish
            || stage is PreChain || stage is PostChain || stage is PreRender || stage is PostRender
            || stage is RenderFinish || stage is EndFinish || (stage is FailFinish && s.failure is Some),
        ExecEvent::Dispatched(_) => stage is Dispatch,
        ExecEvent::Inspected { .. } => stage is Inspect,
        ExecEvent::ChainRan(_) => stage is Chain,
        ExecEvent::Rendered => stage is HelpRender || stage is ChainRender || stage is Render,
        ExecEvent::Built => stage is Built,
    }
}

/// The next state and decision of a run.
pub open spec fn exec_next<A>(s: ExecState, e: ExecEvent<A>) -> (ExecState, ExecStep<A>) {
    match e {
        ExecEvent::Begin => (
            ExecState { stage: ExecStage::PreDispatch, ..s },
            ExecStep { replace: None, command: ExecCommand::CallHook(HookPoint::PreDispatch) },
        ),
        ExecEvent::Controls(c) => match s.stage {
            ExecStage::PreDispatch => after_hook(s, c, false, ExecStage::Dispatch, HookNext::Go(ExecCommand::Dispatch)),
            ExecStage::PostDispatch => if s.help {
                after_hook(s, c, true, ExecStage::HelpRender, HookNext::Go(ExecCommand::RenderHelpCurrent))
            } else {
                after_hook(s, c, true, ExecStage::Inspect, HookNext::Go(ExecCommand::Inspect))
            },
            ExecStage::PreChain => after_hook(s, c, true, ExecStage::Chain, HookNext::Go(ExecCommand::RunChain)),
            ExecStage::PostChain => after_hook(
                ExecState { final_exec: s.stop_next, ..s },
                c,
                true,
                loop_stage(s),
                HookNext::Go(loop_command(s)),
            ),
            ExecStage::PreRender => after_hook(s, c, true, ExecStage::Render, HookNext::Go(ExecCommand::RenderCurrent)),
            ExecStage::PostRender => after_hook(
                s,
                c,
                false,
                ExecStage::RenderFinish,
                HookNext::Go(ExecCommand::CallHook(HookPoint::Finish)),
            ),
            ExecStage::HelpFinish => after_hook(s, c, false, ExecStage::Done, HookNext::ReturnPending),
            ExecStage::RenderFinish => after_hook(s, c, false, ExecStage::Done, HookNext::ReturnPending),
            ExecStage::EndFinish => after_hook(s, c, true, ExecStage::Done, HookNext::ReturnEmpty),
            _ => match s.failure {
                Some(err) => after_hook(
                    ExecState { failure: None, ..s },
                    c,
                    false,
                    ExecStage::Done,
                    HookNext::Go(ExecCommand::Fail(err)),
                ),
                None => vstd::pervasive::arbitrary(),
            },
        },
        ExecEvent::Dispatched(res) => match res {
            Ok(()) => (
                ExecState { stage: ExecStage::PostDispatch, ..s },
                ExecStep { replace: None, command: ExecCommand::CallHook(HookPoint::PostDispatch) },
            ),
            Err(err) => (
                ExecState { stage: ExecStage::Done, ..s },
                ExecStep { replace: None, command: ExecCommand::Fail(err) },
            ),
        },
        ExecEvent::Inspected { has_chain, has_renderer } => if has_chain {
            (
                ExecState { stage: ExecStage::PreChain, ..s },
                ExecStep { replace: None, command: ExecCommand::CallHook(HookPoint::PreChain) },
            )
        } else if has_renderer {
            (
                ExecState { stage: ExecStage::PreRender, ..s },
                ExecStep { replace: None, command: ExecCommand::CallHook(HookPoint::PreRender) },
            )
        } else {
            (
                ExecState { stage: ExecStage::Built, stop_next: true, ..s },
                ExecStep { replace: None, command: ExecCommand::BuildRendererNotFound },
            )
        },
        ExecEvent::ChainRan(res) => match res {
            Ok(NextProcess::Renderer) => (
                ExecState { stage: ExecStage::ChainRender, ..s },
                ExecStep { replace: None, command: ExecCommand::RenderCurrent },
            ),
            Ok(NextProcess::Chain) => (
                ExecState { stage: ExecStage::PostChain, ..s },
                ExecStep { replace: None, command: ExecCommand::CallHook(HookPoint::PostChain) },
            ),
            Err(err) => (
                ExecState {
                    stage: ExecStage::FailFinish,
                    failure: Some(
                        match err {
                            ChainProcessError::Other(m) => ProgramInternalExecuteError::Other(m),
                            ChainProcessError::IO(io) => ProgramInternalExecuteError::IO(io),
                        },
                    ),
                    ..s
                },
                ExecStep { replace: None, command: ExecCommand::CallHook(HookPoint::Finish) },
            ),
        },
        ExecEvent::Rendered => match s.stage {
            ExecStage::Render => (
                ExecState { stage: ExecStage::PostRender, ..s },
                ExecStep { replace: None, command: ExecCommand::CallHook(HookPoint::PostRender) },
            ),
            ExecStage::HelpRender => (
                ExecState { stage: ExecStage::HelpFinish, ..s },
                ExecStep { replace: None, command: ExecCommand::CallHook(HookPoint::Finish) },
            ),
            _ => (
                ExecState { stage: ExecStage::RenderFinish, ..s },
                ExecStep { replace: None, command: ExecCommand::CallHook(HookPoint::Finish) },
            ),
        },
        ExecEvent::Built => (
            ExecState { stage: loop_stage(s), final_exec: s.stop_next, ..s },
            ExecStep { replace: None, command: loop_command(s) },
        ),
    }
}

fn routed_command<A>(u: ProgramControlUnit<A>, code: i32) -> (r: ExecCommand<A>)
    ensures
        r == routed(u, code),
{
    match u {
        ProgramControlUnit::RouteToRender(a) => ExecCommand::RenderRouted(a, code),
        ProgramControlUnit::RouteToHelp(a) => ExecCommand::HelpRouted(a, code),
        _ => ExecCommand::ReturnPending(code),
    }
}

/// Takes a hook's controls and decides what follows.
fn take_hook<A>(
    s: ExecState,
    c: ProgramControls<A>,
    keeps_route: bool,
    next_stage: ExecStage,
    next: HookNext<A>,
) -> (r: (ExecState, ExecStep<A>))
    ensures
        r == after_hook(s, c, keeps_route, next_stage, next),
{
    let o = handle_program_control(c, s.exit_code);
    let code = o.exit_code;
    match o.stop {
        Some(u) => (
            ExecState { stage: ExecStage::Done, exit_code: code, ..s },
            ExecStep { replace: None, command: routed_command(u, code) },
        ),
        None => {
            let command = match next {
                HookNext::Go(cmd) => cmd,
                HookNext::ReturnPending => ExecCommand::ReturnPending(code),
                HookNext::ReturnEmpty => ExecCommand::ReturnEmpty(code),
            };
            let replace = if keeps_route {
                o.route_to_chain
            } else {
                None
            };
            (ExecState { stage: next_stage, exit_code: code, ..s }, ExecStep { replace, command })
        },
    }
}

impl ExecState {
    /// A run that has not started; `help` says whether help was asked for.
    pub fn new(help: bool) -> (r: ExecState)
        ensures
            r == initial_state(help),
    {
        ExecState { stage: ExecStage::Start, exit_code: 0, help, stop_next: false, final_exec: false, failure: None }
    }

    /// Whether the run expects this event now.
    pub fn expects_event<A>(&self, e: &ExecEvent<A>) -> (r: bool)
        ensures
            r == expects(*self, *e),
    {
        let stage = self.stage;
        match e {
            ExecEvent::Begin => stage == ExecStage::Start,
            ExecEvent::Controls(_) => stage == ExecStage::PreDispatch || stage == ExecStage::PostDispatch || stage
                == ExecStage::HelpFinish || stage == ExecStage::PreChain || stage == ExecStage::PostChain || stage
                == ExecStage::PreRender || stage == ExecStage::PostRender || stage == ExecStage::RenderFinish
                || stage == ExecStage::EndFinish || (stage == ExecStage::FailFinish && self.failure.is_some()),
            ExecEvent::Dispatched(_) => stage == ExecStage::Dispatch,
            ExecEvent::Inspected { .. } => stage == ExecStage::Inspect,
            ExecEvent::ChainRan(_) => stage == ExecStage::Chain,
            ExecEvent::Rendered => stage == ExecStage::HelpRender || stage == ExecStage::ChainRender || stage
                == ExecStage::Render,
            ExecEvent::Built => stage == ExecStage::Built,
        }
    }

    /// The next state of the run and what to do, given what happened.
    pub fn step<A>(self, e: ExecEvent<A>) -> (r: (ExecState, ExecStep<A>))
        requires
            expects(self, e),
        ensures
            r == exec_next(self, e),
    {
        match e {
            ExecEvent::Begin => (
                ExecState { stage: ExecStage::PreDispatch, ..self },
                ExecStep { replace: None, command: ExecCommand::CallHook(HookPoint::PreDispatch) },
            ),
            ExecEvent::Controls(c) => match self.stage {
                ExecStage::PreDispatch => take_hook(
                    self,
                    c,
                    false,
                    ExecStage::Dispatch,
                    HookNext::Go(ExecCommand::Dispatch),
                ),
                ExecStage::PostDispatch => if self.help {
                    take_hook(self, c, true, ExecStage::HelpRender, HookNext::Go(ExecCommand::RenderHelpCurrent))
                } else {
                    take_hook(self, c, true, ExecStage::Inspect, HookNext::Go(ExecCommand::Inspect))
                },
                ExecStage::PreChain => take_hook(self, c, true, ExecStage::Chain, HookNext::Go(ExecCommand::RunChain)),
                ExecStage::PostChain => {
                    let last = self.final_exec && self.stop_next;
                    let stage = if last {
                        ExecStage::EndFinish
                    } else {
                        ExecStage::Inspect
                    };
                    let command = if last {
                        ExecCommand::CallHook(HookPoint::Finish)
                    } else {
                        ExecCommand::Inspect
                    };
                    let next_final = self.stop_next;
                    take_hook(ExecState { final_exec: next_final, ..self }, c, true, stage, HookNext::Go(command))
                },
                ExecStage::PreRender => take_hook(
                    self,
                    c,
                    true,
                    ExecStage::Render,
                    HookNext::Go(ExecCommand::RenderCurrent),
                ),
                ExecStage::PostRender => take_hook(
                    self,
                    c,
                    false,
                    ExecStage::RenderFinish,
                    HookNext::Go(ExecCommand::CallHook(HookPoint::Finish)),
                ),
                ExecStage::HelpFinish => take_hook(self, c, false, ExecStage::Done, HookNext::ReturnPending),
                ExecStage::RenderFinish => take_hook(self, c, false, ExecStage::Done, HookNext::ReturnPending),
                ExecStage::EndFinish => take_hook(self, c, true, ExecStage::Done, HookNext::ReturnEmpty),
                _ => match self.failure {
                    Some(err) => take_hook(
                        ExecState { failure: None, ..self },
                        c,
                        false,
                        ExecStage::Done,
                        HookNext::Go(ExecCommand::Fail(err)),
                    ),
                    None => {
                        proof {
                            assert(false);
                        }
                        take_hook(
                            ExecState { failure: None, ..self },
                            c,
                            false,
                            ExecStage::Done,
                            HookNext::ReturnEmpty,
                        )
                    },
                },
            },
            ExecEvent::Dispatched(res) => match res {
                Ok(()) => (
                    ExecState { stage: ExecStage::PostDispatch, ..self },
                    ExecStep { replace: None, command: ExecCommand::CallHook(HookPoint::PostDispatch) },
                ),
                Err(err) => (
                    ExecState { stage: ExecStage::Done, ..self },
                    ExecStep { replace: None, command: ExecCommand::Fail(err) },
                ),
            },
            ExecEvent::Inspected { has_chain, has_renderer } => if has_chain {
                (
                    ExecState { stage: ExecStage::PreChain, ..self },
                    ExecStep { replace: None, command: ExecCommand::CallHook(HookPoint::PreChain) },
                )
            } else if has_renderer {
                (
                    ExecState { stage: ExecStage::PreRender, ..self },
                    ExecStep { replace: None, command: ExecCommand::CallHook(HookPoint::PreRender) },
                )
            } else {
                (
                    ExecState { stage: ExecStage::Built, stop_next: true, ..self },
                    ExecStep { replace: None, command: ExecCommand::BuildRendererNotFound },
                )
            },
            ExecEvent::ChainRan(res) => match res {
                Ok(NextProcess::Renderer) => (
                    ExecState { stage: ExecStage::ChainRender, ..self },
                    ExecStep { replace: None, command: ExecCommand::RenderCurrent },
                ),
                Ok(NextProcess::Chain) => (
                    ExecState { stage: ExecStage::PostChain, ..self },
                    ExecStep { replace: None, command: ExecCommand::CallHook(HookPoint::PostChain) },
                ),
                Err(err) => (
                    ExecState {
                        stage: ExecStage::FailFinish,
                        failure: Some(ProgramInternalExecuteError::from(err)),
                        ..self
                    },
                    ExecStep { replace: None, command: ExecCommand::CallHook(HookPoint::Finish) },
                ),
            },
            ExecEvent::Rendered => match self.stage {
                ExecStage::Render => (
                    ExecState { stage: ExecStage::PostRender, ..self },
                    ExecStep { replace: None, command: ExecCommand::CallHook(HookPoint::PostRender) },
                ),
                ExecStage::HelpRender => (
                    ExecState { stage: ExecStage::HelpFinish, ..self },
                    ExecStep { replace: None, command: ExecCommand::CallHook(HookPoint::Finish) },
                ),
                _ => (
                    ExecState { stage: ExecStage::RenderFinish, ..self },
                    ExecStep { replace: None, command: ExecCommand::CallHook(HookPoint::Finish) },
                ),
            },
            ExecEvent::Built => {
                let last = self.final_exec && self.stop_next;
                let stage = if last {
                    ExecStage::EndFinish
                } else {
                    ExecStage::Inspect
                };
                let command = if last {
                    ExecCommand::CallHook(HookPoint::Finish)
                } else {
                    ExecCommand::Inspect
                };
                let next_final = self.stop_next;
                (ExecState { stage, final_exec: next_final, ..self }, ExecStep { replace: None, command })
            },
        }
    }
}

/// Whether the run, where it stands, waits for a hook's controls.
pub open spec fn at_hook(s: ExecState) -> bool {
    s.stage is PreDispatch || s.stage is PostDispatch || s.stage is HelpFinish || s.stage is PreChain
        || s.stage is PostChain || s.stage is PreRender || s.stage is PostRender || s.stage is RenderFinish
        || s.stage is EndFinish || (s.stage is FailFinish && s.failure is Some)
}

/// The exit code changes only by a hook's instructions: after a hook it is
/// the code its instructions leave, after any other event it stays.
pub proof fn law_exit_code_from_hooks<A>(s: ExecState, e: ExecEvent<A>)
    requires
        expects(s, e),
    ensures
        exec_next(s, e).0.exit_code == match e {
            ExecEvent::Controls(c) => control_fold(control_units(c), s.exit_code, None).0,
            _ => s.exit_code,
        },
{
}

/// An instruction to render or to show help ends the run at once, with the
/// exit code reached by the instructions before it.
pub proof fn law_stop_ends_run<A>(s: ExecState, c: ProgramControls<A>)
    requires
        at_hook(s),
        control_fold(control_units(c), s.exit_code, None).2 is Some,
    ensures
        exec_next(s, ExecEvent::Controls(c)).0.stage is Done,
        exec_next(s, ExecEvent::Controls(c)).1.command == routed(
            control_fold(control_units(c), s.exit_code, None).2->0,
            control_fold(control_units(c), s.exit_code, None).0,
        ),
{
}

/// With help asked for, the run renders help right after the post-dispatch
/// hook and runs no chain.
pub proof fn law_help_skips_chain<A>(s: ExecState, c: ProgramControls<A>)
    requires
        s.stage is PostDispatch,
        s.help,
        control_fold(control_units(c), s.exit_code, None).2 is None,
    ensures
        exec_next(s, ExecEvent::Controls(c)).1.command is RenderHelpCurrent,
        exec_next(s, ExecEvent::Controls(c)).0.stage is HelpRender,
{
}

/// When a value with neither a chain nor a renderer comes in the round
/// right after another such value, the run goes to its end.
pub proof fn law_two_unrenderable_end_run<A>(s: ExecState)
    requires
        s.stage is Inspect,
        s.final_exec,
    ensures
        ({
            let s1 = exec_next(s, ExecEvent::<A>::Inspected { has_chain: false, has_renderer: false }).0;
            &&& s1.stage is Built
            &&& exec_next(s1, ExecEvent::<A>::Built).0.stage is EndFinish
            &&& exec_next(s1, ExecEvent::<A>::Built).1.command == ExecCommand::<A>::CallHook(HookPoint::Finish)
        }),
{
}

proof fn lemma_fold_stop<A>(units: Seq<ProgramControlUnit<A>>, code: i32, chain: Option<A>)
    ensures
        control_fold(units, code, chain).2 is Some ==> (control_fold(units, code, chain).2->0 is RouteToRender
            || control_fold(units, code, chain).2->0 is RouteToHelp),
    decreases units.len(),
{
    if units.len() > 0 {
        match units[0] {
            ProgramControlUnit::OverrideExitCode(c) => lemma_fold_stop(units.skip(1), c, chain),
            ProgramControlUnit::RouteToChain(a) => lemma_fold_stop(units.skip(1), code, Some(a)),
            _ => {},
        }
    }
}

/// A run returns a result of its own only right after its finish hook.
pub proof fn law_returns_after_finish<A>(s: ExecState, e: ExecEvent<A>)
    requires
        expects(s, e),
        exec_next(s, e).1.command is ReturnPending || exec_next(s, e).1.command is ReturnEmpty,
    ensures
        s.stage is HelpFinish || s.stage is RenderFinish || s.stage is EndFinish,
{
    if let ExecEvent::Controls(c) = e {
        lemma_fold_stop(control_units(c), s.exit_code, None);
    }
}

} // verus!
