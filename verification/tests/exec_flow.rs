use mingling::controls::{NextProcess, ProgramControlUnit, ProgramControls};
use mingling::error::{ChainProcessError, ProgramInternalExecuteError};
use mingling::exec_flow::{ExecCommand, ExecEvent, ExecStage, ExecState, HookPoint};
use std::collections::VecDeque;

struct Script {
    hooks: Vec<(HookPoint, Vec<ProgramControlUnit<String>>)>,
    dispatch: Option<ProgramInternalExecuteError>,
    inspections: VecDeque<(bool, bool)>,
    chains: VecDeque<Result<NextProcess, ChainProcessError>>,
}

impl Script {
    fn new() -> Script {
        Script { hooks: vec![], dispatch: None, inspections: VecDeque::new(), chains: VecDeque::new() }
    }

    fn controls(&mut self, point: HookPoint) -> ProgramControls<String> {
        match self.hooks.iter().position(|(p, _)| *p == point) {
            Some(k) => ProgramControls::Multi(self.hooks.remove(k).1),
            None => ProgramControls::Empty,
        }
    }
}

/// Drives a run to its end; returns the commands in order, the last one
/// ending the run, and the value routed to the chain last, if any.
fn drive(help: bool, mut script: Script) -> (Vec<ExecCommand<String>>, Option<String>) {
    let mut state = ExecState::new(help);
    let mut event = ExecEvent::Begin;
    let mut seen = Vec::new();
    let mut current = None;
    loop {
        assert!(state.expects_event(&event));
        let (next, step) = state.step(event);
        state = next;
        if let Some(a) = step.replace {
            current = Some(a);
        }
        event = match &step.command {
            ExecCommand::CallHook(p) => ExecEvent::Controls(script.controls(*p)),
            ExecCommand::Dispatch => ExecEvent::Dispatched(match script.dispatch.take() {
                Some(e) => Err(e),
                None => Ok(()),
            }),
            ExecCommand::Inspect => {
                let (c, r) = script.inspections.pop_front().unwrap();
                ExecEvent::Inspected { has_chain: c, has_renderer: r }
            }
            ExecCommand::RunChain => ExecEvent::ChainRan(script.chains.pop_front().unwrap()),
            ExecCommand::RenderCurrent | ExecCommand::RenderHelpCurrent => ExecEvent::Rendered,
            ExecCommand::BuildRendererNotFound => ExecEvent::Built,
            _ => {
                seen.push(step.command);
                assert_eq!(state.stage, ExecStage::Done);
                return (seen, current);
            }
        };
        seen.push(step.command);
    }
}

#[test]
fn render_run_calls_hooks_in_order() {
    let mut s = Script::new();
    s.inspections.push_back((false, true));
    let (cmds, _) = drive(false, s);
    let hooks: Vec<HookPoint> = cmds
        .iter()
        .filter_map(|c| match c {
            ExecCommand::CallHook(p) => Some(*p),
            _ => None,
        })
        .collect();
    assert_eq!(
        hooks,
        vec![
            HookPoint::PreDispatch,
            HookPoint::PostDispatch,
            HookPoint::PreRender,
            HookPoint::PostRender,
            HookPoint::Finish
        ]
    );
    assert!(matches!(cmds.last(), Some(ExecCommand::ReturnPending(0))));
}

#[test]
fn finish_hook_sets_exit_code() {
    let mut s = Script::new();
    s.inspections.push_back((false, true));
    s.hooks.push((HookPoint::Finish, vec![ProgramControlUnit::OverrideExitCode(7)]));
    let (cmds, _) = drive(false, s);
    assert!(matches!(cmds.last(), Some(ExecCommand::ReturnPending(7))));
}

#[test]
fn route_to_render_ends_run_with_code_so_far() {
    let mut s = Script::new();
    s.hooks.push((
        HookPoint::PostDispatch,
        vec![
            ProgramControlUnit::OverrideExitCode(2),
            ProgramControlUnit::RouteToRender("x".to_string()),
            ProgramControlUnit::OverrideExitCode(9),
        ],
    ));
    let (cmds, _) = drive(false, s);
    assert_eq!(cmds.len(), 4);
    match cmds.last() {
        Some(ExecCommand::RenderRouted(a, 2)) => assert_eq!(a, "x"),
        other => panic!("unexpected {other:?}"),
    }
}

#[test]
fn route_to_help_ends_run() {
    let mut s = Script::new();
    s.hooks.push((HookPoint::PreDispatch, vec![ProgramControlUnit::RouteToHelp("h".to_string())]));
    let (cmds, _) = drive(false, s);
    assert_eq!(cmds.len(), 2);
    assert!(matches!(cmds.last(), Some(ExecCommand::HelpRouted(a, 0)) if a == "h"));
}

#[test]
fn help_renders_help_without_chain() {
    let s = Script::new();
    let (cmds, _) = drive(true, s);
    assert!(cmds.iter().any(|c| matches!(c, ExecCommand::RenderHelpCurrent)));
    assert!(!cmds.iter().any(|c| matches!(c, ExecCommand::RunChain | ExecCommand::Inspect)));
    assert!(matches!(cmds.last(), Some(ExecCommand::ReturnPending(0))));
}

#[test]
fn chain_then_render() {
    let mut s = Script::new();
    s.inspections.push_back((true, false));
    s.inspections.push_back((true, false));
    s.chains.push_back(Ok(NextProcess::Chain));
    s.chains.push_back(Ok(NextProcess::Renderer));
    let (cmds, _) = drive(false, s);
    assert_eq!(cmds.iter().filter(|c| matches!(c, ExecCommand::RunChain)).count(), 2);
    assert!(matches!(cmds[cmds.len() - 2], ExecCommand::CallHook(HookPoint::Finish)));
    assert!(matches!(cmds.last(), Some(ExecCommand::ReturnPending(0))));
}

#[test]
fn unrenderable_twice_returns_empty() {
    let mut s = Script::new();
    s.inspections.push_back((false, false));
    s.inspections.push_back((false, false));
    let (cmds, _) = drive(false, s);
    assert_eq!(cmds.iter().filter(|c| matches!(c, ExecCommand::BuildRendererNotFound)).count(), 2);
    assert!(matches!(cmds.last(), Some(ExecCommand::ReturnEmpty(0))));
}

#[test]
fn unrenderable_then_renderer() {
    let mut s = Script::new();
    s.inspections.push_back((false, false));
    s.inspections.push_back((false, true));
    let (cmds, _) = drive(false, s);
    assert!(matches!(cmds.last(), Some(ExecCommand::ReturnPending(0))));
}

#[test]
fn chain_failure_fails_after_finish() {
    let mut s = Script::new();
    s.inspections.push_back((true, false));
    s.chains.push_back(Err(ChainProcessError::Other("bad".to_string())));
    let (cmds, _) = drive(false, s);
    assert!(matches!(cmds[cmds.len() - 2], ExecCommand::CallHook(HookPoint::Finish)));
    match cmds.last() {
        Some(ExecCommand::Fail(ProgramInternalExecuteError::Other(m))) => assert_eq!(m, "bad"),
        other => panic!("unexpected {other:?}"),
    }
}

#[test]
fn dispatch_failure_fails() {
    let mut s = Script::new();
    s.dispatch = Some(ProgramInternalExecuteError::DispatcherNotFound);
    let (cmds, _) = drive(false, s);
    assert_eq!(cmds.len(), 3);
    assert!(matches!(cmds.last(), Some(ExecCommand::Fail(ProgramInternalExecuteError::DispatcherNotFound))));
}

#[test]
fn route_to_chain_replaces_current() {
    let mut s = Script::new();
    s.inspections.push_back((false, true));
    s.hooks.push((HookPoint::PostDispatch, vec![ProgramControlUnit::RouteToChain("y".to_string())]));
    let (_, current) = drive(false, s);
    assert_eq!(current, Some("y".to_string()));
}

#[test]
fn pre_dispatch_route_to_chain_is_dropped() {
    let mut s = Script::new();
    s.inspections.push_back((false, true));
    s.hooks.push((HookPoint::PreDispatch, vec![ProgramControlUnit::RouteToChain("z".to_string())]));
    let (_, current) = drive(false, s);
    assert_eq!(current, None);
}
