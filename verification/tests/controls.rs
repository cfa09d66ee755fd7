use mingling::controls::{
    handle_program_control, Chain, ChainProcess, NextProcess, ProgramControlUnit, ProgramControls,
};
use mingling::error::ChainProcessError;

#[test]
fn empty_controls_change_nothing() {
    let c: ProgramControls<u32> = ().into();
    assert!(c.is_empty());
    let out = handle_program_control(c, 3);
    assert_eq!(out.exit_code, 3);
    assert!(out.route_to_chain.is_none());
    assert!(out.stop.is_none());
}

#[test]
fn units_are_taken_in_order_until_a_render() {
    let c: ProgramControls<u32> = vec![
        ProgramControlUnit::OverrideExitCode(2),
        ProgramControlUnit::RouteToChain(7),
        ProgramControlUnit::RouteToRender(9),
        ProgramControlUnit::OverrideExitCode(5),
    ]
    .into();
    let out = handle_program_control(c, 0);
    assert_eq!(out.exit_code, 2);
    assert_eq!(out.route_to_chain, Some(7));
    assert!(matches!(out.stop, Some(ProgramControlUnit::RouteToRender(9))));
}

#[test]
fn help_route_stops_too() {
    let c: ProgramControls<u32> = ProgramControlUnit::RouteToHelp(1).into();
    let out = handle_program_control(c, 0);
    assert!(matches!(out.stop, Some(ProgramControlUnit::RouteToHelp(1))));
}

#[test]
fn chain_results_become_controls() {
    let c: ProgramControls<u32> = ChainProcess::Output((4, NextProcess::Chain)).into();
    assert!(matches!(c, ProgramControls::Single(ProgramControlUnit::RouteToChain(4))));
    let c: ProgramControls<u32> = ChainProcess::Output((4, NextProcess::Renderer)).into();
    assert!(matches!(c, ProgramControls::Single(ProgramControlUnit::RouteToRender(4))));
    let c: ProgramControls<u32> = ChainProcess::Failure(ChainProcessError::Other("x".into())).into();
    assert!(matches!(c, ProgramControls::Single(ProgramControlUnit::OverrideExitCode(1))));
}

#[test]
fn iterating_controls_yields_units_in_order() {
    let c: ProgramControls<u32> = vec![ProgramControlUnit::RouteToChain(1), ProgramControlUnit::RouteToChain(2)].into();
    let mut it = c.into_iter();
    assert!(matches!(it.next(), Some(ProgramControlUnit::RouteToChain(1))));
    assert!(matches!(it.next(), Some(ProgramControlUnit::RouteToChain(2))));
    assert!(it.next().is_none());
}

#[test]
fn test_next_process_display_chain() {
    assert_eq!(mingling::controls::NextProcess::Chain.to_string(), "Chain");
}

#[test]
fn test_next_process_display_renderer() {
    assert_eq!(mingling::controls::NextProcess::Renderer.to_string(), "Renderer");
}

struct Doubler;

impl Chain<u32> for Doubler {
    type Previous = u32;

    fn proc(p: u32) -> ChainProcess<u32> {
        if p > 1000 {
            ChainProcess::Failure(ChainProcessError::Other("too large".to_string()))
        } else {
            ChainProcess::Output((p * 2, NextProcess::Chain))
        }
    }
}

#[test]
fn a_chain_step_routes_its_result() {
    match Doubler::proc(21) {
        ChainProcess::Output((v, NextProcess::Chain)) => assert_eq!(v, 42),
        _ => panic!("expected a chained value"),
    }
    assert!(matches!(Doubler::proc(5000), ChainProcess::Failure(_)));
}
