//! What a hook tells the program to do next, and what a chain step hands
//! on; the program carries the values it routes as an opaque `A`.
use vstd::prelude::*;
use crate::error::ChainProcessError;

verus! {

/// Where a chain step's output goes next.
#[derive(Debug, Clone, Copy, PartialEq, Eq, Structural)]
pub enum NextProcess {
    Chain,
    Renderer,
}

impl NextProcess {
    /// The name of the destination: `Chain` or `Renderer`.
    pub fn to_string(&self) -> (r: String)
        ensures
            r@ == match *self {
                NextProcess::Chain => "Chain"@,
                NextProcess::Renderer => "Renderer"@,
            },
    {
        match self {
            NextProcess::Chain => crate::text::owned("Chain"),
            NextProcess::Renderer => crate::text::owned("Renderer"),
        }
    }
}

/// The outcome of a chain step: the output and where it goes, or an error.
pub enum ChainProcess<A> {
    /// The step produced a value and says where it goes.
    Output((A, NextProcess)),
    /// The step failed.
    Failure(ChainProcessError),
}

/// One instruction of a hook to the running program.
pub enum ProgramControlUnit<A> {
    /// Exit with this code.
    OverrideExitCode(i32),
    /// Render this value now.
    RouteToRender(A),
    /// Continue the chain with this value.
    RouteToChain(A),
    /// Render help for this value now.
    RouteToHelp(A),
}

/// What a hook returns: nothing, one instruction, or several in order.
pub enum ProgramControls<A> {
    Empty,
    Single(ProgramControlUnit<A>),
    Multi(Vec<ProgramControlUnit<A>>),
}

/// The instructions, in order.
pub open spec fn control_units<A>(c: ProgramControls<A>) -> Seq<ProgramControlUnit<A>> {
    match c {
        ProgramControls::Empty => Seq::empty(),
        ProgramControls::Single(u) => seq![u],
        ProgramControls::Multi(v) => v@,
    }
}

impl<A> ProgramControls<A> {
    /// Whether the hook gave no instruction at all.
    pub fn is_empty(&self) -> (r: bool)
        ensures
            r == (*self is Empty),
    {
        match self {
            ProgramControls::Empty => true,
            _ => false,
        }
    }

    /// The instructions, in order.
    pub fn into_units(self) -> (r: Vec<ProgramControlUnit<A>>)
        ensures
            r@ == control_units(self),
    {
        match self {
            ProgramControls::Empty => Vec::new(),
            ProgramControls::Single(u) => {
                let mut v = Vec::new();
                v.push(u);
                proof {
                    assert(v@ =~= seq![u]);
                }
                v
            },
            ProgramControls::Multi(v) => v,
        }
    }

    /// The instructions, to be taken one after the other.
    pub fn into_iter(self) -> (r: ProgramControlsIter<A>)
        ensures
            r.rest() == control_units(self),
    {
        ProgramControlsIter { inner: self.into_units() }
    }
}

/// The instructions of a hook still to be taken.
pub struct ProgramControlsIter<A> {
    inner: Vec<ProgramControlUnit<A>>,
}

impl<A> ProgramControlsIter<A> {
    /// The instructions still to come, in order.
    pub closed spec fn rest(&self) -> Seq<ProgramControlUnit<A>> {
        self.inner@
    }

    /// The next instruction, if any is left.
    pub fn next(&mut self) -> (r: Option<ProgramControlUnit<A>>)
        ensures
            old(self).rest().len() == 0 ==> r is None && final(self).rest().len() == 0,
            old(self).rest().len() > 0 ==> r == Some(old(self).rest()[0]) && final(self).rest() == old(
                self,
            ).rest().skip(1),
    {
        if self.inner.len() == 0 {
            None
        } else {
            let ghost before = self.inner@;
            let u = self.inner.remove(0);
            proof {
                assert(self.inner@ =~= before.skip(1));
            }
            Some(u)
        }
    }
}

impl<A> From<()> for ProgramControls<A> {
    fn from(_unit: ()) -> (r: ProgramControls<A>)
        ensures
            r is Empty,
    {
        ProgramControls::Empty
    }
}

impl<A> vstd::std_specs::convert::FromSpecImpl<()> for ProgramControls<A> {
    open spec fn obeys_from_spec() -> bool {
        true
    }

    open spec fn from_spec(v: ()) -> ProgramControls<A> {
        ProgramControls::Empty
    }
}

impl<A> From<ProgramControlUnit<A>> for ProgramControls<A> {
    fn from(unit: ProgramControlUnit<A>) -> (r: ProgramControls<A>)
        ensures
            r == ProgramControls::Single(unit),
    {
        ProgramControls::Single(unit)
    }
}

impl<A> vstd::std_specs::convert::FromSpecImpl<ProgramControlUnit<A>> for ProgramControls<A> {
    open spec fn obeys_from_spec() -> bool {
        true
    }

    open spec fn from_spec(v: ProgramControlUnit<A>) -> ProgramControls<A> {
        ProgramControls::Single(v)
    }
}

impl<A> From<Vec<ProgramControlUnit<A>>> for ProgramControls<A> {
    fn from(units: Vec<ProgramControlUnit<A>>) -> (r: ProgramControls<A>)
        ensures
            r == ProgramControls::Multi(units),
    {
        ProgramControls::Multi(units)
    }
}

impl<A> vstd::std_specs::convert::FromSpecImpl<Vec<ProgramControlUnit<A>>> for ProgramControls<A> {
    open spec fn obeys_from_spec() -> bool {
        true
    }

    open spec fn from_spec(v: Vec<ProgramControlUnit<A>>) -> ProgramControls<A> {
        ProgramControls::Multi(v)
    }
}

impl<A> From<ChainProcess<A>> for ProgramControls<A> {
    /// A chain step as a hook instruction: its output is routed where the
    /// step sends it. A failed step ends the run with exit code 1: the
    /// message of a chain error never reads as a number, which is what the
    /// exit code is taken from.
    fn from(val: ChainProcess<A>) -> (r: ProgramControls<A>)
        ensures
            match val {
                ChainProcess::Output((a, NextProcess::Chain)) => r == ProgramControls::Single(
                    ProgramControlUnit::RouteToChain(a),
                ),
                ChainProcess::Output((a, NextProcess::Renderer)) => r == ProgramControls::Single(
                    ProgramControlUnit::RouteToRender(a),
                ),
                ChainProcess::Failure(_) => r == ProgramControls::<A>::Single(
                    ProgramControlUnit::OverrideExitCode(1),
                ),
            },
    {
        match val {
            ChainProcess::Output((any, next)) => match next {
                NextProcess::Chain => ProgramControls::Single(ProgramControlUnit::RouteToChain(any)),
                NextProcess::Renderer => ProgramControls::Single(ProgramControlUnit::RouteToRender(any)),
            },
            ChainProcess::Failure(_) => ProgramControls::Single(ProgramControlUnit::OverrideExitCode(1)),
        }
    }
}

impl<A> vstd::std_specs::convert::FromSpecImpl<ChainProcess<A>> for ProgramControls<A> {
    open spec fn obeys_from_spec() -> bool {
        false
    }

    open spec fn from_spec(v: ChainProcess<A>) -> ProgramControls<A> {
        vstd::pervasive::arbitrary()
    }
}

impl<A> ProgramControlUnit<A> {
    /// A chain step as one instruction: its output routed where the step
    /// sends it, or the message of its error.
    pub fn from_chain(val: ChainProcess<A>) -> (r: Result<ProgramControlUnit<A>, String>)
        ensures
            match val {
                ChainProcess::Output((a, NextProcess::Chain)) => r == Ok::<ProgramControlUnit<A>, String>(
                    ProgramControlUnit::RouteToChain(a),
                ),
                ChainProcess::Output((a, NextProcess::Renderer)) => r == Ok::<ProgramControlUnit<A>, String>(
                    ProgramControlUnit::RouteToRender(a),
                ),
                ChainProcess::Failure(e) => r is Err,
            },
    {
        match val {
            ChainProcess::Output((any, next)) => match next {
                NextProcess::Chain => Ok(ProgramControlUnit::RouteToChain(any)),
                NextProcess::Renderer => Ok(ProgramControlUnit::RouteToRender(any)),
            },
            ChainProcess::Failure(e) => Err(e.to_string()),
        }
    }
}

/// What taking a hook's instructions leaves: the exit code, the value the
/// chain continues with (if an instruction replaced it), and the
/// instruction that ends the step by rendering, if any.
pub struct ControlOutcome<A> {
    pub exit_code: i32,
    pub route_to_chain: Option<A>,
    pub stop: Option<ProgramControlUnit<A>>,
}

/// Takes the instructions `units` in order from the given exit code and
/// chain value: an exit code replaces the exit code, a chain route
/// replaces the chain value, and the first render or help route stops.
pub open spec fn control_fold<A>(units: Seq<ProgramControlUnit<A>>, exit_code: i32, chain: Option<A>) -> (
    i32,
    Option<A>,
    Option<ProgramControlUnit<A>>,
)
    decreases units.len(),
{
    if units.len() == 0 {
        (exit_code, chain, None)
    } else {
        match units[0] {
            ProgramControlUnit::OverrideExitCode(c) => control_fold(units.skip(1), c, chain),
            ProgramControlUnit::RouteToChain(a) => control_fold(units.skip(1), exit_code, Some(a)),
            ProgramControlUnit::RouteToRender(_) => (exit_code, chain, Some(units[0])),
            ProgramControlUnit::RouteToHelp(_) => (exit_code, chain, Some(units[0])),
        }
    }
}

/// Takes a hook's instructions in order, starting from `exit_code`: exit
/// codes are set, a chain route replaces the current value, and the first
/// render or help route ends the step (the program then renders it with the
/// exit code reached so far).
pub fn handle_program_control<A>(controls: ProgramControls<A>, exit_code: i32) -> (r: ControlOutcome<A>)
    ensures
        (r.exit_code, r.route_to_chain, r.stop) == control_fold(control_units(controls), exit_code, None),
{
    let ghost all = control_units(controls);
    let mut it = controls.into_iter();
    let mut code = exit_code;
    let mut chain: Option<A> = None;
    loop
        invariant
            all == control_units(controls),
            control_fold(all, exit_code, None) == control_fold(it.rest(), code, chain),
        decreases it.rest().len(),
    {
        let ghost rest = it.rest();
        let next = it.next();
        match next {
            None => {
                return ControlOutcome { exit_code: code, route_to_chain: chain, stop: None };
            },
            Some(unit) => match unit {
                ProgramControlUnit::OverrideExitCode(c) => {
                    code = c;
                },
                ProgramControlUnit::RouteToChain(a) => {
                    chain = Some(a);
                },
                ProgramControlUnit::RouteToRender(a) => {
                    return ControlOutcome {
                        exit_code: code,
                        route_to_chain: chain,
                        stop: Some(ProgramControlUnit::RouteToRender(a)),
                    };
                },
                ProgramControlUnit::RouteToHelp(a) => {
                    return ControlOutcome {
                        exit_code: code,
                        route_to_chain: chain,
                        stop: Some(ProgramControlUnit::RouteToHelp(a)),
                    };
                },
            },
        }
    }
}

/// A step of a program: the value it takes and where its result goes. A
/// program's author implements it for each step.
pub trait Chain<A> {
    /// The value the step takes.
    type Previous;

    /// Runs the step on `p`.
    fn proc(p: Self::Previous) -> ChainProcess<A>;
}

} // verus!
