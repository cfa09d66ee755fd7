//! The errors a program run can end with, their messages, and how one kind
//! turns into another as it travels up from a chain to the program.
use vstd::prelude::*;
use crate::text::{concat, owned};

verus! {

/// An I/O error as std reports it; the library only carries it along and
/// asks it for its message.
#[verifier::external_type_specification]
#[verifier::external_body]
pub struct ExIoError(std::io::Error);

/// The message of an I/O error, as its `Display` writes it. Nothing is
/// stated of the text: for an error of the operating system it is the
/// system's own description.
#[verifier::external_body]
fn io_error_text(e: &std::io::Error) -> String {
    format!("{e}")
}

/// An I/O error as its `Debug` writes it. Nothing is stated of the text.
#[verifier::external_body]
fn io_error_debug_text(e: &std::io::Error) -> String {
    format!("{e:?}")
}

/// A panic caught while running a program, with the text it carried (empty
/// when it carried no text).
#[derive(Debug)]
pub struct ProgramPanic {
    /// The text the panic carried.
    pub payload: String,
}

impl ProgramPanic {
    /// A caught panic that carried `payload`.
    pub fn new(payload: String) -> (r: ProgramPanic)
        ensures
            r.payload@ == payload@,
    {
        ProgramPanic { payload }
    }

    /// The text of the panic.
    pub fn to_string(&self) -> (r: String)
        ensures
            r@ == self.payload@,
    {
        self.payload.clone()
    }

    /// The debug form of the panic: a boxed payload of any type shows none
    /// of its contents.
    pub fn debug_string(&self) -> (r: String)
        ensures
            r@ == "Any { .. }"@,
    {
        owned("Any { .. }")
    }
}

/// Why a program run failed, as the program reports it.
#[derive(Debug)]
pub enum ProgramExecuteError {
    DispatcherNotFound,
    RendererNotFound(String),
    Panic(ProgramPanic),
    Other(String),
}

/// The message of a program error. A caught panic is reported without its
/// text, the way its `Debug` form shows a boxed payload.
pub open spec fn execute_error_message(e: ProgramExecuteError) -> Seq<char> {
    match e {
        ProgramExecuteError::DispatcherNotFound => "No Dispatcher Found"@,
        ProgramExecuteError::RendererNotFound(s) => "No Renderer (`"@ + s@ + "`) Found"@,
        ProgramExecuteError::Panic(_) => "Panic: Any { .. }"@,
        ProgramExecuteError::Other(s) => "Other error: "@ + s@,
    }
}

impl ProgramExecuteError {
    /// The message of the error.
    pub fn to_string(&self) -> (r: String)
        ensures
            r@ == execute_error_message(*self),
    {
        match self {
            ProgramExecuteError::DispatcherNotFound => owned("No Dispatcher Found"),
            ProgramExecuteError::RendererNotFound(s) => {
                let head = concat("No Renderer (`", s.as_str());
                concat(head.as_str(), "`) Found")
            },
            ProgramExecuteError::Panic(_) => owned("Panic: Any { .. }"),
            ProgramExecuteError::Other(s) => concat("Other error: ", s.as_str()),
        }
    }

    /// The error beneath this one; a program error has none.
    pub fn source(&self) -> (r: Option<&std::io::Error>)
        ensures
            r is None,
    {
        None
    }
}

impl From<ProgramPanic> for ProgramExecuteError {
    fn from(value: ProgramPanic) -> (r: ProgramExecuteError)
        ensures
            r == ProgramExecuteError::Panic(value),
    {
        ProgramExecuteError::Panic(value)
    }
}

impl vstd::std_specs::convert::FromSpecImpl<ProgramPanic> for ProgramExecuteError {
    open spec fn obeys_from_spec() -> bool {
        true
    }

    open spec fn from_spec(v: ProgramPanic) -> ProgramExecuteError {
        ProgramExecuteError::Panic(v)
    }
}

/// Why a program run failed, as the run itself sees it.
#[derive(Debug)]
pub enum ProgramInternalExecuteError {
    DispatcherNotFound,
    RendererNotFound(String),
    Other(String),
    REPLPanic(ProgramPanic),
    IO(std::io::Error),
}

/// Whether `m` is the message of the internal error `e`; of an I/O error
/// only the fixed start of the message is known.
pub open spec fn is_internal_error_message(e: ProgramInternalExecuteError, m: Seq<char>) -> bool {
    match e {
        ProgramInternalExecuteError::DispatcherNotFound => m == "No Dispatcher Found"@,
        ProgramInternalExecuteError::RendererNotFound(s) => m == "No Renderer (`"@ + s@ + "`) Found"@,
        ProgramInternalExecuteError::Other(s) => m == "Other error: "@ + s@,
        ProgramInternalExecuteError::REPLPanic(p) => m == "A single REPL execution failed: "@ + p.payload@,
        ProgramInternalExecuteError::IO(_) => exists|t: Seq<char>| m == "IO error: "@ + t,
    }
}

impl ProgramInternalExecuteError {
    /// The message of the error.
    pub fn to_string(&self) -> (r: String)
        ensures
            is_internal_error_message(*self, r@),
    {
        match self {
            ProgramInternalExecuteError::DispatcherNotFound => owned("No Dispatcher Found"),
            ProgramInternalExecuteError::RendererNotFound(s) => {
                let head = concat("No Renderer (`", s.as_str());
                concat(head.as_str(), "`) Found")
            },
            ProgramInternalExecuteError::Other(s) => concat("Other error: ", s.as_str()),
            ProgramInternalExecuteError::REPLPanic(p) => concat(
                "A single REPL execution failed: ",
                p.payload.as_str(),
            ),
            ProgramInternalExecuteError::IO(e) => {
                let t = io_error_text(e);
                let r = concat("IO error: ", t.as_str());
                proof {
                    assert(r@ == "IO error: "@ + t@);
                }
                r
            },
        }
    }

    /// The error beneath this one: the I/O error, if it is one.
    pub fn source(&self) -> (r: Option<&std::io::Error>)
        ensures
            r is Some <==> *self is IO,
    {
        match self {
            ProgramInternalExecuteError::IO(e) => Some(e),
            _ => None,
        }
    }
}

impl From<std::io::Error> for ProgramInternalExecuteError {
    fn from(e: std::io::Error) -> (r: ProgramInternalExecuteError)
        ensures
            r == ProgramInternalExecuteError::IO(e),
    {
        ProgramInternalExecuteError::IO(e)
    }
}

impl vstd::std_specs::convert::FromSpecImpl<std::io::Error> for ProgramInternalExecuteError {
    open spec fn obeys_from_spec() -> bool {
        true
    }

    open spec fn from_spec(v: std::io::Error) -> ProgramInternalExecuteError {
        ProgramInternalExecuteError::IO(v)
    }
}

/// Whether `r` is what the internal error `e` becomes when the program
/// reports it: the kinds the program knows stay, an I/O error or a caught
/// REPL panic becomes `Other` with its message.
pub open spec fn reported_error(e: ProgramInternalExecuteError, r: ProgramExecuteError) -> bool {
    match e {
        ProgramInternalExecuteError::DispatcherNotFound => r is DispatcherNotFound,
        ProgramInternalExecuteError::RendererNotFound(s) => r matches ProgramExecuteError::RendererNotFound(t)
            && t@ == s@,
        ProgramInternalExecuteError::Other(s) => r matches ProgramExecuteError::Other(t) && t@ == s@,
        ProgramInternalExecuteError::IO(_) => r is Other,
        ProgramInternalExecuteError::REPLPanic(p) => r matches ProgramExecuteError::Other(t) && t@
            == "A single REPL execution failed: "@ + p.payload@,
    }
}

impl From<ProgramInternalExecuteError> for ProgramExecuteError {
    fn from(value: ProgramInternalExecuteError) -> (r: ProgramExecuteError)
        ensures
            reported_error(value, r),
    {
        match value {
            ProgramInternalExecuteError::DispatcherNotFound => ProgramExecuteError::DispatcherNotFound,
            ProgramInternalExecuteError::RendererNotFound(s) => ProgramExecuteError::RendererNotFound(s),
            ProgramInternalExecuteError::Other(s) => ProgramExecuteError::Other(s),
            ProgramInternalExecuteError::IO(e) => ProgramExecuteError::Other(io_error_text(&e)),
            ProgramInternalExecuteError::REPLPanic(p) => ProgramExecuteError::Other(
                concat("A single REPL execution failed: ", p.payload.as_str()),
            ),
        }
    }
}

impl vstd::std_specs::convert::FromSpecImpl<ProgramInternalExecuteError> for ProgramExecuteError {
    open spec fn obeys_from_spec() -> bool {
        false
    }

    open spec fn from_spec(v: ProgramInternalExecuteError) -> ProgramExecuteError {
        vstd::pervasive::arbitrary()
    }
}

/// Why a chain step failed.
#[derive(Debug)]
pub enum ChainProcessError {
    Other(String),
    IO(std::io::Error),
}

impl ChainProcessError {
    /// The message of the error; of an I/O error only the fixed start is
    /// stated.
    pub fn to_string(&self) -> (r: String)
        ensures
            match *self {
                ChainProcessError::Other(s) => r@ == "Other error: "@ + s@,
                ChainProcessError::IO(_) => exists|t: Seq<char>| r@ == "IO error: "@ + t,
            },
    {
        match self {
            ChainProcessError::Other(s) => concat("Other error: ", s.as_str()),
            ChainProcessError::IO(e) => {
                let t = io_error_text(e);
                let r = concat("IO error: ", t.as_str());
                proof {
                    assert(r@ == "IO error: "@ + t@);
                }
                r
            },
        }
    }

    /// The error beneath this one: the I/O error, if it is one.
    pub fn source(&self) -> (r: Option<&std::io::Error>)
        ensures
            r is Some <==> *self is IO,
    {
        match self {
            ChainProcessError::IO(e) => Some(e),
            ChainProcessError::Other(_) => None,
        }
    }
}

impl From<std::io::Error> for ChainProcessError {
    fn from(e: std::io::Error) -> (r: ChainProcessError)
        ensures
            r == ChainProcessError::IO(e),
    {
        ChainProcessError::IO(e)
    }
}

impl vstd::std_specs::convert::FromSpecImpl<std::io::Error> for ChainProcessError {
    open spec fn obeys_from_spec() -> bool {
        true
    }

    open spec fn from_spec(v: std::io::Error) -> ChainProcessError {
        ChainProcessError::IO(v)
    }
}

impl From<ChainProcessError> for ProgramInternalExecuteError {
    fn from(value: ChainProcessError) -> (r: ProgramInternalExecuteError)
        ensures
            match value {
                ChainProcessError::Other(s) => r == ProgramInternalExecuteError::Other(s),
                ChainProcessError::IO(e) => r == ProgramInternalExecuteError::IO(e),
            },
    {
        match value {
            ChainProcessError::Other(s) => ProgramInternalExecuteError::Other(s),
            ChainProcessError::IO(error) => ProgramInternalExecuteError::IO(error),
        }
    }
}

impl vstd::std_specs::convert::FromSpecImpl<ChainProcessError> for ProgramInternalExecuteError {
    open spec fn obeys_from_spec() -> bool {
        true
    }

    open spec fn from_spec(v: ChainProcessError) -> ProgramInternalExecuteError {
        match v {
            ChainProcessError::Other(s) => ProgramInternalExecuteError::Other(s),
            ChainProcessError::IO(e) => ProgramInternalExecuteError::IO(e),
        }
    }
}

/// Whether `r` is what the internal error `e` becomes inside a chain: a
/// message naming the kind of the error (of an I/O error, only the fixed
/// start of that message is known).
pub open spec fn chain_error_of(e: ProgramInternalExecuteError, r: ChainProcessError) -> bool {
    match r {
        ChainProcessError::IO(_) => false,
        ChainProcessError::Other(m) => match e {
            ProgramInternalExecuteError::DispatcherNotFound => m@ == "DispatcherNotFound"@,
            ProgramInternalExecuteError::RendererNotFound(s) => m@ == "RendererNotFound: "@ + s@,
            ProgramInternalExecuteError::Other(s) => m@ == s@,
            ProgramInternalExecuteError::IO(_) => exists|t: Seq<char>| m@ == "IOError: "@ + t,
            ProgramInternalExecuteError::REPLPanic(p) => m@ == "REPLPanic: "@ + p.payload@,
        },
    }
}

impl From<ProgramInternalExecuteError> for ChainProcessError {
    fn from(value: ProgramInternalExecuteError) -> (r: ChainProcessError)
        ensures
            chain_error_of(value, r),
    {
        match value {
            ProgramInternalExecuteError::DispatcherNotFound => ChainProcessError::Other(
                owned("DispatcherNotFound"),
            ),
            ProgramInternalExecuteError::RendererNotFound(r) => ChainProcessError::Other(
                concat("RendererNotFound: ", r.as_str()),
            ),
            ProgramInternalExecuteError::Other(e) => ChainProcessError::Other(e),
            ProgramInternalExecuteError::IO(e) => {
                let t = io_error_debug_text(&e);
                let m = concat("IOError: ", t.as_str());
                proof {
                    assert(m@ == "IOError: "@ + t@);
                }
                ChainProcessError::Other(m)
            },
            ProgramInternalExecuteError::REPLPanic(p) => ChainProcessError::Other(
                concat("REPLPanic: ", p.payload.as_str()),
            ),
        }
    }
}

impl vstd::std_specs::convert::FromSpecImpl<ProgramInternalExecuteError> for ChainProcessError {
    open spec fn obeys_from_spec() -> bool {
        false
    }

    open spec fn from_spec(v: ProgramInternalExecuteError) -> ChainProcessError {
        vstd::pervasive::arbitrary()
    }
}

/// An error the program knows by kind (no dispatcher, no renderer, or a
/// message of its own) is reported with the same message it had inside the
/// run.
pub proof fn law_known_errors_keep_message(e: ProgramInternalExecuteError, r: ProgramExecuteError)
    requires
        e is DispatcherNotFound || e is RendererNotFound || e is Other,
        reported_error(e, r),
    ensures
        is_internal_error_message(e, execute_error_message(r)),
{
}

/// A chain error with a message of its own comes back unchanged after a
/// trip through the program's internal error.
pub proof fn law_chain_message_round_trip(s: String, r: ChainProcessError)
    requires
        chain_error_of(ProgramInternalExecuteError::Other(s), r),
    ensures
        r matches ChainProcessError::Other(m) && m@ == s@,
{
}

} // verus!
