use mingling::error::{ChainProcessError, ProgramExecuteError, ProgramInternalExecuteError, ProgramPanic};

// ProgramPanic

#[test]
fn test_program_panic_new_with_str() {
    let panic = ProgramPanic::new("hello world".to_string());
    assert_eq!(panic.to_string(), "hello world");
}

#[test]
fn test_program_panic_new_with_string() {
    let panic = ProgramPanic::new("owned string".to_string());
    assert_eq!(panic.to_string(), "owned string");
}

#[test]
fn test_program_panic_debug() {
    let panic = ProgramPanic::new("debug me".to_string());
    let debug = panic.debug_string();
    assert_eq!(debug, "Any { .. }");
}

// ProgramExecuteError

#[test]
fn test_program_execute_error_display_dispatcher_not_found() {
    let err = ProgramExecuteError::DispatcherNotFound;
    assert_eq!(err.to_string(), "No Dispatcher Found");
}

#[test]
fn test_program_execute_error_display_renderer_not_found() {
    let err = ProgramExecuteError::RendererNotFound("markdown".into());
    assert_eq!(err.to_string(), "No Renderer (`markdown`) Found");
}

#[test]
fn test_program_execute_error_display_panic() {
    let p = ProgramPanic::new("oops".to_string());
    let err = ProgramExecuteError::Panic(p);
    let display = err.to_string();
    assert!(display.starts_with("Panic: "));
}

#[test]
fn test_program_execute_error_display_other() {
    let err = ProgramExecuteError::Other("something went wrong".into());
    assert_eq!(err.to_string(), "Other error: something went wrong");
}

#[test]
fn test_program_execute_error_error_trait_no_source() {
    let err = ProgramExecuteError::Other("msg".into());
    assert!(err.source().is_none());

    let err = ProgramExecuteError::DispatcherNotFound;
    assert!(err.source().is_none());

    let err = ProgramExecuteError::RendererNotFound("json".into());
    assert!(err.source().is_none());

    let panic = ProgramPanic::new("panic".to_string());
    let err = ProgramExecuteError::Panic(panic);
    assert!(err.source().is_none());
}

#[test]
fn test_from_program_panic_into_program_execute_error() {
    let panic = ProgramPanic::new("from panic".to_string());
    let err: ProgramExecuteError = panic.into();
    assert!(matches!(err, ProgramExecuteError::Panic(_)));
}

// ProgramInternalExecuteError

#[test]
fn test_program_internal_execute_error_display_dispatcher_not_found() {
    let err = ProgramInternalExecuteError::DispatcherNotFound;
    assert_eq!(err.to_string(), "No Dispatcher Found");
}

#[test]
fn test_program_internal_execute_error_display_renderer_not_found() {
    let err = ProgramInternalExecuteError::RendererNotFound("html".into());
    assert_eq!(err.to_string(), "No Renderer (`html`) Found");
}

#[test]
fn test_program_internal_execute_error_display_other() {
    let err = ProgramInternalExecuteError::Other("internal issue".into());
    assert_eq!(err.to_string(), "Other error: internal issue");
}

#[test]
fn test_program_internal_execute_error_display_io() {
    let io_err = std::io::Error::new(std::io::ErrorKind::NotFound, "file missing");
    let err = ProgramInternalExecuteError::IO(io_err);
    let display = err.to_string();
    assert!(display.contains("IO error"));
    assert!(display.contains("file missing"));
}

#[test]
fn test_program_internal_execute_error_display_repl_panic() {
    let p = ProgramPanic::new("repl crash".to_string());
    let err = ProgramInternalExecuteError::REPLPanic(p);
    let display = err.to_string();
    assert!(display.starts_with("A single REPL execution failed: "));
    assert!(display.contains("repl crash"));
}

#[test]
fn test_program_internal_execute_error_error_trait_source() {
    let io_err = std::io::Error::new(std::io::ErrorKind::PermissionDenied, "denied");
    let err = ProgramInternalExecuteError::IO(io_err);
    assert!(err.source().is_some());

    let err = ProgramInternalExecuteError::DispatcherNotFound;
    assert!(err.source().is_none());

    let err = ProgramInternalExecuteError::RendererNotFound("txt".into());
    assert!(err.source().is_none());

    let err = ProgramInternalExecuteError::Other("msg".into());
    assert!(err.source().is_none());

    let p = ProgramPanic::new("msg".to_string());
    let err = ProgramInternalExecuteError::REPLPanic(p);
    assert!(err.source().is_none());
}

#[test]
fn test_from_io_error_into_program_internal_execute_error() {
    let io_err = std::io::Error::new(std::io::ErrorKind::TimedOut, "timeout");
    let err: ProgramInternalExecuteError = io_err.into();
    assert!(matches!(err, ProgramInternalExecuteError::IO(_)));
}

// From<ProgramInternalExecuteError> for ProgramExecuteError

#[test]
fn test_from_internal_to_execute_dispatcher_not_found() {
    let internal = ProgramInternalExecuteError::DispatcherNotFound;
    let err: ProgramExecuteError = internal.into();
    assert!(matches!(err, ProgramExecuteError::DispatcherNotFound));
}

#[test]
fn test_from_internal_to_execute_renderer_not_found() {
    let internal = ProgramInternalExecuteError::RendererNotFound("yaml".into());
    let err: ProgramExecuteError = internal.into();
    assert!(matches!(err, ProgramExecuteError::RendererNotFound(_)));
    assert_eq!(err.to_string(), "No Renderer (`yaml`) Found");
}

#[test]
fn test_from_internal_to_execute_other() {
    let internal = ProgramInternalExecuteError::Other("custom".into());
    let err: ProgramExecuteError = internal.into();
    assert!(matches!(err, ProgramExecuteError::Other(_)));
    assert_eq!(err.to_string(), "Other error: custom");
}

#[test]
fn test_from_internal_to_execute_io_becomes_other() {
    let io_err = std::io::Error::new(std::io::ErrorKind::ConnectionRefused, "refused");
    let internal = ProgramInternalExecuteError::IO(io_err);
    let err: ProgramExecuteError = internal.into();
    assert!(matches!(err, ProgramExecuteError::Other(_)));
    let display = err.to_string();
    assert!(display.starts_with("Other error: "));
    assert!(display.contains("refused"));
}

#[test]
fn test_from_internal_to_execute_repl_panic_becomes_other() {
    let p = ProgramPanic::new("panic in repl".to_string());
    let internal = ProgramInternalExecuteError::REPLPanic(p);
    let err: ProgramExecuteError = internal.into();
    assert!(matches!(err, ProgramExecuteError::Other(_)));
    let display = err.to_string();
    assert!(display.contains("A single REPL execution failed"));
    assert!(display.contains("panic in repl"));
}

// From<ChainProcessError> for ProgramInternalExecuteError

#[test]
fn test_from_chain_process_error_other_into_internal() {
    let chain_err = ChainProcessError::Other("chain other".into());
    let err: ProgramInternalExecuteError = chain_err.into();
    assert!(matches!(err, ProgramInternalExecuteError::Other(_)));
    assert_eq!(err.to_string(), "Other error: chain other");
}

#[test]
fn test_from_chain_process_error_io_into_internal() {
    let io_err = std::io::Error::new(std::io::ErrorKind::BrokenPipe, "broken");
    let chain_err = ChainProcessError::IO(io_err);
    let err: ProgramInternalExecuteError = chain_err.into();
    assert!(matches!(err, ProgramInternalExecuteError::IO(_)));
    let display = err.to_string();
    assert!(display.contains("IO error"));
    assert!(display.contains("broken"));
}

// ChainProcessError

#[test]
fn test_chain_process_error_display_other() {
    let err = ChainProcessError::Other("something went wrong".into());
    assert_eq!(err.to_string(), "Other error: something went wrong");
}

#[test]
fn test_chain_process_error_display_io() {
    let io_err = std::io::Error::new(std::io::ErrorKind::NotFound, "file not found");
    let err = ChainProcessError::IO(io_err);
    let display = err.to_string();
    assert!(display.contains("IO error"));
    assert!(display.contains("file not found"));
}

#[test]
fn test_chain_process_error_source_io() {
    let io_err = std::io::Error::new(std::io::ErrorKind::PermissionDenied, "denied");
    let err = ChainProcessError::IO(io_err);
    assert!(err.source().is_some());
}

#[test]
fn test_chain_process_error_source_other() {
    let err = ChainProcessError::Other("msg".into());
    assert!(err.source().is_none());
}

#[test]
fn test_from_io_error_into_chain_process_error() {
    let io_err = std::io::Error::new(std::io::ErrorKind::TimedOut, "timeout");
    let err: ChainProcessError = io_err.into();
    assert!(matches!(err, ChainProcessError::IO(_)));
}

#[test]
fn test_from_program_internal_execute_error_dispatcher_not_found() {
    let internal = ProgramInternalExecuteError::DispatcherNotFound;
    let err: ChainProcessError = internal.into();
    assert!(matches!(err, ChainProcessError::Other(_)));
    assert_eq!(err.to_string(), "Other error: DispatcherNotFound");
}

#[test]
fn test_from_program_internal_execute_error_renderer_not_found() {
    let internal = ProgramInternalExecuteError::RendererNotFound("json".into());
    let err: ChainProcessError = internal.into();
    assert_eq!(err.to_string(), "Other error: RendererNotFound: json");
}

#[test]
fn test_from_program_internal_execute_error_other() {
    let internal = ProgramInternalExecuteError::Other("custom error".into());
    let err: ChainProcessError = internal.into();
    assert_eq!(err.to_string(), "Other error: custom error");
}

#[test]
fn test_from_program_internal_execute_error_io() {
    let io_err = std::io::Error::new(std::io::ErrorKind::ConnectionRefused, "refused");
    let internal = ProgramInternalExecuteError::IO(io_err);
    let err: ChainProcessError = internal.into();
    let display = err.to_string();
    assert!(display.contains("IOError"));
}

#[test]
fn test_from_program_internal_execute_error_repl_panic() {
    let panic_payload = ProgramPanic { payload: "repl crash".to_string() };
    let internal = ProgramInternalExecuteError::REPLPanic(panic_payload);
    let err: ChainProcessError = internal.into();
    assert!(err.to_string().contains("REPLPanic"));
}

#[test]
fn execute_error_panic_message_is_fixed() {
    let err = ProgramExecuteError::Panic(ProgramPanic::new("anything".to_string()));
    assert_eq!(err.to_string(), "Panic: Any { .. }");
}
