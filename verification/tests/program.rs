use mingling::completion::default_completion;
use mingling::node::Node;
use mingling::program::{get_nodes, CompletionHelper, Program, ProgramCell, ProgramSetup};
use mingling::shell::ShellContext;
use mingling::suggest::Suggest;

fn program() -> Program {
    let mut p = Program::new_with_args(["mling", "remote", "add", "origin"]);
    p.register_node(Node::from("remote.add"));
    p.register_node(Node::from("status"));
    p.register_node(Node::from("remote"));
    p
}

#[test]
fn arguments_are_kept() {
    let p = program();
    assert_eq!(p.get_args(), &["mling", "remote", "add", "origin"]);
    assert!(!p.is_completing());
    assert!(Program::new_with_args(["mling", "__comp"]).is_completing());
}

#[test]
fn nodes_are_typed_with_spaces() {
    let p = program();
    assert_eq!(get_nodes(&p), vec!["remote add", "status", "remote"]);
    assert_eq!(p.get_nodes(), vec!["remote add", "status", "remote"]);
}

#[test]
fn dispatch_picks_the_most_specific_node() {
    let p = program();
    let (i, rest) = p.dispatch_args_dynamic(["remote", "add", "origin"]).unwrap();
    assert_eq!(i, 0);
    assert_eq!(rest, vec!["origin"]);
    let (i, rest) = p.dispatch_args_dynamic(vec!["remote", "x"]).unwrap();
    assert_eq!(i, 2);
    assert_eq!(rest, vec!["x"]);
    assert!(p.dispatch_args_dynamic(["nothing"]).is_err());
}

#[test]
fn completion_prefers_the_command_suggestions() {
    let p = program();
    let ctx = ShellContext {
        word_index: 3,
        all_words: vec!["mling".to_string(), "remote".to_string(), "add".to_string(), "or".to_string()],
        current_word: "or".to_string(),
        ..Default::default()
    };
    let seen = std::cell::RefCell::new(None);
    let custom = CompletionHelper::exec_completion(&p, &ctx, |i, rest| {
        *seen.borrow_mut() = Some((i, rest));
        Some(Suggest::file_comp())
    });
    assert!(custom.is_file_completion());
    assert_eq!(*seen.borrow(), Some((0, vec!["or".to_string()])));
}

#[test]
fn completion_falls_back_to_the_default() {
    let p = program();
    let ctx = ShellContext { word_index: 1, all_words: vec!["mling".to_string()], ..Default::default() };
    let called = std::cell::Cell::new(false);
    let default = CompletionHelper::exec_completion(&p, &ctx, |_, _| {
        called.set(true);
        Some(Suggest::file_comp())
    });
    assert!(!called.get());
    assert_eq!(default.as_set().unwrap().len(), 2);
    let ctx = ShellContext {
        word_index: 2,
        all_words: vec!["mling".to_string(), "status".to_string()],
        ..Default::default()
    };
    let fallback = CompletionHelper::exec_completion(&p, &ctx, |_, _| None);
    let direct = default_completion(&get_nodes(&p), &ctx);
    assert_eq!(fallback.is_file_completion(), direct.is_file_completion());
    assert_eq!(fallback.as_set().map(|s| s.len()), direct.as_set().map(|s| s.len()));
}

struct TestSetup {
    called: std::rc::Rc<std::cell::Cell<bool>>,
}

impl ProgramSetup for TestSetup {
    fn setup(self, _program: &mut Program) {
        self.called.set(true);
    }
}

#[test]
fn test_with_setup_calls_setup() {
    let called = std::rc::Rc::new(std::cell::Cell::new(false));
    let setup = TestSetup {
        called: std::rc::Rc::clone(&called),
    };
    let mut program = Program::new_with_args(["test"]);
    program.with_setup(setup);
    assert!(called.get());
}

struct RegisterNode;

impl ProgramSetup for RegisterNode {
    fn setup(self, program: &mut Program) {
        program.register_node(Node::from("greet"));
    }
}

#[test]
fn with_setup_changes_the_program() {
    let mut program = Program::new_with_args(["test"]);
    program.with_setup(RegisterNode);
    assert_eq!(program.get_nodes(), vec!["greet".to_string()]);
}

#[test]
fn test_program_cell_set_and_get_raw() {
    let mut cell: ProgramCell<Box<dyn std::any::Any + Send + Sync>> = ProgramCell::new();
    cell.set(Box::new(42_i32));
    let val = cell.get_raw();
    assert!(val.is_some());
    assert_eq!(*val.unwrap().downcast_ref::<i32>().unwrap(), 42);
}

#[test]
fn test_program_cell_get_raw_uninitialized() {
    let cell: ProgramCell<Box<dyn std::any::Any + Send + Sync>> = ProgramCell::new();
    assert!(cell.get_raw().is_none());
}

#[test]
fn test_program_cell_take() {
    let mut cell: ProgramCell<Box<dyn std::any::Any + Send + Sync>> = ProgramCell::new();
    cell.set(Box::new(99_i32));

    let taken = cell.take();
    assert!(taken.is_some());
    assert_eq!(*taken.unwrap().downcast_ref::<i32>().unwrap(), 99);

    // After take, get_raw returns None.
    assert!(cell.get_raw().is_none());

    // Calling take again returns None.
    let taken_again = cell.take();
    assert!(taken_again.is_none());
}
