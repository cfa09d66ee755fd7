use mingling::dispatch::match_user_input;
use mingling::error::ProgramInternalExecuteError;

fn strings(items: &[&str]) -> Vec<String> {
    items.iter().map(|s| s.to_string()).collect()
}

#[test]
fn longest_matching_node_wins() {
    let nodes = strings(&["remote", "remote add", "status"]);
    let (i, rest) = match_user_input(&nodes, &strings(&["remote", "add", "origin", "url"])).unwrap();
    assert_eq!(i, 1);
    assert_eq!(rest, vec!["origin", "url"]);
}

#[test]
fn node_must_match_whole_words() {
    let nodes = strings(&["stat"]);
    assert!(matches!(
        match_user_input(&nodes, &strings(&["status"])),
        Err(ProgramInternalExecuteError::DispatcherNotFound)
    ));
}

#[test]
fn exact_command_leaves_no_arguments() {
    let nodes = strings(&["status"]);
    let (i, rest) = match_user_input(&nodes, &strings(&["status"])).unwrap();
    assert_eq!(i, 0);
    assert!(rest.is_empty());
}

#[test]
fn equally_long_nodes_take_the_last() {
    let nodes = strings(&["a b", "a b"]);
    let (i, _) = match_user_input(&nodes, &strings(&["a", "b"])).unwrap();
    assert_eq!(i, 1);
}
