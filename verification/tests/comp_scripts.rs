use mingling::comp_scripts::{comp_script_extension, comp_script_file_name, comp_script_shells, comp_script_text};
use mingling::packages::completion_script_names;
use mingling::shell::ShellFlag;

#[test]
fn comp_script_extension_per_shell() {
    assert_eq!(comp_script_extension(&ShellFlag::Bash), ".sh");
    assert_eq!(comp_script_extension(&ShellFlag::Zsh), ".zsh");
    assert_eq!(comp_script_extension(&ShellFlag::Fish), ".fish");
    assert_eq!(comp_script_extension(&ShellFlag::Powershell), ".ps1");
    assert_eq!(comp_script_extension(&ShellFlag::Other("custom".to_string())), ".sh");
}

#[test]
fn comp_script_file_name_joins_name_and_extension() {
    assert_eq!(comp_script_file_name(&ShellFlag::Zsh, "myapp"), "myapp_comp.zsh");
    assert_eq!(comp_script_file_name(&ShellFlag::Powershell, "mling"), "mling_comp.ps1");
}

#[test]
fn comp_script_shells_per_os() {
    assert_eq!(comp_script_shells("windows"), vec![ShellFlag::Powershell]);
    assert_eq!(comp_script_shells("linux"), vec![ShellFlag::Zsh, ShellFlag::Bash, ShellFlag::Fish]);
    assert_eq!(comp_script_shells("macos"), vec![ShellFlag::Zsh, ShellFlag::Bash, ShellFlag::Fish]);
}

#[test]
fn built_scripts_are_picked_up_when_installing() {
    let names = vec![
        comp_script_file_name(&ShellFlag::Bash, "myapp"),
        "myapp".to_string(),
        comp_script_file_name(&ShellFlag::Fish, "myapp"),
    ];
    assert_eq!(
        completion_script_names(&names),
        vec!["myapp_comp.sh".to_string(), "myapp_comp.fish".to_string()]
    );
}

#[test]
fn comp_script_text_sets_the_program_name() {
    assert_eq!(comp_script_text("complete -F _<<<bin_name>>> <<<bin_name>>>", "mling"), "complete -F _mling mling");
}
