//! The shell completion scripts a build writes for a program: which shells
//! get one on each operating system, and the file each one is written to.
use vstd::prelude::*;
use crate::expansion::{expand_template, param_views, template_expansion_of};
use crate::packages::comp_script_names;
use crate::shell::ShellFlag;
use crate::template_source::contains_text;
use crate::text::{concat, owned};

verus! {

/// The file suffix of the completion script for `shell`, that of its
/// template; a shell without a template of its own gets the Bash one.
pub open spec fn comp_extension(shell: ShellFlag) -> Seq<char> {
    match shell {
        ShellFlag::Zsh => ".zsh"@,
        ShellFlag::Fish => ".fish"@,
        ShellFlag::Powershell => ".ps1"@,
        _ => ".sh"@,
    }
}

/// The name of the completion script for the program `bin_name` in `shell`.
pub open spec fn comp_file_name(shell: ShellFlag, bin_name: Seq<char>) -> Seq<char> {
    bin_name + "_comp"@ + comp_extension(shell)
}

/// The file suffix of the completion script for `shell`.
pub fn comp_script_extension(shell: &ShellFlag) -> (r: &'static str)
    ensures
        r@ == comp_extension(*shell),
{
    match shell {
        ShellFlag::Zsh => ".zsh",
        ShellFlag::Fish => ".fish",
        ShellFlag::Powershell => ".ps1",
        _ => ".sh",
    }
}

/// The file the completion script for the program `bin_name` in `shell` is
/// written to: `{bin_name}_comp{extension}`.
pub fn comp_script_file_name(shell: &ShellFlag, bin_name: &str) -> (r: String)
    ensures
        r@ == comp_file_name(*shell, bin_name@),
{
    let a = concat(bin_name, "_comp");
    concat(a.as_str(), comp_script_extension(shell))
}

/// Whether a build knows which completion scripts to write on `os`.
pub open spec fn builds_comp_scripts_on(os: Seq<char>) -> bool {
    os == "windows"@ || os == "linux"@ || os == "macos"@
}

/// The shells whose completion scripts a build writes on the operating
/// system `os` (as `std::env::consts::OS` names it): PowerShell on Windows;
/// Zsh, Bash and Fish on Linux and macOS.
pub fn comp_script_shells(os: &str) -> (r: Vec<ShellFlag>)
    requires
        builds_comp_scripts_on(os@),
    ensures
        os@ == "windows"@ ==> r@ == seq![ShellFlag::Powershell],
        os@ != "windows"@ ==> r@ == seq![ShellFlag::Zsh, ShellFlag::Bash, ShellFlag::Fish],
{
    if crate::text::str_eq(os, "windows") {
        vec![ShellFlag::Powershell]
    } else {
        vec![ShellFlag::Zsh, ShellFlag::Bash, ShellFlag::Fish]
    }
}

/// Every completion script a build writes is one that installing a package
/// copies and loading the enabled packages finds: its name contains
/// `_comp`, so the selection of completion scripts keeps it.
pub proof fn law_built_scripts_are_found(shell: ShellFlag, bin_name: Seq<char>)
    ensures
        contains_text(comp_file_name(shell, bin_name), "_comp"@),
        comp_script_names(seq![comp_file_name(shell, bin_name)], 1) == seq![comp_file_name(shell, bin_name)],
{
    let n = comp_file_name(shell, bin_name);
    reveal_strlit("_comp");
    assert(n.subrange(bin_name.len() as int, bin_name.len() as int + 5) =~= "_comp"@);
    assert(comp_script_names(seq![n], 0) =~= Seq::<Seq<char>>::empty());
    assert(comp_script_names(seq![n], 1) =~= seq![n]);
}

/// The completion script of the program `bin_name` from the shell's script
/// template: the template with its `bin_name` parameter set, or nothing
/// when the template's implementation areas are malformed.
pub fn comp_script_text(template: &str, bin_name: &str) -> (r: String)
    ensures
        r@ == match template_expansion_of(template@, seq![("bin_name"@, bin_name@)]) {
            Some(t) => t,
            None => Seq::empty(),
        },
{
    let mut params: Vec<(String, String)> = Vec::new();
    params.push((owned("bin_name"), owned(bin_name)));
    proof {
        assert(param_views(params@) =~= seq![("bin_name"@, bin_name@)]);
    }
    match expand_template(template, &params) {
        Some(t) => t,
        None => String::new(),
    }
}

} // verus!
