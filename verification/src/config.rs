//! The settings a program runs with: what it prints, how it asks, and which
//! structural renderer it uses.
use vstd::prelude::*;
use crate::casing::{is_kebab, kebab_case, kebab_case_of};
use crate::text::{concat, owned, str_eq};

verus! {

/// Whether errors are printed.
#[derive(Debug, Clone, Copy, PartialEq, Eq, Structural)]
pub enum ErrorOutput {
    Show,
    Hide,
}

/// Whether render results are printed.
#[derive(Debug, Clone, Copy, PartialEq, Eq, Structural)]
pub enum RenderOutput {
    Show,
    Hide,
}

/// Whether panics are reported.
#[derive(Debug, Clone, Copy, PartialEq, Eq, Structural)]
pub enum PanicSilence {
    Show,
    Silence,
}

/// How much the program says.
#[derive(Debug, Clone, Copy, PartialEq, Eq, Structural)]
pub enum Verbosity {
    Normal,
    Verbose,
    Quiet,
    Debug,
}

/// Whether output is colored.
#[derive(Debug, Clone, Copy, PartialEq, Eq, Structural)]
pub enum ColorOutput {
    Enabled,
    Disabled,
}

/// Whether progress is shown.
#[derive(Debug, Clone, Copy, PartialEq, Eq, Structural)]
pub enum ProgressOutput {
    Enabled,
    Disabled,
}

/// Where the help of the argument parser goes.
#[derive(Debug, Clone, Copy, PartialEq, Eq, Structural)]
pub enum ClapHelpPrintBehaviour {
    /// Into the render result.
    WriteToRenderResult,
    /// Straight to standard output.
    PrintDirectly,
}

impl Default for ClapHelpPrintBehaviour {
    fn default() -> (r: ClapHelpPrintBehaviour)
        ensures
            r == ClapHelpPrintBehaviour::PrintDirectly,
    {
        ClapHelpPrintBehaviour::PrintDirectly
    }
}

/// What the program prints.
#[derive(Debug, Clone, Copy, PartialEq, Eq, Structural)]
pub struct ProgramStdoutSetting {
    pub error_output: ErrorOutput,
    pub render_output: RenderOutput,
    pub silence_panic: PanicSilence,
    pub verbosity: Verbosity,
    pub color: ColorOutput,
    pub progress: ProgressOutput,
    pub clap_help_print_behaviour: ClapHelpPrintBehaviour,
}

impl ProgramStdoutSetting {
    /// The default settings: everything shown, colored, at normal
    /// verbosity, help printed directly.
    pub open spec fn default_spec() -> ProgramStdoutSetting {
        ProgramStdoutSetting {
            error_output: ErrorOutput::Show,
            render_output: RenderOutput::Show,
            silence_panic: PanicSilence::Show,
            verbosity: Verbosity::Normal,
            color: ColorOutput::Enabled,
            progress: ProgressOutput::Enabled,
            clap_help_print_behaviour: ClapHelpPrintBehaviour::PrintDirectly,
        }
    }
}

impl Default for ProgramStdoutSetting {
    /// Everything shown, colored, at normal verbosity.
    fn default() -> (r: ProgramStdoutSetting)
        ensures
            r == (ProgramStdoutSetting {
                error_output: ErrorOutput::Show,
                render_output: RenderOutput::Show,
                silence_panic: PanicSilence::Show,
                verbosity: Verbosity::Normal,
                color: ColorOutput::Enabled,
                progress: ProgressOutput::Enabled,
                clap_help_print_behaviour: ClapHelpPrintBehaviour::PrintDirectly,
            }),
    {
        ProgramStdoutSetting {
            error_output: ErrorOutput::Show,
            render_output: RenderOutput::Show,
            silence_panic: PanicSilence::Show,
            verbosity: Verbosity::Normal,
            color: ColorOutput::Enabled,
            progress: ProgressOutput::Enabled,
            clap_help_print_behaviour: ClapHelpPrintBehaviour::default(),
        }
    }
}

/// Whether the program asks before acting.
#[derive(Debug, Clone, Copy, PartialEq, Eq, Structural)]
pub enum ConfirmationMode {
    Confirm,
    Skip,
}

/// How far the program acts.
#[derive(Debug, Clone, Copy, PartialEq, Eq, Structural)]
pub enum ExecutionMode {
    Normal,
    DryRun,
    Force,
}

/// Whether the program may ask the user.
#[derive(Debug, Clone, Copy, PartialEq, Eq, Structural)]
pub enum InteractionMode {
    Interactive,
    NonInteractive,
}

/// Whether questions are answered yes without asking.
#[derive(Debug, Clone, Copy, PartialEq, Eq, Structural)]
pub enum YesAssumption {
    /// Questions are asked.
    NoAssumption,
    /// Questions are answered yes.
    AssumeYes,
}

/// What the user asked of the program besides the command itself.
#[derive(Debug, Clone, Copy, PartialEq, Eq, Structural)]
pub struct ProgramUserContext {
    /// Whether help was asked for.
    pub help: bool,
    /// Whether hooks run.
    pub run_hook: bool,
    pub confirmation: ConfirmationMode,
    pub execution: ExecutionMode,
    pub interaction: InteractionMode,
    pub yes_assumption: YesAssumption,
}

impl ProgramUserContext {
    /// The default context: no help, hooks on, asking first, normal
    /// execution, non-interactive, nothing assumed.
    pub open spec fn default_spec() -> ProgramUserContext {
        ProgramUserContext {
            help: false,
            run_hook: true,
            confirmation: ConfirmationMode::Confirm,
            execution: ExecutionMode::Normal,
            interaction: InteractionMode::NonInteractive,
            yes_assumption: YesAssumption::NoAssumption,
        }
    }
}

impl Default for ProgramUserContext {
    /// No help, hooks on, asking first, normal execution, non-interactive.
    fn default() -> (r: ProgramUserContext)
        ensures
            r == (ProgramUserContext {
                help: false,
                run_hook: true,
                confirmation: ConfirmationMode::Confirm,
                execution: ExecutionMode::Normal,
                interaction: InteractionMode::NonInteractive,
                yes_assumption: YesAssumption::NoAssumption,
            }),
    {
        ProgramUserContext {
            help: false,
            run_hook: true,
            confirmation: ConfirmationMode::Confirm,
            execution: ExecutionMode::Normal,
            interaction: InteractionMode::NonInteractive,
            yes_assumption: YesAssumption::NoAssumption,
        }
    }
}

/// The structural format results are rendered in, if any.
#[derive(Debug, Clone, Copy, PartialEq, Eq, Structural)]
pub enum StructuralRendererSetting {
    Disable,
    Json,
    JsonPretty,
    Yaml,
    Toml,
    Ron,
    RonPretty,
}

/// The name a renderer setting is written as.
pub open spec fn renderer_name(s: StructuralRendererSetting) -> Seq<char> {
    match s {
        StructuralRendererSetting::Disable => "disable"@,
        StructuralRendererSetting::Json => "json"@,
        StructuralRendererSetting::JsonPretty => "json-pretty"@,
        StructuralRendererSetting::Yaml => "yaml"@,
        StructuralRendererSetting::Toml => "toml"@,
        StructuralRendererSetting::Ron => "ron"@,
        StructuralRendererSetting::RonPretty => "ron-pretty"@,
    }
}

/// The setting whose name is `k`, if any.
pub open spec fn renderer_named(k: Seq<char>) -> Option<StructuralRendererSetting> {
    if k == "disable"@ {
        Some(StructuralRendererSetting::Disable)
    } else if k == "json"@ {
        Some(StructuralRendererSetting::Json)
    } else if k == "json-pretty"@ {
        Some(StructuralRendererSetting::JsonPretty)
    } else if k == "yaml"@ {
        Some(StructuralRendererSetting::Yaml)
    } else if k == "toml"@ {
        Some(StructuralRendererSetting::Toml)
    } else if k == "ron"@ {
        Some(StructuralRendererSetting::Ron)
    } else if k == "ron-pretty"@ {
        Some(StructuralRendererSetting::RonPretty)
    } else {
        None
    }
}

impl Default for StructuralRendererSetting {
    fn default() -> (r: StructuralRendererSetting)
        ensures
            r == StructuralRendererSetting::Disable,
    {
        StructuralRendererSetting::Disable
    }
}

impl StructuralRendererSetting {
    /// The setting named by `s`, compared in kebab-case; an unknown name is
    /// an error that quotes it.
    pub fn parse_name(s: &str) -> (r: Result<StructuralRendererSetting, String>)
        ensures
            match renderer_named(kebab_case_of(s@)) {
                Some(v) => r == Ok::<StructuralRendererSetting, String>(v),
                None => r matches Err(m) && m@ == "Invalid renderer: '"@ + s@ + "'"@,
            },
            is_kebab(s@) ==> match renderer_named(s@) {
                Some(v) => r == Ok::<StructuralRendererSetting, String>(v),
                None => r is Err,
            },
    {
        let k = kebab_case(s);
        let n = k.as_str();
        if str_eq(n, "disable") {
            Ok(StructuralRendererSetting::Disable)
        } else if str_eq(n, "json") {
            Ok(StructuralRendererSetting::Json)
        } else if str_eq(n, "json-pretty") {
            Ok(StructuralRendererSetting::JsonPretty)
        } else if str_eq(n, "yaml") {
            Ok(StructuralRendererSetting::Yaml)
        } else if str_eq(n, "toml") {
            Ok(StructuralRendererSetting::Toml)
        } else if str_eq(n, "ron") {
            Ok(StructuralRendererSetting::Ron)
        } else if str_eq(n, "ron-pretty") {
            Ok(StructuralRendererSetting::RonPretty)
        } else {
            let head = concat("Invalid renderer: '", s);
            Err(concat(head.as_str(), "'"))
        }
    }

    /// The setting named by `s`; an unknown name turns the renderer off.
    pub fn from_name(s: &str) -> (r: StructuralRendererSetting)
        ensures
            r == match renderer_named(kebab_case_of(s@)) {
                Some(v) => v,
                None => StructuralRendererSetting::Disable,
            },
    {
        match StructuralRendererSetting::parse_name(s) {
            Ok(v) => v,
            Err(_) => StructuralRendererSetting::Disable,
        }
    }

    /// The name the setting is written as.
    pub fn to_string(&self) -> (r: String)
        ensures
            r@ == renderer_name(*self),
    {
        match self {
            StructuralRendererSetting::Disable => owned("disable"),
            StructuralRendererSetting::Json => owned("json"),
            StructuralRendererSetting::JsonPretty => owned("json-pretty"),
            StructuralRendererSetting::Yaml => owned("yaml"),
            StructuralRendererSetting::Toml => owned("toml"),
            StructuralRendererSetting::Ron => owned("ron"),
            StructuralRendererSetting::RonPretty => owned("ron-pretty"),
        }
    }
}

/// Every setting's name is already in kebab-case and names that setting
/// again, so reading back what `to_string` wrote gives the same setting.
pub proof fn law_renderer_name_round_trip(x: StructuralRendererSetting)
    ensures
        is_kebab(renderer_name(x)),
        renderer_named(renderer_name(x)) == Some(x),
{
    reveal_strlit("disable");
    reveal_strlit("json");
    reveal_strlit("json-pretty");
    reveal_strlit("yaml");
    reveal_strlit("toml");
    reveal_strlit("ron");
    reveal_strlit("ron-pretty");
    let n = renderer_name(x);
    if n =~= "yaml"@ || n =~= "toml"@ {
        assert(n[0] != 'j');
    }
    if n =~= "toml"@ {
        assert(n[0] != 'y');
    }
}

impl std::str::FromStr for StructuralRendererSetting {
    type Err = String;

    fn from_str(s: &str) -> (r: Result<StructuralRendererSetting, String>)
        ensures
            match renderer_named(kebab_case_of(s@)) {
                Some(v) => r == Ok::<StructuralRendererSetting, String>(v),
                None => r matches Err(m) && m@ == "Invalid renderer: '"@ + s@ + "'"@,
            },
    {
        StructuralRendererSetting::parse_name(s)
    }
}

impl<'a> From<&'a str> for StructuralRendererSetting {
    fn from(s: &'a str) -> (r: StructuralRendererSetting)
        ensures
            r == match renderer_named(kebab_case_of(s@)) {
                Some(v) => v,
                None => StructuralRendererSetting::Disable,
            },
    {
        StructuralRendererSetting::from_name(s)
    }
}

impl<'a> vstd::std_specs::convert::FromSpecImpl<&'a str> for StructuralRendererSetting {
    open spec fn obeys_from_spec() -> bool {
        false
    }

    open spec fn from_spec(v: &'a str) -> StructuralRendererSetting {
        vstd::pervasive::arbitrary()
    }
}

impl From<String> for StructuralRendererSetting {
    fn from(s: String) -> (r: StructuralRendererSetting)
        ensures
            r == match renderer_named(kebab_case_of(s@)) {
                Some(v) => v,
                None => StructuralRendererSetting::Disable,
            },
    {
        StructuralRendererSetting::from_name(s.as_str())
    }
}

impl vstd::std_specs::convert::FromSpecImpl<String> for StructuralRendererSetting {
    open spec fn obeys_from_spec() -> bool {
        false
    }

    open spec fn from_spec(v: String) -> StructuralRendererSetting {
        vstd::pervasive::arbitrary()
    }
}

/// An enum whose variants can be named on the command line. A program's
/// author implements it (by hand or by derive) for the enum.
pub trait EnumTag {
    /// The enum's name and description.
    fn enum_info(&self) -> (&'static str, &'static str);

    /// The name and description of each variant.
    fn enums() -> &'static [(&'static str, &'static str)];

    /// The variant named `name`, if any.
    fn build_enum(name: String) -> Option<Self>
        where Self: Sized;
}

} // verus!
