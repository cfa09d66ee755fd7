use mingling::config::{
    ColorOutput, EnumTag, ConfirmationMode, ErrorOutput, ExecutionMode, InteractionMode, PanicSilence,
    ProgramStdoutSetting, ProgramUserContext, ProgressOutput, RenderOutput, StructuralRendererSetting,
    Verbosity, YesAssumption,
};
#[test]
fn program_stdout_setting_default() {
let s = ProgramStdoutSetting::default();
assert_eq!(s.error_output, ErrorOutput::Show);
assert_eq!(s.render_output, RenderOutput::Show);
assert_eq!(s.silence_panic, PanicSilence::Show);
assert_eq!(s.verbosity, Verbosity::Normal);
assert_eq!(s.color, ColorOutput::Enabled);
assert_eq!(s.progress, ProgressOutput::Enabled);
}

#[test]
fn program_user_context_default() {
let ctx = ProgramUserContext::default();
assert!(!ctx.help);
assert!(ctx.run_hook);
assert_eq!(ctx.confirmation, ConfirmationMode::Confirm);
assert_eq!(ctx.execution, ExecutionMode::Normal);
assert_eq!(ctx.interaction, InteractionMode::NonInteractive);
assert_eq!(ctx.yes_assumption, YesAssumption::NoAssumption);
}

#[test]
fn from_str_disable() {
    let val: StructuralRendererSetting = "disable".parse().unwrap();
    assert!(matches!(val, StructuralRendererSetting::Disable));
}

#[test]
fn from_str_json() {
    let val: StructuralRendererSetting = "json".parse().unwrap();
    assert!(matches!(val, StructuralRendererSetting::Json));
}

#[test]
fn from_str_json_pretty() {
    let val: StructuralRendererSetting = "json-pretty".parse().unwrap();
    assert!(matches!(val, StructuralRendererSetting::JsonPretty));
}

#[test]
fn from_str_yaml() {
    let val: StructuralRendererSetting = "yaml".parse().unwrap();
    assert!(matches!(val, StructuralRendererSetting::Yaml));
}

#[test]
fn from_str_toml() {
    let val: StructuralRendererSetting = "toml".parse().unwrap();
    assert!(matches!(val, StructuralRendererSetting::Toml));
}

#[test]
fn from_str_ron() {
    let val: StructuralRendererSetting = "ron".parse().unwrap();
    assert!(matches!(val, StructuralRendererSetting::Ron));
}

#[test]
fn from_str_ron_pretty() {
    let val: StructuralRendererSetting = "ron-pretty".parse().unwrap();
    assert!(matches!(val, StructuralRendererSetting::RonPretty));
}

#[test]
fn from_str_invalid() {
    let res: Result<StructuralRendererSetting, String> = "invalid".parse();
    assert!(res.is_err());
}

#[test]
fn from_str_kebab_case() {
    let val: StructuralRendererSetting = "JsonPretty".parse().unwrap();
    assert!(matches!(val, StructuralRendererSetting::JsonPretty));
}

#[test]
fn from_str_case_insensitive() {
    let val: StructuralRendererSetting = "JSON".parse().unwrap();
    assert!(matches!(val, StructuralRendererSetting::Json));
}

#[test]
fn from_and_str() {
    let val = <StructuralRendererSetting as From<&str>>::from("json");
    assert!(
        matches!(val, StructuralRendererSetting::Disable)
            || matches!(val, StructuralRendererSetting::Json)
    );

    let val = <StructuralRendererSetting as From<&str>>::from("invalid");
    assert!(matches!(val, StructuralRendererSetting::Disable));
}

#[test]
fn from_string() {
    let val = <StructuralRendererSetting as From<String>>::from("json-pretty".to_string());
    assert!(
        matches!(val, StructuralRendererSetting::Disable)
            || matches!(val, StructuralRendererSetting::JsonPretty)
    );
}

#[test]
fn display_disable() {
    assert_eq!(StructuralRendererSetting::Disable.to_string(), "disable");
}

#[test]
fn display_json() {
    assert_eq!(StructuralRendererSetting::Json.to_string(), "json");
}

#[test]
fn display_json_pretty() {
    assert_eq!(
        StructuralRendererSetting::JsonPretty.to_string(),
        "json-pretty"
    );
}

#[test]
fn renderer_name_reads_back() {
    let all = [
        StructuralRendererSetting::Disable,
        StructuralRendererSetting::Json,
        StructuralRendererSetting::JsonPretty,
        StructuralRendererSetting::Yaml,
        StructuralRendererSetting::Toml,
        StructuralRendererSetting::Ron,
        StructuralRendererSetting::RonPretty,
    ];
    for x in all {
        assert_eq!(StructuralRendererSetting::parse_name(&x.to_string()), Ok(x));
    }
}

#[derive(Debug, PartialEq)]
enum Choice {
    Foo,
    Bar,
}

impl EnumTag for Choice {
    fn enum_info(&self) -> (&'static str, &'static str) {
        ("Choice", "Choice enum")
    }
    fn enums() -> &'static [(&'static str, &'static str)] {
        &[("Foo", "Foo variant"), ("Bar", "Bar variant")]
    }
    fn build_enum(name: String) -> Option<Self> {
        match name.as_str() {
            "Foo" => Some(Choice::Foo),
            "Bar" => Some(Choice::Bar),
            _ => None,
        }
    }
}

#[test]
fn enum_tag_names_variants() {
    assert_eq!(Choice::Foo.enum_info().0, "Choice");
    assert_eq!(Choice::enums().len(), 2);
    assert_eq!(Choice::build_enum("Bar".to_string()), Some(Choice::Bar));
    assert_eq!(Choice::build_enum("Baz".to_string()), None);
}
