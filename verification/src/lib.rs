//! Core logic of the mingling command-line framework: argument splitting,
//! flag extraction, completion suggestions, dispatch matching and the
//! template rule language.

pub mod text;
pub mod splitter;
pub mod flag;
pub mod string_vec;
pub mod suggest;
pub mod suggest_order;
pub mod casing;
pub mod shell;
pub mod completion;
pub mod comp_scripts;
pub mod expansion;
pub mod error;
pub mod node;
pub mod dispatch;
pub mod config;
pub mod controls;
pub mod answers;
pub mod toml_model;
pub mod rule_solver;
pub mod classes;
pub mod packages;
pub mod project_gen;
pub mod template_source;
pub mod updater;
pub mod paint;
pub mod cargo_style;
pub mod display;
pub mod lazy_resource;
pub mod exec_flow;
pub mod program;
pub mod resource;
