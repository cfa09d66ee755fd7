# mingling

The core of the mingling command-line framework and of its `mling` tool,
written in Verus.

- `src/` is the library, every function with its contract proved except the
  small trusted wrappers named below: splitting
  of input lines, flags and shell completion contexts, suggestions and their
  order, command dispatch, the run machine of a program, the template rule
  language and the reading of rule, checklist and class files, project
  generation decisions, package listing and selection, the self-updater's
  checks, the markup painter and cargo-style messages. Calls into `colored`,
  `just_fmt`, `just_template`, `semver`, `sha2`, `toml_edit` and a few std
  functions stand behind small trusted wrappers (`external_body`) whose
  contracts say what those crates do. A lazy resource's drop callback runs
  when the resource is released with `release`, not in a destructor.
- `tests/` runs the library on concrete values.
- `app/` is ordinary Rust around it: file, network and process I/O, the
  loops that drive a program's commands and callbacks, and the values that
  are only told apart by their type at run time.
