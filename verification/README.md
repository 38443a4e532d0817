# stowaway

A dotfile manager: it stows a source tree into a target directory through a
versioned store under `~/.stowaway`, substituting `@name@` placeholders with
the variables of `stowaway.yaml`.

## Layout

- `src/` is the library, verified with Verus. Each lifecycle phase (context,
  scan, validate, interpolate, link, cleanup) is a function from what the
  caller observed on disk to a decision: the next state of the operation's
  context and a plan of what to write, link or remove. The engine sequences
  the phases one step at a time. Glob matching (`glob`) and SHA-256 (`sha2`)
  are called through small trusted wrappers whose contracts are documented
  beside them.
- `app/` is the command-line program: argument parsing (`clap`), logging
  (`tracing-subscriber`), reading and writing files, walking directories
  (`walkdir`), YAML and JSON records (`serde`), and the loop that runs the
  phases and carries out their plans.
- `tests/` exercises the library on concrete observations.
