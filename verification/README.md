# dotdeploy

A dotfile and system configuration manager: modules declare files to link,
copy or create, tasks to run, packages to install and messages to show;
modules depend on each other, and a host module ties them together for a
machine.

## Layout

- `src/` is the library, verified with Verus. It holds the decisions:
  settings precedence, module resolution (a state machine that asks for one
  module configuration at a time), configuration rules and conditions, the
  placement of a module's files into deployment phases, the order of a
  deployment's steps and the checks that stop it or ask first, removal planning,
  package and task bookkeeping, backups and their restoration, log rotation,
  the interactive review of changed files, and the text and path helpers
  these rely on. Calls into other crates (`sha2`, `uuid`, `handlebars`,
  `similar`, `nix`, `std::path`) go through small trusted wrappers whose
  contracts say what the library relies on.
- `app/` is the program around it: the command line (`clap`), reading the
  configuration and module files (`toml`, `shellexpand`, `dirs`), the record
  of deployed modules and files (a JSON file in the store directory), file
  system work, running commands, templating helpers and logging.
- `tests/` exercises the library on concrete values.

## Commands

`deploy`, `sync`, `remove`, `update`, `lookup`, `validate`, `uninstall` and
`completions`; `dotdeploy --help` lists their options.
