# jjwt

A workspace manager for [jujutsu](https://martinvonz.github.io/jj/)
repositories: `switch`, `remove`, `list`, hooks, aliases and a set of `step`
utilities, configured by a user config and a project `.config/wt.toml`.

The decisions of the tool are a library verified with Verus; the program
around it reads the repository and the files, runs `jj` and the hooks, and
prints.

## Layout

- `src/` — the verified library.
  - `plan.rs` — from configuration, arguments and an observation of the
    repository to a plan: the list of actions a command carries out
    (`plan_switch`, `plan_remove`, `plan_list`, `plan_prune`, …).
  - `exec.rs` — the effects each action stands for, and the failures they
    report.
  - `format.rs` — the list table, its column widths, JSON and status-line
    output.
  - `types.rs`, `hookgroup.rs`, `strmap.rs` — configuration, layering of the
    user and project configs, hook groups, and the plain data of plans.
  - `template.rs`, `filters/` — template rendering and the template filters
    (`sanitize`, `sanitize_db`, `sanitize_hash`, `hash`, `hash_port`,
    `codename`, `dirname`, `basename`).
  - `observe.rs`, `jj_view.rs` — what is decided from what was read of the
    repository: current workspace, trunk bookmark, workspace paths, and the
    text `jj` prints.
  - `shortcuts.rs`, `approvals.rs`, `llm.rs`, `llm_cache.rs`, `state.rs`,
    `ci.rs`, `config_loader.rs`, `config_check.rs`, `completion.rs`,
    `highlight.rs`, `quoting.rs`, `copy_ignored.rs`, `trash.rs`, `shell.rs`,
    `tether.rs`
    — the rules of each remaining feature.
  - `text.rs`, `paths.rs`, `json.rs` — strings, paths and JSON values with
    their specifications.
- `tests/` — tests of the library.
- `app/` — the command-line program: argument parsing, file and process I/O,
  and the loop that performs a plan's effects.

Each public function states its result in `ensures`; the properties that
relate several functions are proof functions named `law_*`.
