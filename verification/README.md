# jj-navi

A workspace navigator for Jujutsu (`navi`, also `nv`), with its release tool
(`navi-release`). The decisions and text of both live in a library verified
with Verus; a thin program around it does the I/O.

## Layout

- `src/` — the verified library.
  - `types.rs`, `error.rs` — workspace names, templates, shells, statuses and
    the error messages.
  - `repo/` — what `jj` prints (`jj.rs`), where workspaces live (`paths.rs`,
    `discovery.rs`), the tool's files (`config.rs`, `metadata.rs`,
    `state.rs`), workspace operations (`workspace.rs`) and `doctor`'s
    findings (`doctor.rs`).
  - `switch.rs` — what a `switch` request does.
  - `table.rs`, `output.rs`, `payload.rs`, `theme.rs` — the `list` table,
    the `doctor` report, error messages, JSON payloads and colors from `jj`'s
    color settings.
  - `shell.rs`, `shell_doctor.rs`, `shell_install.rs` — shell integration
    scripts, the managed rc-file block and its checks.
  - `completion.rs` — completion of workspace names and flags.
  - `release/` — release metadata, changelog sections, versions, release
    labels and the release files.
  - `text.rs`, `doctor.rs` — text helpers and the `doctor` report model.
- `app/` — the program: command line, running `jj`, reading and writing
  files, terminal colors.
- `tests/` — tests of the library.

## Laws

Besides each function's contract, the library proves laws that span calls,
among them: installing the shell integration twice leaves the rc file as one
install does, and the block found there is the one installed; the shell
escape of a path reads back as the path; a switch records the workspace it
left, and `switch -` goes back to it, while a failed switch shows nothing
and leaves the saved state alone; the `doctor` report keeps findings that
compare equal in the order they were found; syncing the release files to a
version makes the version check pass; the release notes of a version just
prepared are its new changelog section; recorded workspace metadata reads
back as written; and valid release metadata has exactly one sorted order.
