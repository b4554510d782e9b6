# moon_core

The workspace engine of the moon IDE: the decisions behind its source
control panel, its language servers, its save pipeline and its logs,
written in Rust and proved with Verus.

## Layout

- `src/` — the verified library. Every function there carries a
  `requires`/`ensures` contract that Verus checks; laws that span
  several functions are public proof functions named `law_*`.
  - Git and GitHub/Forgejo: `commit`, `commit_flow` (the commit and
    commit-on-new-branch state machine), `branch_info` (what the panel
    shows about the checked-out branch), `branches`, `status`,
    `summary`, `patch`, `blame`, `git`, `git_run`, `forge`.
  - Language servers (`src/lsp/`): header framing, message routing,
    document versions, watched-file registrations, diagnostics
    translation, server specs, binary discovery (`locate`, a state
    machine over questions about the machine), and the broker's
    decisions.
  - Saving: `pre_save`, `format`, `lint_staged`, `editorconfig`.
  - Logs, time, text, numbers, paths and the JSON value model.
- `tests/` — ordinary Rust tests of the library.
- `app/` — the input/output around the library: processes, files,
  sockets and environment. It runs what the library decides and hands
  the outcomes back; it holds no decisions of its own.

Calls into `camino`, `globset`, `url` and `lsp-types` are made from
`src/` through small trusted wrappers whose contracts name or state what
those crates return; everything else is proved.
