# gh_pr_tui

The verified core of a terminal client for reviewing GitHub pull requests
across several repositories: the state and reducers of the user interface,
the repositories' pull requests with their selection, queues and monitors,
the merge bot, keyboard shortcuts and the command palette, the view models
that the screens draw, and the parsing of GitHub Actions logs (workflow
commands, groups, ANSI styling, log archives) shown in the build-log panel.

Every function in `src/` is verified by Verus against its contract. Calls into
`ansi-parser`, `zip` and `nucleo-matcher` stand behind small trusted wrappers
whose contracts describe what those crates do.

- `src/` — the library; `app_state.rs` holds the whole state, its root
  reducer and the store; `repos_state.rs` the repositories' reducer;
  `effects.rs` what carrying out an effect dispatches.
- `tests/` — tests run against the compiled library.
- `app/` — a small command-line driver: file access, serialization, and
  printing the views as text.

`f` cycles the pull request filter: None, Ready to Merge, Build Failed,
All. Filters go by mergeable status: Ready to Merge shows the pull requests
that are ready, Build Failed those whose build failed, None and All show
every one (`state::filter_prs`).
