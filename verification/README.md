# ppgit

`ppgit` (private-public git) wraps `git` for projects that keep a public
repository and a private one — the public part plus private files — in one
working directory, with `.git` and `.ppgit` as the two git-dirs.

This crate is its core, verified with Verus:

- `src/` is the library. Every command is a conversation (`flow`): given the
  replies so far, a command names its next action — run a program with the
  terminal attached or quietly, print lines, touch a file, or finish with an
  exit code. The contracts state, for every sequence of replies, which
  action comes next.
  - `text` — the string and character-sequence helpers, with their specs.
  - `cli`, `exec`, `gh` — reading the command line, judging program runs,
    and the `gh` queries.
  - `ppgitignore` — the managed block in each git-dir's `info/exclude`.
  - `commands` — `init`, `clone`, `commit` and `doctor`.
- `app/` performs the actions: it spawns the processes, reads and writes
  the files, prints, and feeds the outcomes back.
- `tests/` runs the library on concrete values.
