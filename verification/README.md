# glide

glide helps someone find their way around a repository: who owns a path,
what to read first, how to ask for access, where the friction is, and what
they are focused on today. It has a command line and a block console.

## Layout

- `src/` is the library, verified with Verus: command and question routing,
  the layered configuration and dotted-key reads and writes, CODEOWNERS and
  git-history tallies, ownership ranking, the verbs' answers, the console's
  state machine, key bindings and rendering, the daily-note command surface,
  and the session-start hook logic. Every public function states what it
  returns in its `ensures`; the properties that span several calls are
  proof functions named `law_*`.
- `tests/` runs the library on concrete inputs.
- `app/` is the program around it: argument parsing, the SQLite graph,
  git and file walking, the terminal, and the serde copies of the
  library's types.
