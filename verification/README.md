# fopener

A folder-watching automation library: a rule names a folder, a glob mask and
an optional regex; files that appear there are checked against the rule,
waited for until their size stops changing, and handed to an action whose
arguments carry placeholders (`{file}`, `{dir}`, `{filename}`, `{stem}`,
`{ext}`, `{rule}`).

- `src/` is the verified library. `matching` decides whether a rule takes a
  file, `placeholders` renders arguments, `stable` judges successive size
  samples, `validation` and `config` check rules, `debounce` keeps the
  debounce window per rule and file, `runner` says what an action launches
  and what its outcome reads as, `engine` handles a watcher's start and each
  file-system notification (which files and rules it is tried on, and what
  each file and rule lead to), `cli` and `gui` hold what the command-line
  tool and the desktop editor decide and print. `paths` and the pattern
  validators in `matching` are where `std::path`, `globset` and `regex` are
  called.
- `app/` is the `fopener` command-line tool: reading and writing
  `config.json`, the file-system notifications, threads, sleeping and
  process launching, each step asking the library what to do.
- `tests/` runs the library on concrete values.

The desktop editor's window (its FLTK widgets) is not part
of this crate: its widgets and event plumbing have no rule of their own, and
what it decides (the rule form, the log, the test message, the event lines)
is in `gui`. The command-line tool is the one program here.

Paths are handled as UTF-8 text: `app/` converts file-system paths with
`to_string_lossy`, so a path that is not valid UTF-8 reaches the library
with replacement characters.
