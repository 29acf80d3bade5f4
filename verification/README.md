# cloudex

A command line for Codex Cloud tasks: environments, creating and watching tasks, applying their
diffs in git worktrees, pull requests, and a terminal interface.

- `src/` holds the rules of all this as a library that Verus verifies. It does no input or output:
  where something outside is needed, a state machine says what, and is told what came of it
  (`ensure`, `pr`, `watch`, `job`, `run`, `app`).
- `app/` is the program around it: arguments, requests, git, and drawing.
- `tests/` runs the library on concrete values.

Every function of the library states what it returns or changes over mathematical values: texts are
sequences of characters, and each state has a view of its own. What holds of several functions
together is stated as proof functions whose names start with `law_`.

What is believed without proof stands in `text` and `unicode` (`String::push`, lower case, widths),
`json` (`serde_json`), `auth` (base64, header values), `time` (`chrono`) and `input` (HTTP methods).
