# Lisp Balance

Fixes unbalanced parentheses in Lisp code with Parinfer. The library in `src/`
is written and proved in Verus; `app/` is the command line program around it.

Comments are taken out of the code before Parinfer sees it, since a stray `|` or
`"` in them would mislead it, and are attached again to the lines they came
from. Strings, also those that span lines, character literals of the form `#\x`
and, in Scheme and Racket, the `#;` before an expression are told apart from
comments. The library proves, among other things, that

- a text comes back as it was where Parinfer changes nothing and no comment
  stands directly behind code (such a comment gets a space before it),
- every comment comes back unchanged on its own line,
- texts with the same code get the same request to Parinfer, whatever their
  comments,
- a second round finds the same comments and changes nothing,
- a check writes nothing, and exits with 0 for balanced code only,
- the lines of a diff are exactly the lines of both texts,
- a file is written only where balancing changes it.

Two functions are trusted rather than proved: `str::to_lowercase`, by which the
name of a dialect is read in any case, and the line diff of the crate `similar`.

| Flag | Description |
|------|-------------|
| `-i, --in-place` | fix the file in place |
| `-d, --diff` | show a unified diff of the changes |
| `-m, --mode <MODE>` | `indent`, `paren` or `smart` (the default) |
| `-c, --check` | only validate; exit with 0 if balanced, 1 if not |
| `-q, --quiet` | only print errors |
| `-j, --json` | report in JSON |
| `--lang <LANG>` | `lisp` (the default), `scheme`, `racket`, `clojure`, `hy`, `janet`, `picolisp` |

Without a file the text is read from the standard input. Without `-i` the
balanced text goes to the standard output; with `-j` a JSON object goes there,
which holds the balanced text as `fixed` on success and an `error` on failure.
