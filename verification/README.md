# mew

A terminal card for the project in front of you: git branch and state, the
project's language and toolchain, lines of code, coverage, and machine
readings, painted with a theme.

The crate is written in Verus. `src/` is the library; its functions carry
contracts and are proved against them, except a few small wrappers around
calls into std and git2 (`String::push`, `str::to_lowercase`, the
`git2::Status` bit tests), marked `#[verifier::external_body]`, whose
contracts are trusted and say in their doc comments what they claim:

- `git` — the mascot's mood for a repository state, the head's name and
  abbreviated hash, the upstream standing, the status list tallied;
- `hook` — the shell snippets that show the card on `cd`;
- `system` — what `/proc` files, `statvfs`, `os-release` and the environment
  say, reduced to numbers and names; uptime text; the toolchain probe as a
  step function (which command to run next, and the answer; a later command
  only when the earlier ones could not be started);
- `telemetry` — languages by file extension, the line tally and its top
  language, lcov and tarpaulin reports, the project language from top-level
  names;
- `theme` — the built-in palette, `#rrggbb` parsing, escape sequences, the
  palette for plain and truecolor output, the colour mode (`NO_COLOR`);
- `text` — the pieces of `str` behaviour the rest relies on (`lines`,
  `split_whitespace`, `trim`, integer parsing, decimal writing), each stated
  over `Seq<char>`.

`app/` holds what touches the machine: git2 calls, file and directory reads,
processes, the environment, the terminal, floating point readings and the
theme file's serde types. `tests/` runs the library on concrete values.
