# minder

The logic of a coding-agent harness, written in Rust and proved with Verus: what
a turn of a conversation does, how tools and hooks are applied, what is kept of
a transcript, how requests for three model providers are built and their
answers read, and what the terminal shows.

## Layout

- `src/` is the library. Every function in it has a contract. State machines
  (`session`, `setup`, `loop_mode`, `schedule_mode`, `tui`, `cli`) take an event
  and give the next action; they do no input or output themselves.
- `app/` is the program around it: arguments, files, network, terminal, child
  processes, and the engine that runs hook scripts. `script`, `hook_engine` and
  `loop_mode` say which steps that engine is given and what its answers mean.
- `tests/` runs the library on concrete values, with the outside crates linked.

## How to read it

Contracts speak of views: `x@` is the mathematical value of `x`, `views(v@)`
that of a list. `SessionRecord::to_text` states that a session file that is read
gives back what was written. Public proof functions named `law_...` state what
holds across functions, for instance that a failed turn leaves the transcript as
it was, or that a tool runs only where the hooks allow it.

What is believed without proof stands next to the outside crate it is about, in
functions marked `external_body` and in `assume_specification` items, each with
a comment that says what is claimed: `json` (serde_json), `script` (mq-lang),
`markdown` (mq-markdown, two-face), `diff` (similar), `transcript` (ratatui),
`input_box` (unicode-width), `session_store` (uuid), and a few functions of the
standard library.
