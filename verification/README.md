# ccsessions core

The rules behind a small display of running coding sessions: every session is a creature in the
menu bar or at the bottom of the screen, and its face tells the session's state.

`src/` is the library, written in Verus. Every function in it states what it returns and is
proved to return it. `app/` is ordinary Rust around it: files, environment, processes, JSON and
TOML, and the floating-point arithmetic of outlines. `tests/` runs the library.

| Module | What it is about |
|---|---|
| `session` | sessions, their states, when one counts as dead |
| `event` | what an event of a hook does to a session |
| `store` | sessions as files: names, listing, sweeping |
| `lock` | how long to wait for the lock of the store |
| `process` | whether a process is alive, as far as the system says |
| `transcript` | the title of a session, and whether its last turn failed |
| `ignore` | rules for sessions to leave out of the list |
| `config` | the settings, their schema and their file |
| `lang` | the two languages on the screen |
| `face` | faces: reading, checking, drawing, and putting them together from parts |
| `num`, `text` | numbers by their bits, and text as characters |

Floating-point numbers stand in the library as `num::Num`, by their bits: it compares them and
hands them on, but does not compute with them.

## What is taken on trust

- `String::push` appends a character (`text.rs`).
- What `{:?}` prints for a string or a character is a function of it (`text.rs`).
- What `String::from_utf8_lossy` gives is a function of the bytes (`transcript.rs`).
- What `Path::parent` gives is a function of the path (`lib.rs`).
- The clock says something (`lib.rs`); nothing is assumed about what.
- `serde_json::Value` is carried through `event::HookPayload` and never looked into.

## Laws

The proof functions named `law_*` state what holds of several functions together: that stopping
an agent undoes starting it, that sweeping twice sweeps once, that a setting takes back the value
it shows, that no face of a user replaces one of the program, and more.
