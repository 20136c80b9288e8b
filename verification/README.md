# slaxide

A Slack client for the Linux desktop. What it decides and computes is a library that is verified
with Verus; what it reads, sends and draws is an ordinary program around that library.

- `src/` is the library: settings and how they match messages, the ranking of the timeline, the
  state of the window and how events change it, the rendering of messages, requests to Slack,
  logging in, and what is shown in each part of the window. Each type has a model of sequences and
  numbers, and each function says in its contract what it returns in terms of those models. Public
  proof functions whose names begin with `law_` state what holds across functions.
- `tests/` runs the library on concrete values, with the crates that it calls.
- `app/` is the program: GTK widgets, HTTP and the web socket, the keyring, files, the clock.

The library takes the time, the hour, fresh identifiers and what is on disk as arguments. It calls
`regex`, `url`, `emojis`, `chrono`, `uuid` and `serde_json`; each such call stands in a small
function whose contract names what the crate returns.
