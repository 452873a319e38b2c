# EutherGate

EutherGate is a browser gate to a remote development machine: one persistent
terminal with a bounded replay of its output, a captured desktop that one viewer
at a time can watch, and a virtual pointer. A login token, a session cookie and,
optionally, the token of a trusted proxy decide who may use it.

## Layout

- `src/` is a library, verified with [Verus](https://github.com/verus-lang/verus).
  It holds the decisions and nothing that reads, writes or waits:
  - `auth`: tokens, cookies, and which requests are turned away;
  - `config`: the settings from the environment;
  - `desktop`, `error`, `monitors`: starting, stopping and watching a capture,
    and the `hyprctl` commands that this takes;
  - `number`, `text`: binary64 numbers as bits, and text as characters;
  - `pointer`: commands of the virtual pointer;
  - `reply`: replies of the gateway;
  - `secrets`: comparing, hashing and drawing secrets;
  - `signaling`: the bridge between a desktop viewer and the media helper;
  - `terminal`: the replay buffer, the relay of the output to the viewers, and the
    size of the terminal.
- `tests/` runs the library with the crates that it calls.
- `app/` is the program around it: the HTTP server, the PTY, the child processes
  and the Wayland client.

What holds of all inputs is stated by the functions named `law_...`.

## What is trusted

The library believes, without proof, what it says of a few outside functions:
`sha2::Sha256::digest`, the URL-safe encoder of `base64`, `rand::rng`, the header
map and header values of `axum::http`, `serde_json::from_str` with the values that
it returns, and the broadcast channel of `tokio`. Each stands behind a small function marked `external_body`, with
a comment that says what is claimed.
