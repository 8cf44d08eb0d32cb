# cterm

The logic of a terminal emulator whose sessions live in a daemon: how plugins are
admitted, what the daemon does with its sessions, and what a window does with tabs,
panes and input. It is written in Verus, and every function is verified against its
contract.

- `src/plugin/` admits plugin packages, keeps their grants, and frames the messages
  that are exchanged with them.
- `src/daemon/` manages sessions, streams their screens, runs file transfers under
  the user's consent, and hands sessions over when the daemon is relaunched.
- `src/ui/` decides what key presses, mouse events, window actions, panes, tabs and
  drawing lead to.
- `src/text.rs`, `src/bytes.rs` and `src/keyed.rs` hold what these share.
- `tests/` runs the library on examples.
- `app/` is ordinary Rust around it: files, sockets, threads, timers, and everything
  that is measured in floating point.

What holds of the library as a whole is stated by the proof functions whose names
start with `law_`. The calls into other crates are wrapped in small functions marked
`external_body`; the comment on each says what is taken on trust.
