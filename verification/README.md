# xtrans

An SSH wrapper that forwards the local clipboard to a remote session:
pressing Ctrl+V with an image on the clipboard uploads the image to the
remote host and types its path; text is sent as a bracketed paste; with an
empty clipboard the Ctrl+V itself is sent.

- `src/` is the verified library (Verus): splitting input at Ctrl+V
  (`proxy/forward.rs`), what a paste types (`proxy/paste.rs`), finding the
  ssh destination (`proxy/destination.rs`), the ssh argument lists
  (`proxy/command.rs`), decimal notation (`proxy/decimal.rs`), choosing the
  clipboard content and encoding images as PNG (`clipboard.rs`), and the
  state of a terminal session (`terminal.rs`).
- `app/` is the program around it: command-line parsing, the clipboard,
  the pseudo-terminal or console, and the ssh processes.
- `tests/` runs the library on concrete inputs.
