# pinentry-cadenza

A Wayland/GTK pinentry for gpg-agent. It speaks the Assuan protocol on
stdin/stdout, shows a full-screen overlay dialog, and hands over to
`pinentry-curses` / `pinentry-tty` when the caller has no display.

## Layout

- `src/` — the library, verified with Verus:
  - `assuan.rs`: command parsing, percent-encoding and -decoding, response
    lines, and `server_step`, which carries out one line of the server loop
    (new session state, response text, whether the connection closes).
  - `state.rs`: the session state and what `RESET` keeps.
  - `cli.rs`: removal of pinentry options before the arguments reach GTK.
  - `fallback.rs`: the caller context and the terminal fallback decision.
  - `dialog.rs`: the dialog's sound, layout and texts, and the state machine
    of the dialog window.
  - `text.rs`: character helpers (Unicode whitespace, trimming, ASCII case,
    digits).
- `tests/` — tests of the library.
- `app/` — the program: argument parsing, environment, the stdin/stdout loop,
  `exec` of the terminal fallback, sounds, and the GTK widgets.
