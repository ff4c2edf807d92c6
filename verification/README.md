# serial_debugger

A serial-port debugging assistant whose logic is verified with Verus: it
opens a port with a chosen configuration, shows what arrives line by line in
ASCII, HEX, UTF-8 or GBK, sends text (once, from saved preset commands, or in
a loop), and exports the log as TXT or CSV.

## Layout

- `src/` — the verified library.
  - `text` — characters, trimming, decimal numbers, parsing.
  - `serial::encoding` — text to wire bytes and back, HEX text, the streaming
    UTF-8 decoder of the receive path.
  - `serial::manager` — which settings open a port, how a send proceeds
    through partial writes, what a read reports.
  - `state` — the message log (line framing, the bounded log, line endings,
    display) and the application state.
  - `export` — export rows, TXT and CSV documents, export paths, settings.
  - `app` — every user action and port event of the desktop application as
    a step from state to state that names the outside work to do; `app::view`
    says what each part of the window shows.
  - `ui` — palette and button tones.
  - `services`, `components`, `backend` — the web front-end's store and panels
    and its desktop backend, which differ from the native application in a
    few messages and rules.
- `tests/` — tests of the library.
- `app/` — a terminal front end: the port, files, settings and a command loop
  around `AppView`.
