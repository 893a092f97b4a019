# netlab

A network lab: an HTTP load tester, a network debugger (TCP/UDP client and server), an
HTTP proxy and a SOCKS5 server, each with a terminal UI, and the logic of a desktop
shell around them.

- `src/` is the verified library (Verus). It holds the decisions and data of every tool:
  load-test validation, request sizes and headers, metrics and percentiles (ranked as
  binary64 arithmetic ranks them, emulated exactly in `binary64`), scheduling and
  pacing, SOCKS5 and proxy wire logic, traffic statistics, the terminal UI's state
  machines, and the desktop shell's mappings, log and history-table upkeep. Laws that
  span several functions are public proof functions (`lemma_*`).
- `app/` is the program around it: command line, sockets, async loops, terminal drawing,
  floating-point formatting and the SQLite history store. It calls the library for
  every decision.
- `tests/` runs the library on concrete values.
