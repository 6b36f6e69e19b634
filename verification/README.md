# aether_core

Verified decision logic for a desktop front end that drives the Aether tunnel
client through a pseudo-terminal.

- `src/text.rs`: whitespace, trimming, decimal rendering and substring search over characters.
- `src/ansi.rs`: removal of ANSI escape sequences from terminal output.
- `src/prompts.rs`: the client's setup menus, how they are recognised and answered.
- `src/pty.rs`: the per-chunk step of the terminal reader (log lines, current menu, one answer per menu).
- `src/status.rs`: proxy port, timeouts, retry budget and backoff.
- `src/manager.rs`: the connection life cycle as state transitions, with its laws.
- `app/`: the unverified plumbing (pseudo-terminal, threads, port probe, shell services).
