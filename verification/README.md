# mcp_uhubctl

USB per-port power control for lab boards through `uhubctl`, served as MCP
tools. The library (`src/`) holds every decision, with its contracts proved by
Verus; `app/` is the program around it (process and file I/O, sleeping, the
MCP server).

- `boards` — the nickname map and how a target string resolves (nickname,
  then short name, then USB serial substring).
- `listing` — the uhubctl hub listing: locating the one port whose attached
  device matches; no match and ambiguity are errors.
- `jlink` — the `JLinkExe ShowEmuList` report and SEGGER nickname lookup.
- `uhubctl` — uhubctl invocations and answers, lsusb presence.
- `last_seen` — where each target was last seen, as a JSON object.
- `flow` — the power cycle, power off, power on and status protocols as
  state machines: each state names the outside work it needs, the answer
  moves it on. `app/hub.rs` performs the work.
- `targets` — the discovery report of nicknames and attached boards.
- `text` — the string operations, as spec functions with proved code.
- `error` — the errors and the text each reads as.
