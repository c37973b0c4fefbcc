# niri-scratch

Scratchpad workspaces for the Niri compositor: a binding shows a dedicated named workspace and,
pressed again, returns to the exact workspace and window it was shown from.

The library under `src/` is verified with Verus:

- `text` — whitespace tests, text order, substring replacement and path joining.
- `pattern` — the `regex` crate behind two trusted calls (compile, match).
- `model` — workspaces, windows, compositor actions, return targets, the name-ordered map that
  holds them, and the control protocol.
- `config` — defaults, the configuration rules and the socket, state and configuration paths.
- `planning` — the decisions: which windows belong to a scratchpad, what showing and hiding ask
  of the compositor, where a hidden scratchpad returns to, which launched windows are anchored.
- `engine` — the daemon as a state machine from event to next effect, and the background
  anchoring job; replies and their messages.
- `laws` — properties proved of the engine and its decisions over all inputs.

`app/` is the program around it: the command line, the TOML and JSON files, Niri's IPC socket,
the control socket, threads and the clock. It carries out the effects the engine asks for.
