# Zepi agent panel

The panel through which an editor talks to a Zepi agent process: it reads the process's RPC stream
(one JSON object per line), keeps the rows, the status and the slash commands to show, answers the
user-interface requests of extensions, and writes commands to the process.

- `src/` is the library, verified with Verus.
  - `text`: comparison, decimal numbers, white space, joining.
  - `json`: JSON values, and the calls into `serde_json`.
  - `members`: the names of an object's members as its text spells them, repeated ones included.
  - `envelope`: which lines are messages, and what they hold.
  - `state`: what the panel shows, and what each message does to it.
  - `rpc`: commands, the client, the streams of the process, the search for a Zepi checkout.
  - `panel`: the panel's link to the process, prompts, commands, reports.
  - `members_laws`, `state_laws`, `rpc_laws`, `panel_laws`: what holds of these whatever happens.
- `tests/` runs the library.
- `app/` starts the process, serves its streams with threads, words the refusal of a line that is no
  message, and draws the panel in the editor. The widgets come from the editor's own crates (`gpui`, `workspace`, `editor`, `ui` and others).

The library rests on what it claims of `serde_json` (reading a value, writing an object), of channels, of paths
and of a few functions of the standard library; each claim stands with the item that makes it.
