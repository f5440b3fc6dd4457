# Codex Air

Codex Air is a native Windows workspace for Codex: persistent multi-folder workspaces
and a local connection to the official Codex App Server.

This crate holds its logic as a verified library, written in Verus:

- `workspace` — the persisted state: workspaces, their folders and default folder,
  every operation on them, and normalization of a loaded state.
- `controller` — the single writer of the state: commands, and the writer's steps
  between commands, saves and reports.
- `app_server` — the client side of the JSONL conversation with `codex app-server`,
  requests of the server's own answered included; `wire` gives each message's JSON
  value, member by member, reads the server's messages and turns lines of text into
  messages and back (`json` holds the JSON values; serde_json reads and writes the text).
- `inventory` — what Codex Settings and the composer's controls ask the App Server, and
  what they read of its replies (configuration, account, models, MCP servers, hooks,
  plugins); `settings` and `pages` turn those into what the pages show.
- `shell` — what the main window lists, shows and sends: activity gathered by streamed
  item and kept with its workspace, and unsent composer text per workspace.
- `updates` — reading GitHub's description of the latest release from the response body.
- `storage`, `platform`, `diagnostics`, `questions`,
  `releases`, `assets`, `theme`, `text`, `ids` — the rest of the application's
  decisions, texts and computations.

`app/` is the program around the library: the window, the worker threads, the
state file on disk, the App Server process and the Windows calls.
