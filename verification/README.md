# bentham

An ambient presence for Discord. Not a command bot: it lives in a server, wakes
when something worth its attention happens, lingers while a conversation is
active, and goes back to sleep. It is opt-in at two levels, and the rules that
make it so are verified.

- `src/` is the library, verified with Verus: the consent rules, the message
  buffer, the dispatcher, the session lifecycle, the tools and the JSON-RPC
  shell. `privacy.rs` states what holds in every state that the daemon comes to:
  nothing of a server is buffered, shown to a session or wakes one without
  consent.
- `app/` is the daemon around it: the Discord connection, the tool server, the
  files on disk and the programs that run the sessions.
- `tests/` runs the library on concrete values.

## Consent

- Each server has one consent post. Reacting to it (any emoji) is the only way
  in, to that server only; removing the reaction opts back out, drops the
  server's session transcripts, purges the person's buffered messages and
  queues a scrub of the server's persona.
- Channels are dormant until an opted-in person mentions the bot there.
- People are invisible until they opt in. Writing a DM is consent, and other
  bots are visible but never wake a session.

## What is trusted

Each call into `serde_json` and `serenity`, and the few calls into the standard
library that Verus does not specify, stand behind an item whose contract is
believed: see `json.rs`, `text.rs` and `check_reaction` in `tools.rs`.
