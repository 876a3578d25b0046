# weeb_logger

A Twitch chat logger: it reads chat messages from the channels it knows,
asks a classification service whether each one is a weeb message, and keeps
those of consenting users in PostgreSQL; an HTTP API lists users, channels
and messages and lets users opt out.

- `src/` is the verified library (Verus): the ingest state machine that
  decides, reply by reply, what happens to a chat message
  (`twitchclient.rs`, with its laws), the user and channel pages and the
  score arithmetic (`routes/`), the opt-out decision, the emote table and
  request body sent to the classifier (`controllers/wed.rs`), the channel
  set from the configuration service (`controllers/config.rs`), and the row
  types (`db/models.rs`, `models.rs`).
- `app/` is the program around it: the Rocket routes, the diesel store, the
  HTTP clients of the two services, and the Twitch IRC connection that
  performs the actions the state machine asks for.
- `tests/` runs the library on concrete values.
