# aochatproxy

A chat proxy for Anarchy Online bots that spreads the bot's buddy list and its
outgoing tells over several worker accounts.

- `src/` is the verified library: configuration defaults, environment
  overrides and validation (`config`), the routing of tells, buddy additions,
  client lookups and commands (`routing`), the messages exchanged with the bot
  and the capabilities answer (`communication`), worker bookkeeping and packet
  decisions (`worker`), the account reactivation conversation (`unfreeze`),
  waiting on the first of several tasks (`select`) and text helpers (`text`).
- `app/` is the program around it: sockets, HTTP, timers, the JSON forms of
  the library's types and the process entry point.
- `tests/` runs the library on concrete values.
