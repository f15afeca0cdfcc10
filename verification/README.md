# groupchat

A group chat server and client over TCP. Clients pick a unique name, create
and join groups (optionally protected by a password or by invitation), chat in
a group or directly with one user, and administer groups: promote and demote
admins, kick, ban and unban, mute and unmute members. Users can block each
other and hide from listings.

- `src/` is the verified library: the message vocabulary, the framing of
  messages on the wire, the registry of clients and groups, and the decision
  on every request, each with its contract; `src/model.rs` states what every
  request does and `src/laws.rs` proves properties across requests.
- `app/` is the program around it: the TCP server loop that reads requests,
  asks the library to decide and carries out the resulting effects, the
  terminal client (`client` argument), and the bincode encoding of messages.
- `tests/` runs the library on concrete scenarios.
