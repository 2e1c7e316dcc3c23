# termchat

A small terminal chat system: a server that keeps chat rooms and passes
messages between the clients in a room, and a terminal client.

- `src/` is the verified library (Verus):
  - `server.rs`: the server's rules as a function from the rooms and one
    request to the new rooms and the messages to hand out (`step`), and
    `ServerState::handle`, which carries it out;
  - `server_laws.rs`: what every request keeps (well-formedness, rooms and
    members are never lost) and how messages reach the members of a room;
  - `communication.rs`: the client's decisions at the command prompt and in a
    room;
  - `wire.rs`: the request lines that the client writes;
  - `layout.rs`: right-aligned and centred output on a terminal;
  - `errors.rs`, `messages.rs`, `text.rs`: error types, the server's messages
    as the client reads them, and character-level helpers.
- `app/` holds the programs around it: `app server` runs the server on
  127.0.0.1:8080; without an argument the terminal client starts. Sockets,
  the keyboard, the screen and JSON decoding live there.
