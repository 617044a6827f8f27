# Tsurust

Tsuro, the path-tile game, as a verified Rust library with a small
WebSocket server around it.

- `src/` is the library, written and proved with Verus: the board and its
  tiles (`board`, `board_laws`, and `path_laws`: a path that stops does so
  within a bound, so a bounded walk decides it), the deck, the game engine and its model
  (`game`, `game_model`, `game_laws`), the lobby, the server's rooms
  (`room`, `listing`) and what each request of a connection does to them
  (`session`), the messages between clients and server
  (`protocol`), and what a client computes: its screens and how they follow
  the server and the player (`client_session`, `client_play`), the standings
  (`standings`), replays (`replay`), invite links (`links`) and the pieces
  of the player cards and lobby board (`client`).
  Calls into `arrayvec`, `rand`, `chrono` and `tokio` go through a few small
  trusted functions whose contracts say what those crates do.
- `tests/` runs the library on concrete games, lobbies and rooms.
- `app/` is the server program: it accepts WebSocket connections, turns
  JSON into the library's messages and back, keeps the rooms behind a lock,
  carries out what the library decides for each request (send, subscribe,
  arm a turn clock) and removes idle rooms. It holds no rules of its own.

Run the server with `HOST`, `PORT` and `ROOM_IDLE_TIMEOUT_SECS` in the
environment (defaults: `127.0.0.1`, `8080`, five minutes).
