# oxidar-snake

A multiplayer snake game served over WebSockets: a toroidal board, no deaths,
a crown for every snake that reaches the winning length, reconnection of
players who left, a leaderboard, and an optional "chaos mode" that sends
malformed frames so that clients learn to cope.

## Layout

- `src/` — the library, verified with Verus.
  - `game/board.rs`, `game/snake.rs`, `game/engine.rs`: the rules of the game.
    `GameEngine::tick` states, for every player, what one tick makes of it.
  - `leaderboard.rs`: the ranking (most crowns, then longest).
  - `net/session.rs`: connection numbers, spectators and player names.
  - `net/protocol.rs`: the messages as plain values.
  - `net/chaos.rs`: when chaos fires and what it sends.
  - `net/server.rs`: the decisions of the game loop, of each connection and
    of the health port.
  - `config.rs`: the settings and the colour palette.
  - `geo.rs`, `probe.rs`: the address check before a country lookup, and the
    probe client's labels.
  - `chance.rs`: the random draws, through `rand`.
  - `laws.rs`: properties that span several operations.
- `app/` — the program: reading the settings, MessagePack encoding, sockets,
  the tick timer, the country lookup and the probe client (`main probe <url>`).
- `tests/` — tests of the library.
