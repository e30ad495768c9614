# ctb_web

The logic of a catch-the-fruit rhythm game, of its game server (Azusa) and of its web
API, written in Verus and proved against its contracts.

- `src/score.rs`: the score recorder (combo, top combo, judgement counts, score), with
  the laws that tie its counters to the history of judgements.
- `src/azusa.rs`, `src/web_socket.rs`: the client's session with the game server: login,
  heartbeat, and the handling of socket events and server packets.
- `src/server.rs`: what the game server answers to each client packet, how scores are
  stored and how leaderboards are read back.
- `src/api.rs`: registration checks, password hashing (Argon2) and session tokens.
- `src/ui.rs`: buttons and lists driven by messages, with the ids of their children.
- `src/screen.rs`, `src/gameplay.rs`, `src/replay.rs`, `src/result.rs`, `src/chart.rs`,
  `src/log.rs`: chart list and its arrow keys, overlays, the judging of a frame, replay
  recording, result lines, hitsound files, log lines.
- `tests/`: tests on concrete values.
- `app/`: the two server programs (the game server over web sockets, and the web API
  over HTTP, both with the database), the wire formats, and the parts that compute in
  floating point or drive futures.
