# take_it_easy_core

The logic of the Take It Easy game server and of its analysis and training
tools, written in Verus: every function in `src/` carries a contract that
Verus proves.

- `src/models.rs`, `jwt.rs`, `middleware.rs`, `oauth.rs`, `email.rs`,
  `routes.rs`, `database.rs`: accounts, session tokens, OAuth settings and
  user records, mail templates, and the decisions of the REST handlers.
- `src/board.rs`, `grid.rs`: the 19-cell hexagonal board, its fifteen
  scoring lines, encoded tiles and the grid layout of the board tensors.
- `src/recorded.rs`, `games.rs`, `datasets.rs`, `game_state.rs`: the rows
  of the recorded-games and training-data files, whole recorded games, and
  the choice of a move from a server game-state document, read one JSON
  level at a time.
- `src/e2e.rs`, `solo_game.rs`, `real_game.rs`: the end-to-end journeys
  against the game server (solo, multiplayer, error paths, the timed solo
  game of the stress test, and the games placed by the server's AI), each
  a step function from the server's last reply to the next call.
- `src/stats.rs`, `sorting.rs`, `text.rs`, `random.rs`: score statistics,
  sorting, decimal text, and random tokens.

Calls into `jsonwebtoken`, `serde_json`, `base64`, `getrandom`, `rand` and `oauth2`
stand behind small trusted wrappers whose contracts say what those crates
document. `app/` holds what touches the outside world: the SQLite store,
SMTP, HTTP and gRPC glue, and the data files on disk.
