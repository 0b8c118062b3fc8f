# bughouse_chess

Pieces, boards and the client-side interaction state of a bughouse chess game, with the
decisions of a lobby server, each function proved against its contract.

Layout:

- `src/` — the verified library.
  - `force`, `piece`, `coord`, `board`, `game`, `turn`, `rules`: the data model (sides,
    piece kinds and movements, squares, board contents and reserves, teams, players and
    game status, turn logs, game rules).
  - `altered_game`: dragging pieces, looking back at historical positions, turn
    highlights and the fog-of-war area as shown to one participant, and the bookkeeping
    of local turns and preturns (checks before a local turn, cancelling a preturn,
    reconciling with a turn from the server, dropping turns that no longer apply); the
    game itself, which decides whether a turn is legal, is held by the caller.
  - `server`: the lobby state machine (joining, starting a game by the server's rules,
    timing turns, announcing a game lost on time).
  - `prod_server_helpers`, `server_helpers`: player name validation.
  - `session_cookie`: the server key and reading the private session cookie.
  - `util`: small string helpers.
- `tests/` — tests of the library on concrete values.
- `app/` — ordinary Rust next to the library: serde forms of the piece types, reading the
  cookie header of an HTTP request, and the session store (which holds subscriber
  callbacks).
