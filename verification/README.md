# keres_engine

Rules, search and wire protocol of Keres, an abstract strategy game on a
9x9 board whose pieces can stack, written in Verus: every function of the
library carries a contract, and Verus proves the code meets it.

## Layout

- `src/board.rs`, `src/game.rs`, `src/game_over.rs`: squares, pieces and
  stacks, the 83-byte board encoding, move generation, move application,
  promotion, and the end-of-game verdict.
- `src/legality.rs`: properties of generated moves (each one can be played
  and keeps the position one the rules can produce), and the list of moves a
  player can actually make.
- `src/engine/`: evaluation terms, Zobrist hashing, the transposition table,
  killer moves, loop detection, quiescence search, and the engine itself: a
  fail-hard alpha-beta search proved to return the NegaMax value clamped to
  its window, where a position at the horizon is worth its quiescence value
  and a line that comes back to an earlier position scores as a draw, and a
  root search proved to pick the first best legal move.  The engine is a
  single exhaustive search: it has no second, refining stage, and it does
  not order moves or consult the transposition and killer tables, which
  stand as verified components of their own.  Also the integer parts of
  the minimax and playout engines, match bookkeeping, and the data
  exchanged with a batch simulation device.
- `src/protocol.rs`: the server's requests, from bytes to bytes.
- `src/cli.rs`: square names such as `B4`, and boards saved as base64 text.
- `src/tui.rs`: the state machine of the terminal interface.
- `app/`: the command line, the HTTP server, the terminal drawing, and the
  engines whose evaluation uses floating point (minimax with weighted terms,
  Monte Carlo tree search) or the clock.
- `tests/`: tests run against the compiled library.
