//! A chess engine core: mailbox board representation, pseudo-legal move
//! generation, legality-checking make/unmake with an exact round-trip
//! guarantee, Zobrist hashing, static evaluation, and an
//! iterative-deepening alpha-beta search with quiescence, principal
//! variation, history-based move ordering and draw detection.

mod attack;
mod clock;
mod defs;
mod eval;
mod fen;
mod game;
mod hash;
mod makemove;
mod movegen;
mod moves;
mod search;
mod square;
mod tables;

pub use clock::millis_since;
pub use game::Game;
pub use moves::algebraic_to_move;
pub use moves::Move;
pub use moves::MoveTrait;
pub use search::make_move_algebraic;
pub use search::think;
pub use search::Search;
pub use search::ThinkInfo;
pub use search::MAX_DEPTH;
pub use search::MATE_VALUE;
pub use square::algebraic_to_pos;
