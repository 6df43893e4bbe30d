//! Board representation and legal-move generation for a pawn-only chess
//! variant ("pawn race"): two ranks of pawns advance, capture diagonally,
//! may double-step from their starting rank, and may capture en passant.
//!
//! The board is a packed 2-bit-per-square value; a full perspective flip
//! lets one move-generation algorithm serve both sides.

pub mod board;
pub mod laws;
pub mod moves;
pub mod position;
pub mod render;

pub use board::{Board, Colour, Square};
pub use moves::{Move, MovesIterator, Piece, PieceIterator};
pub use position::{File, ParseError, Position, Rank};
