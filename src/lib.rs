//! Core data model for shogi: squares, pieces, bitboards, moves, hands and positions.
use vstd::prelude::*;

pub mod bitboard;
pub mod c_compat;
pub mod color;
pub mod game_resolution;
pub mod hand;
pub mod illegal_move_kind;
pub mod legality;
pub mod mv;
pub mod piece;
pub mod piece_kind;
pub mod position;
pub mod square;
pub mod to_usi;

pub use crate::bitboard::{Bitboard, ByteSwappedBitboard};
pub use crate::color::Color;
pub use crate::game_resolution::GameResolution;
pub use crate::hand::Hand;
pub use crate::illegal_move_kind::IllegalMoveKind;
pub use crate::legality::{LegalityChecker, PositionStatus};
pub use crate::mv::{CompactMove, Move};
pub use crate::piece::Piece;
pub use crate::piece_kind::PieceKind;
pub use crate::position::{Game, PartialGame, PartialPosition, Position};
pub use crate::square::Square;
pub use crate::to_usi::ToUsi;

verus! {

} // verus!
