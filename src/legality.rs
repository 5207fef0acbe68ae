use vstd::prelude::*;

use crate::bitboard::Bitboard;
use crate::illegal_move_kind::IllegalMoveKind;
use crate::mv::Move;
use crate::piece::Piece;
use crate::position::{PartialPosition, Position};
use crate::square::Square;

verus! {

/// The state of a game as a legality checker judges it.
#[derive(Eq, PartialEq, Structural, Clone, Copy, Debug, PartialOrd, Ord, Hash)]
pub enum PositionStatus {
    /// Black has won.
    BlackWins,
    /// White has won.
    WhiteWins,
    /// The game is drawn.
    Draw,
    /// The game goes on.
    InProgress,
    /// The position cannot arise.
    Invalid,
}

/// The rules of shogi, implemented by users of this library on top of the positions
/// and moves it provides. This library states nothing about what an implementation
/// answers.
pub trait LegalityChecker {
    /// The state of the game in `position`.
    fn status(&self, position: &Position) -> PositionStatus;

    /// The state of the game in `position`, judged without its history.
    fn status_partial(&self, position: &PartialPosition) -> PositionStatus;

    /// Whether `mv` is legal in `position`, judged without its history; the reason if not.
    fn is_legal_partial(&self, position: &PartialPosition, mv: Move) -> Result<
        (),
        IllegalMoveKind,
    >;

    /// Whether `mv` is legal in `position`, judged without its history.
    fn is_legal_partial_lite(&self, position: &PartialPosition, mv: Move) -> bool;

    /// All legal moves in `position`, judged without its history.
    fn all_legal_moves_partial(&self, position: &PartialPosition) -> Vec<Move>;

    /// The squares to which the piece on `from` may move.
    fn normal_from_candidates(&self, position: &PartialPosition, from: Square) -> Bitboard;

    /// The squares from which `piece` may move to `to`.
    fn normal_to_candidates(&self, position: &PartialPosition, to: Square, piece: Piece) -> Bitboard;

    /// The squares on which `piece` may be dropped.
    fn drop_candidates(&self, position: &PartialPosition, piece: Piece) -> Bitboard;

    /// Whether `mv` is legal in `position`; the reason if not. A finished game admits
    /// no move.
    fn is_legal(&self, position: &Position, mv: Move) -> (r: Result<(), IllegalMoveKind>)
    {
        if self.status(position) != PositionStatus::InProgress {
            return Err(IllegalMoveKind::GameFinished);
        }
        self.is_legal_partial(position.inner(), mv)
    }

    /// Whether `mv` is legal in `position`. A finished game admits no move.
    fn is_legal_lite(&self, position: &Position, mv: Move) -> (r: bool)
    {
        if self.status(position) != PositionStatus::InProgress {
            return false;
        }
        self.is_legal_partial_lite(position.inner(), mv)
    }

    /// All legal moves in `position`; none in a finished game.
    fn all_legal_moves(&self, position: &Position) -> (r: Vec<Move>)
    {
        if self.status(position) != PositionStatus::InProgress {
            return Vec::new();
        }
        self.all_legal_moves_partial(position.inner())
    }

    /// Makes `mv` in `position` if it is legal; the reason if not, `position` then being
    /// left as it is.
    fn make_move(&self, position: &mut Position, mv: Move) -> (r: Result<(), IllegalMoveKind>)
        ensures
            r.is_err() ==> *final(position) == *old(position),
    {
        match self.is_legal(position, mv) {
            Ok(()) => {},
            Err(e) => return Err(e),
        }
        let _ = position.make_move(mv);
        Ok(())
    }
}

} // verus!
