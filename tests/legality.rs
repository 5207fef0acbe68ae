use shogi_core::{
    Bitboard, IllegalMoveKind, LegalityChecker, Move, PartialPosition, Piece, Position,
    PositionStatus, Square,
};

/// A checker that accepts every move that the position accepts, and ends the game
/// after a fixed number of plies.
struct Permissive {
    last_ply: u16,
}

impl LegalityChecker for Permissive {
    fn status(&self, position: &Position) -> PositionStatus {
        self.status_partial(position.inner())
    }

    fn status_partial(&self, position: &PartialPosition) -> PositionStatus {
        if position.ply() > self.last_ply {
            PositionStatus::Draw
        } else {
            PositionStatus::InProgress
        }
    }

    fn is_legal_partial(&self, position: &PartialPosition, mv: Move) -> Result<(), IllegalMoveKind> {
        let mut copy = position.clone();
        match copy.make_move(mv) {
            Some(()) => Ok(()),
            None => Err(IllegalMoveKind::IncorrectMove),
        }
    }

    fn is_legal_partial_lite(&self, position: &PartialPosition, mv: Move) -> bool {
        self.is_legal_partial(position, mv).is_ok()
    }

    fn all_legal_moves_partial(&self, _position: &PartialPosition) -> Vec<Move> {
        Vec::new()
    }

    fn normal_from_candidates(&self, _position: &PartialPosition, _from: Square) -> Bitboard {
        Bitboard::empty()
    }

    fn normal_to_candidates(&self, _position: &PartialPosition, _to: Square, _piece: Piece) -> Bitboard {
        Bitboard::empty()
    }

    fn drop_candidates(&self, _position: &PartialPosition, _piece: Piece) -> Bitboard {
        Bitboard::empty()
    }
}

fn sq(file: u8, rank: u8) -> Square {
    Square::new(file, rank).unwrap()
}

#[test]
fn checker_default_methods() {
    let checker = Permissive { last_ply: 1 };
    let mut pos = Position::startpos();
    let mv = Move::Normal { from: sq(7, 7), to: sq(7, 6), promote: false };
    let bad = Move::Normal { from: sq(5, 5), to: sq(5, 4), promote: false };
    assert_eq!(checker.is_legal(&pos, bad), Err(IllegalMoveKind::IncorrectMove));
    assert!(!checker.is_legal_lite(&pos, bad));
    assert!(checker.is_legal_lite(&pos, mv));
    let before = pos.clone();
    assert_eq!(checker.make_move(&mut pos, bad), Err(IllegalMoveKind::IncorrectMove));
    assert_eq!(pos, before);
    assert_eq!(checker.make_move(&mut pos, mv), Ok(()));
    assert_eq!(pos.moves(), &[mv]);
    // the game is now over for this checker
    let reply = Move::Normal { from: sq(3, 3), to: sq(3, 4), promote: false };
    assert_eq!(checker.is_legal(&pos, reply), Err(IllegalMoveKind::GameFinished));
    assert!(!checker.is_legal_lite(&pos, reply));
    assert_eq!(checker.all_legal_moves(&pos), Vec::new());
    assert_eq!(checker.make_move(&mut pos, reply), Err(IllegalMoveKind::GameFinished));
    assert_eq!(pos.moves().len(), 1);
}
