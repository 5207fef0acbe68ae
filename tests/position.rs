use shogi_core::{
    Bitboard, Color, Game, GameResolution, Hand, Move, PartialGame, PartialPosition, Piece,
    PieceKind, Position, Square,
};

fn sq(file: u8, rank: u8) -> Square {
    Square::new(file, rank).unwrap()
}

fn piece(kind: PieceKind, color: Color) -> Piece {
    Piece::new(kind, color)
}

#[test]
fn startpos_works() {
    let mut s = PartialPosition::startpos();
    let result = s.make_move(Move::Normal { from: sq(7, 7), to: sq(7, 6), promote: false }); // 7g7f
    assert_eq!(result, Some(()));
    assert_eq!(s.side_to_move(), Color::White);
    assert_eq!(
        s.to_sfen_owned(),
        "lnsgkgsnl/1r5b1/ppppppppp/9/9/2P6/PP1PPPPPP/1B5R1/LNSGKGSNL w - 2",
    );

    s.make_move(Move::Normal { from: sq(3, 3), to: sq(3, 4), promote: false }).unwrap(); // 3c3d
    s.make_move(Move::Normal { from: sq(8, 8), to: sq(2, 2), promote: true }).unwrap(); // 8h2b+
    s.make_move(Move::Normal { from: sq(3, 1), to: sq(2, 2), promote: false }).unwrap(); // 3a2b
    assert_eq!(s.hand(piece(PieceKind::Bishop, Color::Black)), Some(1));
    assert_eq!(s.hand(piece(PieceKind::Bishop, Color::White)), Some(1));
    assert_eq!(
        s.to_sfen_owned(),
        "lnsgkg1nl/1r5s1/pppppp1pp/6p2/9/2P6/PP1PPPPPP/7R1/LNSGKGSNL b Bb 5",
    );
}

#[test]
fn to_sfen_works() {
    let pos = PartialPosition::startpos();
    let s = pos.to_sfen_owned();
    assert_eq!(s, "lnsgkgsnl/1r5b1/ppppppppp/9/9/9/PPPPPPPPP/1B5R1/LNSGKGSNL b - 1");
}

#[test]
fn first_move_changes_side_and_ply() {
    let mut s = PartialPosition::startpos();
    assert_eq!(s.side_to_move(), Color::Black);
    assert_eq!(s.ply(), 1);
    s.make_move(Move::Normal { from: sq(7, 7), to: sq(7, 6), promote: false }).unwrap();
    assert_eq!(s.side_to_move(), Color::White);
    assert_eq!(s.ply(), 2);
    assert_eq!(
        s.last_move(),
        Some(Move::Normal { from: sq(7, 7), to: sq(7, 6), promote: false })
    );
}

#[test]
fn move_onto_own_piece_changes_nothing() {
    let mut s = PartialPosition::startpos();
    let before = s.clone();
    // the rook on 2h onto the pawn on 2g, both Black's
    assert_eq!(s.make_move(Move::Normal { from: sq(2, 8), to: sq(2, 7), promote: false }), None);
    assert_eq!(s, before);
    // a square onto itself
    assert_eq!(s.make_move(Move::Normal { from: sq(5, 9), to: sq(5, 9), promote: false }), None);
    assert_eq!(s, before);
}

#[test]
fn refused_moves_change_nothing() {
    let mut s = PartialPosition::startpos();
    let before = s.clone();
    // vacant source
    assert_eq!(s.make_move(Move::Normal { from: sq(5, 5), to: sq(5, 4), promote: false }), None);
    // White's piece while Black is to move
    assert_eq!(s.make_move(Move::Normal { from: sq(5, 3), to: sq(5, 4), promote: false }), None);
    // Gold cannot promote
    assert_eq!(s.make_move(Move::Normal { from: sq(4, 9), to: sq(4, 8), promote: true }), None);
    // drop with an empty hand
    assert_eq!(s.make_move(Move::Drop { piece: piece(PieceKind::Pawn, Color::Black), to: sq(5, 5) }), None);
    // drop of a promoted piece, of the wrong side, of a king
    assert_eq!(s.make_move(Move::Drop { piece: piece(PieceKind::ProPawn, Color::Black), to: sq(5, 5) }), None);
    assert_eq!(s.make_move(Move::Drop { piece: piece(PieceKind::Pawn, Color::White), to: sq(5, 5) }), None);
    assert_eq!(s.make_move(Move::Drop { piece: piece(PieceKind::King, Color::Black), to: sq(5, 5) }), None);
    assert_eq!(s, before);
}

#[test]
fn capture_and_drop() {
    let mut s = PartialPosition::startpos();
    s.make_move(Move::Normal { from: sq(7, 7), to: sq(7, 6), promote: false }).unwrap();
    s.make_move(Move::Normal { from: sq(3, 3), to: sq(3, 4), promote: false }).unwrap();
    s.make_move(Move::Normal { from: sq(8, 8), to: sq(2, 2), promote: true }).unwrap();
    assert_eq!(s.piece_at(sq(2, 2)), Some(piece(PieceKind::ProBishop, Color::Black)));
    assert_eq!(s.hand_of_a_player(Color::Black).count(PieceKind::Bishop), Some(1));
    s.make_move(Move::Normal { from: sq(3, 1), to: sq(2, 2), promote: false }).unwrap();
    // the promoted bishop goes to White's hand unpromoted
    assert_eq!(s.hand(piece(PieceKind::Bishop, Color::White)), Some(1));
    // drop into an occupied square is refused
    let before = s.clone();
    assert_eq!(s.make_move(Move::Drop { piece: piece(PieceKind::Bishop, Color::Black), to: sq(5, 9) }), None);
    assert_eq!(s, before);
    s.make_move(Move::Drop { piece: piece(PieceKind::Bishop, Color::Black), to: sq(5, 5) }).unwrap();
    assert_eq!(s.piece_at(sq(5, 5)), Some(piece(PieceKind::Bishop, Color::Black)));
    assert_eq!(s.hand(piece(PieceKind::Bishop, Color::Black)), Some(0));
    assert_eq!(s.hand(piece(PieceKind::King, Color::Black)), None);
    assert_eq!(s.ply(), 6);
    assert_eq!(s.side_to_move(), Color::White);
}

#[test]
fn king_cannot_be_captured_into_hand() {
    let mut s = PartialPosition::empty();
    s.piece_set(sq(5, 5), Some(piece(PieceKind::Rook, Color::Black)));
    s.piece_set(sq(5, 1), Some(piece(PieceKind::King, Color::White)));
    let before = s.clone();
    assert_eq!(s.make_move(Move::Normal { from: sq(5, 5), to: sq(5, 1), promote: false }), None);
    assert_eq!(s, before);
    assert_eq!(s.king_position(Color::White), Some(sq(5, 1)));
}

fn check_indexes(s: &PartialPosition) {
    let mut occupied = Bitboard::empty();
    for square in Square::all() {
        if s.piece_at(square).is_some() {
            occupied = occupied.or(Bitboard::single(square));
        }
    }
    assert_eq!(s.occupied_bitboard(), occupied);
    assert_eq!(s.vacant_bitboard(), occupied.not());
    assert_eq!(
        s.player_bitboard(Color::Black).or(s.player_bitboard(Color::White)),
        occupied
    );
    for p in Piece::all() {
        let mut expected = Bitboard::empty();
        for square in Square::all() {
            if s.piece_at(square) == Some(p) {
                expected = expected.or(Bitboard::single(square));
            }
        }
        assert_eq!(s.piece_bitboard(p), expected);
    }
    for k in PieceKind::all() {
        let mut expected = Bitboard::empty();
        for square in Square::all() {
            if s.piece_at(square).map(|p| p.piece_kind()) == Some(k) {
                expected = expected.or(Bitboard::single(square));
            }
        }
        assert_eq!(s.piece_kind_bitboard(k), expected);
    }
}

#[test]
fn indexes_agree_with_board_in_random_games() {
    let mut seed: u64 = 0x1234_5678;
    let mut next = move || {
        seed = seed.wrapping_mul(6364136223846793005).wrapping_add(1442695040888963407);
        (seed >> 33) as usize
    };
    for _game in 0..20 {
        let mut s = PartialPosition::startpos();
        check_indexes(&s);
        for _ply in 0..200 {
            let side = s.side_to_move();
            let mut moved = false;
            for _try in 0..50 {
                let mv = if next() % 5 == 0 {
                    let kinds = [
                        PieceKind::Pawn,
                        PieceKind::Lance,
                        PieceKind::Knight,
                        PieceKind::Silver,
                        PieceKind::Gold,
                        PieceKind::Bishop,
                        PieceKind::Rook,
                    ];
                    Move::Drop {
                        piece: Piece::new(kinds[next() % 7], side),
                        to: Square::from_u8_unchecked((next() % 81) as u8 + 1),
                    }
                } else {
                    Move::Normal {
                        from: Square::from_u8_unchecked((next() % 81) as u8 + 1),
                        to: Square::from_u8_unchecked((next() % 81) as u8 + 1),
                        promote: next() % 3 == 0,
                    }
                };
                let before = s.clone();
                if s.make_move(mv).is_some() {
                    moved = true;
                    assert_eq!(s.side_to_move(), side.flip());
                    assert_eq!(s.last_move(), Some(mv));
                    break;
                } else {
                    assert_eq!(s, before);
                }
            }
            check_indexes(&s);
            if !moved {
                break;
            }
        }
    }
}

#[test]
fn piece_set_and_setters() {
    let mut s = PartialPosition::empty();
    assert_eq!(s.occupied_bitboard(), Bitboard::empty());
    s.piece_set(sq(5, 9), Some(piece(PieceKind::King, Color::Black)));
    assert_eq!(s.king_position(Color::Black), Some(sq(5, 9)));
    assert_eq!(s.king_position(Color::White), None);
    s.piece_set(sq(5, 9), None);
    assert_eq!(s.piece_at(sq(5, 9)), None);
    assert_eq!(s.occupied_bitboard(), Bitboard::empty());
    s.side_to_move_set(Color::White);
    assert_eq!(s.side_to_move(), Color::White);
    assert!(!s.ply_set(0));
    assert_eq!(s.ply(), 1);
    assert!(s.ply_set(30));
    assert_eq!(s.ply(), 30);
    *s.hand_of_a_player_mut(Color::Black) = Hand::new().added(PieceKind::Gold).unwrap();
    assert_eq!(s.hand(piece(PieceKind::Gold, Color::Black)), Some(1));
    assert_eq!(s.to_sfen_owned(), "9/9/9/9/9/9/9/9/9 w G 30");
    assert_eq!(PartialPosition::default(), PartialPosition::startpos());
}

#[test]
fn position_records_moves() {
    let mut pos = Position::startpos();
    assert_eq!(pos.moves(), &[]);
    assert_eq!(pos.last_move(), None);
    assert_eq!(pos.last_compact_move(), None);
    let mv = Move::Normal { from: sq(7, 7), to: sq(7, 6), promote: false };
    pos.make_move(mv).unwrap();
    assert_eq!(pos.moves(), &[mv]);
    assert_eq!(pos.side_to_move(), Color::White);
    assert_eq!(pos.ply(), 2);
    assert_eq!(pos.last_move(), Some(mv));
    assert_eq!(pos.initial_position(), &PartialPosition::startpos());
    assert_eq!(pos.inner().ply(), 2);
    let before = pos.clone();
    assert_eq!(pos.make_move(mv), None);
    assert_eq!(pos, before);
    assert!(pos.make_compact_move(Move::Normal { from: sq(3, 3), to: sq(3, 4), promote: false }.into()));
    assert_eq!(pos.moves().len(), 2);
    assert_eq!(pos.to_sfen_owned(), "lnsgkgsnl/1r5b1/pppppp1pp/6p2/9/2P6/PP1PPPPPP/1B5R1/LNSGKGSNL b - 3");
    assert_eq!(pos.piece_at(sq(2, 8)), Some(piece(PieceKind::Rook, Color::Black)));
    assert_eq!(pos.piece_bitboard(piece(PieceKind::Rook, Color::Black)), Bitboard::single(sq(2, 8)));
    assert_eq!(pos.hand_of_a_player(Color::Black), Hand::new());
    assert_eq!(pos.hand(piece(PieceKind::Pawn, Color::Black)), Some(0));
    assert_eq!(Position::default(), Position::startpos());
    let arbitrary = Position::arbitrary_position(PartialPosition::empty());
    assert_eq!(arbitrary.occupied_bitboard(), Bitboard::empty());
    assert_eq!(arbitrary.vacant_bitboard().count(), 81);
    assert_eq!(arbitrary.player_bitboard(Color::White), Bitboard::empty());
}

#[test]
fn games_hold_a_resolution() {
    let mut game = Game::default();
    assert_eq!(game.resolution(), None);
    game.resolve(GameResolution::BlackWins);
    assert_eq!(game.resolution(), Some(GameResolution::BlackWins));
    assert_eq!(game.position(), &Position::startpos());
    game.unresolve();
    assert_eq!(game.resolution(), None);
    let mut partial = PartialGame::default();
    partial.resolve(GameResolution::Aborted);
    assert_eq!(partial.resolution(), Some(GameResolution::Aborted));
    assert_eq!(partial.position(), &PartialPosition::startpos());
    partial.unresolve();
    assert_eq!(partial.resolution(), None);
}

#[test]
fn sfen_writes_hand_of_side_to_move_first() {
    let mut s = PartialPosition::empty();
    *s.hand_of_a_player_mut(Color::Black) = Hand::new().added(PieceKind::Pawn).unwrap();
    *s.hand_of_a_player_mut(Color::White) = Hand::new().added(PieceKind::Pawn).unwrap();
    assert_eq!(s.to_sfen_owned(), "9/9/9/9/9/9/9/9/9 b Pp 1");
    s.side_to_move_set(Color::White);
    assert_eq!(s.to_sfen_owned(), "9/9/9/9/9/9/9/9/9 w pP 1");
    *s.hand_of_a_player_mut(Color::White) = Hand::new()
        .added(PieceKind::Rook)
        .unwrap()
        .added(PieceKind::Pawn)
        .unwrap()
        .added(PieceKind::Pawn)
        .unwrap();
    assert_eq!(s.to_sfen_owned(), "9/9/9/9/9/9/9/9/9 w r2pP 1");
}
