use shogi_core::{Color, CompactMove, Hand, Move, Piece, PieceKind, Square, ToUsi};

fn sq(file: u8, rank: u8) -> Square {
    Square::new(file, rank).unwrap()
}

#[test]
fn from_into_works() {
    // normal moves
    for from in 1..=81 {
        let from = Square::from_u8_unchecked(from);
        for to in 1..=81 {
            let to = Square::from_u8_unchecked(to);
            for &promote in &[false, true] {
                let mv = Move::Normal { from, to, promote };
                let compact: CompactMove = mv.into();
                let mv2: Move = compact.into();
                assert_eq!(mv, mv2);
            }
        }
    }
    // drop moves
    for piece in Piece::all() {
        for to in 1..=81 {
            let to = Square::from_u8_unchecked(to);
            let mv = Move::Drop { piece, to };
            let compact: CompactMove = mv.into();
            let mv2: Move = compact.into();
            assert_eq!(mv, mv2);
        }
    }
}

#[test]
fn normal_works() {
    for from in Square::all() {
        for to in Square::all() {
            for promote in [false, true] {
                let cmv = CompactMove::normal(from, to, promote);
                assert_eq!(
                    <CompactMove as From<Move>>::from(Move::Normal { from, to, promote }),
                    cmv,
                );
                assert_eq!(cmv.from(), Some(from));
                assert_eq!(cmv.to(), to);
                assert_eq!(cmv.is_promoting(), promote);
                assert!(!cmv.is_drop());
            }
        }
    }
}

#[test]
fn drop_works() {
    for piece in Piece::all() {
        for to in Square::all() {
            let cmv = CompactMove::drop(piece, to);
            assert_eq!(
                <CompactMove as From<Move>>::from(Move::Drop { piece, to }),
                cmv,
            );
            assert_eq!(cmv.from(), None);
            assert_eq!(cmv.to(), to);
            assert!(!cmv.is_promoting());
            assert!(cmv.is_drop());
        }
    }
}

#[test]
fn compact_encoding_values() {
    let mv = Move::Normal { from: sq(7, 7), to: sq(7, 6), promote: true };
    let compact: CompactMove = mv.into();
    let o: shogi_core::c_compat::OptionCompactMove = Some(compact).into();
    assert_eq!(Option::<CompactMove>::from(o), Some(compact));
    assert_eq!(
        Option::<CompactMove>::from(shogi_core::c_compat::OptionCompactMove::default()),
        None
    );
    let back: Move = compact.into();
    assert_eq!(back.from(), Some(sq(7, 7)));
    assert_eq!(back.to(), sq(7, 6));
    assert!(back.is_promoting());
    assert!(!back.is_drop());
    let d = Move::Drop { piece: Piece::new(PieceKind::Silver, Color::Black), to: sq(5, 2) };
    assert_eq!(d.from(), None);
    assert!(d.is_drop());
    assert!(!d.is_promoting());
}

#[test]
fn move_to_usi() {
    let mv = Move::Normal { from: sq(7, 7), to: sq(7, 6), promote: false };
    assert_eq!(mv.to_usi_owned(), "7g7f".to_owned());
    let mv = Move::Normal { from: sq(8, 8), to: sq(2, 2), promote: true };
    assert_eq!(mv.to_usi_owned(), "8h2b+".to_owned());
    let mv = Move::Drop { piece: Piece::new(PieceKind::Silver, Color::Black), to: sq(5, 2) };
    assert_eq!(mv.to_usi_owned(), "S*5b".to_owned());
    let mv = Move::Drop { piece: Piece::new(PieceKind::Pawn, Color::White), to: sq(5, 2) };
    assert_eq!(mv.to_usi_owned(), "P*5b".to_owned());
}

#[test]
fn hand_add_remove_count() {
    let hand = Hand::new().added(PieceKind::Pawn).unwrap();
    assert_eq!(hand.count(PieceKind::Pawn), Some(1));
    assert_eq!(hand.count(PieceKind::Rook), Some(0));
    assert_eq!(hand.count(PieceKind::King), None);
    assert_eq!(hand.count(PieceKind::ProPawn), None);
    assert_eq!(Hand::new().added(PieceKind::King), None);
    assert_eq!(Hand::new().added(PieceKind::ProRook), None);
    let hand = hand.added(PieceKind::Pawn).unwrap().added(PieceKind::Pawn).unwrap();
    assert_eq!(hand.count(PieceKind::Pawn), Some(3));
    let hand = hand.removed(PieceKind::Pawn).unwrap();
    assert_eq!(hand.count(PieceKind::Pawn), Some(2));
    assert_eq!(hand.removed(PieceKind::Bishop), None);
    assert_eq!(hand.removed(PieceKind::King), None);
    assert_eq!(Hand::new(), Hand::default());
}

#[test]
fn hand_added_wraps_past_255() {
    let mut hand = Hand::new();
    for _ in 0..255 {
        hand = hand.added(PieceKind::Pawn).unwrap();
    }
    assert_eq!(hand.count(PieceKind::Pawn), Some(255));
    let hand = hand.added(PieceKind::Pawn).unwrap();
    assert_eq!(hand.count(PieceKind::Pawn), Some(0));
    assert_eq!(hand.removed(PieceKind::Pawn), None);
}

#[test]
fn hands_to_usi() {
    let hand = Hand::new().added(PieceKind::Pawn).unwrap();
    let hand = hand.added(PieceKind::Pawn).unwrap();
    let hand = hand.added(PieceKind::Pawn).unwrap();
    assert_eq!([hand; 2].to_usi_owned(), "3P3p");
    let hand = hand.added(PieceKind::Rook).unwrap();
    let hand = hand.added(PieceKind::Bishop).unwrap();
    assert_eq!([Hand::default(), hand].to_usi_owned(), "rb3p");
    assert_eq!([Hand::new(), Hand::new()].to_usi_owned(), "-");
    let mut many = Hand::new();
    for _ in 0..18 {
        many = many.added(PieceKind::Pawn).unwrap();
    }
    let many = many.added(PieceKind::Gold).unwrap();
    assert_eq!([many, Hand::new()].to_usi_owned(), "G18P");
}

#[test]
fn write_u8_test() {
    for value in 0..=255u8 {
        let mut chars = Vec::new();
        shogi_core::to_usi::push_decimal(value as u16, &mut chars);
        let string: String = chars.into_iter().collect();
        assert_eq!(string, format!("{}", value));
    }
}

#[test]
fn write_u16_test() {
    for value in 0..=65535u16 {
        let mut chars = Vec::new();
        shogi_core::to_usi::push_decimal(value, &mut chars);
        let string: String = chars.into_iter().collect();
        assert_eq!(string, format!("{}", value));
    }
}
