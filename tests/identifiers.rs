use shogi_core::c_compat::{OptionGameResolution, OptionPiece, OptionPieceKind, OptionSquare, ResultUnitIllegalMoveKind};
use shogi_core::{Color, GameResolution, IllegalMoveKind, Piece, PieceKind, Square, ToUsi};

fn sq(file: u8, rank: u8) -> Square {
    Square::new(file, rank).unwrap()
}

#[test]
fn color_flip_works() {
    let colors = Color::all();
    assert_eq!(colors[0].flip(), colors[1]);
    assert_eq!(colors[1].flip(), colors[0]);
}

#[test]
fn color_array_index_works() {
    for i in 0..2 {
        assert_eq!(Color::all()[i].array_index(), i);
    }
}

#[test]
fn game_resolution_is_one_byte() {
    assert_eq!(core::mem::size_of::<GameResolution>(), 1);
}

#[test]
fn option_game_resolution_default_is_compatible() {
    assert_eq!(OptionGameResolution::default(), None.into());
}

#[test]
fn illegal_move_kind_is_one_byte() {
    assert_eq!(core::mem::size_of::<IllegalMoveKind>(), 1);
}

#[test]
fn option_illegal_move_kind_default_is_compatible() {
    assert_eq!(ResultUnitIllegalMoveKind::default(), None.into());
}

#[test]
fn option_types_round_trip() {
    for s in Square::all() {
        let o: OptionSquare = Some(s).into();
        assert_eq!(Option::<Square>::from(o), Some(s));
    }
    assert_eq!(Option::<Square>::from(OptionSquare::from(None)), None);
    for p in Piece::all() {
        let o: OptionPiece = Some(p).into();
        assert_eq!(Option::<Piece>::from(o), Some(p));
    }
    assert_eq!(Option::<Piece>::from(OptionPiece::from(None)), None);
    for k in PieceKind::all() {
        let o: OptionPieceKind = Some(k).into();
        assert_eq!(Option::<PieceKind>::from(o), Some(k));
    }
    assert_eq!(Option::<PieceKind>::from(OptionPieceKind::from(None)), None);
    let g: OptionGameResolution = Some(GameResolution::Rematch).into();
    assert_eq!(Option::<GameResolution>::from(g), Some(GameResolution::Rematch));
    let e: ResultUnitIllegalMoveKind = Some(IllegalMoveKind::DropPawnMate).into();
    assert_eq!(Option::<IllegalMoveKind>::from(e), Some(IllegalMoveKind::DropPawnMate));
    assert_eq!(IllegalMoveKind::from_u8_unchecked(7), IllegalMoveKind::IncorrectMove);
    assert_eq!(GameResolution::from_u8_unchecked(3), GameResolution::Draw);
}

#[test]
fn piece_kind_from_u8_works() {
    for piece_kind in PieceKind::all() {
        assert_eq!(PieceKind::from_u8(piece_kind.as_u8()), Some(piece_kind));
    }
    assert_eq!(PieceKind::from_u8(0), None);
    assert_eq!(PieceKind::from_u8(15), None);
}

#[test]
fn piece_kind_array_index_works() {
    assert_eq!(PieceKind::all().len(), PieceKind::NUM);
    for i in 0..PieceKind::NUM {
        assert_eq!(PieceKind::all()[i].array_index(), i);
    }
}

#[test]
fn piece_kind_promotion_table() {
    assert_eq!(PieceKind::Pawn.promote(), Some(PieceKind::ProPawn));
    assert_eq!(PieceKind::Rook.promote(), Some(PieceKind::ProRook));
    assert_eq!(PieceKind::Gold.promote(), None);
    assert_eq!(PieceKind::King.promote(), None);
    assert_eq!(PieceKind::ProBishop.promote(), None);
    assert_eq!(PieceKind::ProSilver.unpromote(), Some(PieceKind::Silver));
    assert_eq!(PieceKind::Gold.unpromote(), None);
    assert_eq!(PieceKind::Lance.unpromote(), None);
    assert_eq!(PieceKind::option_array_index(None), 0);
    assert_eq!(PieceKind::option_array_index(Some(PieceKind::ProRook)), 14);
}

fn to_usi_reference_kind(this: &PieceKind) -> String {
    match *this {
        PieceKind::Pawn => "P",
        PieceKind::Lance => "L",
        PieceKind::Knight => "N",
        PieceKind::Silver => "S",
        PieceKind::Gold => "G",
        PieceKind::Bishop => "B",
        PieceKind::Rook => "R",
        PieceKind::King => "K",
        PieceKind::ProPawn => "+P",
        PieceKind::ProLance => "+L",
        PieceKind::ProKnight => "+N",
        PieceKind::ProSilver => "+S",
        PieceKind::ProBishop => "+B",
        PieceKind::ProRook => "+R",
    }
    .to_string()
}

#[test]
fn piece_kind_to_usi_works() {
    for piece_kind in PieceKind::all() {
        let mut chars = Vec::new();
        piece_kind.to_usi(&mut chars);
        let actual: String = chars.into_iter().collect();
        assert_eq!(actual, to_usi_reference_kind(&piece_kind));
    }
}

#[test]
fn to_parts_works() {
    let piece_kinds = PieceKind::all();
    let colors = Color::all();
    for &piece_kind in &piece_kinds {
        for &color in &colors {
            let piece = Piece::new(piece_kind, color);
            let (piece_kind0, color0) = piece.to_parts();
            assert_eq!(piece_kind0, piece_kind);
            assert_eq!(color0, color);
        }
    }
}

#[test]
fn piece_representation() {
    assert_eq!(Piece::new(PieceKind::Pawn, Color::Black).as_u8(), 1);
    assert_eq!(Piece::new(PieceKind::ProRook, Color::White).as_u8(), 30);
    assert_eq!(Piece::new(PieceKind::ProRook, Color::White).array_index(), 29);
    let p = Piece::new(PieceKind::Silver, Color::White);
    assert_eq!(p.promote(), Some(Piece::new(PieceKind::ProSilver, Color::White)));
    assert_eq!(p.unpromote(), None);
    assert_eq!(p.promote().unwrap().unpromote(), Some(p));
    assert_eq!(Piece::all().len(), 28);
}

fn to_usi_reference_piece(this: &Piece) -> String {
    let (piece_kind, color) = this.to_parts();
    let s = to_usi_reference_kind(&piece_kind);
    match color {
        Color::Black => s,
        Color::White => s.to_lowercase(),
    }
}

#[test]
fn piece_to_usi_works() {
    for piece in Piece::all() {
        let mut chars = Vec::new();
        piece.to_usi(&mut chars);
        let actual: String = chars.into_iter().collect();
        assert_eq!(actual, to_usi_reference_piece(&piece));
        assert_eq!(piece.to_usi_owned(), actual);
    }
}

#[test]
fn new_works() {
    for file in 0..256 {
        for rank in 0..256 {
            let file = file as u8;
            let rank = rank as u8;
            let result = Square::new(file, rank);
            assert_eq!(
                result.is_some(),
                (1..=9).contains(&file) && (1..=9).contains(&rank),
            );
            if let Some(s) = result {
                assert_eq!(s.file(), file);
                assert_eq!(s.rank(), rank);
                assert_eq!(s.relative_file(Color::Black), file);
                assert_eq!(s.relative_rank(Color::Black), rank);
                assert_eq!(s.relative_file(Color::White), 10 - file);
                assert_eq!(s.relative_rank(Color::White), 10 - rank);
            }
        }
    }
}

#[test]
fn new_relative_works() {
    for file in 1..=9 {
        for rank in 1..=9 {
            let s = Square::new_relative(file, rank, Color::Black).unwrap();
            assert_eq!(s, sq(file, rank));
            let s = Square::new_relative(file, rank, Color::White).unwrap();
            assert_eq!(s, sq(10 - file, 10 - rank));
        }
    }
    assert_eq!(Square::new_relative(3, 4, Color::Black), Some(sq(3, 4)));
    assert_eq!(Square::new_relative(3, 4, Color::White), Some(sq(7, 6)));
}

#[test]
fn square_flip_works() {
    for file in 1..=9 {
        for rank in 1..=9 {
            let s = sq(file, rank);
            assert_eq!(s.flip(), sq(10 - file, 10 - rank));
        }
    }
}

fn from_u8_reference(value: u8) -> Option<Square> {
    if matches!(value, 1..=81) {
        Some(Square::from_u8_unchecked(value))
    } else {
        None
    }
}

#[test]
fn square_from_u8_works() {
    for value in 0..=255 {
        assert_eq!(Square::from_u8(value), from_u8_reference(value));
    }
}

fn shift_reference(this: Square, file_delta: i8, rank_delta: i8) -> Option<Square> {
    let file = this.file() as i32 + file_delta as i32;
    let rank = this.rank() as i32 + rank_delta as i32;
    if file <= 0 || rank <= 0 || file >= 10 || rank >= 10 {
        return None;
    }
    Square::new(file as u8, rank as u8)
}

#[test]
fn shift_works() {
    for file in 1..=9 {
        for rank in 1..=9 {
            let s = sq(file, rank);
            for file_delta in -128..127 {
                for rank_delta in -128..127 {
                    let result = s.shift(file_delta, rank_delta);
                    assert_eq!(result, shift_reference(s, file_delta, rank_delta));
                }
            }
        }
    }
}

#[test]
fn square_examples() {
    assert_eq!(sq(3, 4).index(), 22);
    assert_eq!(sq(3, 3).shift(-1, 3), Some(sq(2, 6)));
    assert_eq!(sq(8, 4).shift(0, -3), Some(sq(8, 1)));
    assert_eq!(sq(3, 3).shift(-4, 3), None);
    assert_eq!(Square::from_u8(21), Some(sq(3, 3)));
    assert_eq!(Square::from_u8(0), None);
    assert_eq!(Square::from_u8(82), None);
}

#[test]
fn square_array_index_works() {
    for (index, s) in Square::all().into_iter().enumerate() {
        assert_eq!(s.array_index(), index);
    }
}

#[test]
fn square_to_usi_works() {
    assert_eq!(sq(1, 1).to_usi_owned(), "1a".to_owned());
    assert_eq!(sq(1, 2).to_usi_owned(), "1b".to_owned());
    assert_eq!(sq(1, 3).to_usi_owned(), "1c".to_owned());
    assert_eq!(sq(1, 4).to_usi_owned(), "1d".to_owned());
    assert_eq!(sq(1, 5).to_usi_owned(), "1e".to_owned());
    assert_eq!(sq(1, 6).to_usi_owned(), "1f".to_owned());
    assert_eq!(sq(1, 7).to_usi_owned(), "1g".to_owned());
    assert_eq!(sq(1, 8).to_usi_owned(), "1h".to_owned());
    assert_eq!(sq(1, 9).to_usi_owned(), "1i".to_owned());
    assert_eq!(sq(2, 1).to_usi_owned(), "2a".to_owned());
    assert_eq!(sq(2, 2).to_usi_owned(), "2b".to_owned());
    assert_eq!(sq(2, 3).to_usi_owned(), "2c".to_owned());
    assert_eq!(sq(2, 4).to_usi_owned(), "2d".to_owned());
    assert_eq!(sq(2, 5).to_usi_owned(), "2e".to_owned());
    assert_eq!(sq(2, 6).to_usi_owned(), "2f".to_owned());
    assert_eq!(sq(2, 7).to_usi_owned(), "2g".to_owned());
    assert_eq!(sq(2, 8).to_usi_owned(), "2h".to_owned());
    assert_eq!(sq(2, 9).to_usi_owned(), "2i".to_owned());
    assert_eq!(sq(3, 1).to_usi_owned(), "3a".to_owned());
    assert_eq!(sq(3, 2).to_usi_owned(), "3b".to_owned());
    assert_eq!(sq(3, 3).to_usi_owned(), "3c".to_owned());
    assert_eq!(sq(3, 4).to_usi_owned(), "3d".to_owned());
    assert_eq!(sq(3, 5).to_usi_owned(), "3e".to_owned());
    assert_eq!(sq(3, 6).to_usi_owned(), "3f".to_owned());
    assert_eq!(sq(3, 7).to_usi_owned(), "3g".to_owned());
    assert_eq!(sq(3, 8).to_usi_owned(), "3h".to_owned());
    assert_eq!(sq(3, 9).to_usi_owned(), "3i".to_owned());
    assert_eq!(sq(4, 1).to_usi_owned(), "4a".to_owned());
    assert_eq!(sq(4, 2).to_usi_owned(), "4b".to_owned());
    assert_eq!(sq(4, 3).to_usi_owned(), "4c".to_owned());
    assert_eq!(sq(4, 4).to_usi_owned(), "4d".to_owned());
    assert_eq!(sq(4, 5).to_usi_owned(), "4e".to_owned());
    assert_eq!(sq(4, 6).to_usi_owned(), "4f".to_owned());
    assert_eq!(sq(4, 7).to_usi_owned(), "4g".to_owned());
    assert_eq!(sq(4, 8).to_usi_owned(), "4h".to_owned());
    assert_eq!(sq(4, 9).to_usi_owned(), "4i".to_owned());
    assert_eq!(sq(5, 1).to_usi_owned(), "5a".to_owned());
    assert_eq!(sq(5, 2).to_usi_owned(), "5b".to_owned());
    assert_eq!(sq(5, 3).to_usi_owned(), "5c".to_owned());
    assert_eq!(sq(5, 4).to_usi_owned(), "5d".to_owned());
    assert_eq!(sq(5, 5).to_usi_owned(), "5e".to_owned());
    assert_eq!(sq(5, 6).to_usi_owned(), "5f".to_owned());
    assert_eq!(sq(5, 7).to_usi_owned(), "5g".to_owned());
    assert_eq!(sq(5, 8).to_usi_owned(), "5h".to_owned());
    assert_eq!(sq(5, 9).to_usi_owned(), "5i".to_owned());
    assert_eq!(sq(6, 1).to_usi_owned(), "6a".to_owned());
    assert_eq!(sq(6, 2).to_usi_owned(), "6b".to_owned());
    assert_eq!(sq(6, 3).to_usi_owned(), "6c".to_owned());
    assert_eq!(sq(6, 4).to_usi_owned(), "6d".to_owned());
    assert_eq!(sq(6, 5).to_usi_owned(), "6e".to_owned());
    assert_eq!(sq(6, 6).to_usi_owned(), "6f".to_owned());
    assert_eq!(sq(6, 7).to_usi_owned(), "6g".to_owned());
    assert_eq!(sq(6, 8).to_usi_owned(), "6h".to_owned());
    assert_eq!(sq(6, 9).to_usi_owned(), "6i".to_owned());
    assert_eq!(sq(7, 1).to_usi_owned(), "7a".to_owned());
    assert_eq!(sq(7, 2).to_usi_owned(), "7b".to_owned());
    assert_eq!(sq(7, 3).to_usi_owned(), "7c".to_owned());
    assert_eq!(sq(7, 4).to_usi_owned(), "7d".to_owned());
    assert_eq!(sq(7, 5).to_usi_owned(), "7e".to_owned());
    assert_eq!(sq(7, 6).to_usi_owned(), "7f".to_owned());
    assert_eq!(sq(7, 7).to_usi_owned(), "7g".to_owned());
    assert_eq!(sq(7, 8).to_usi_owned(), "7h".to_owned());
    assert_eq!(sq(7, 9).to_usi_owned(), "7i".to_owned());
    assert_eq!(sq(8, 1).to_usi_owned(), "8a".to_owned());
    assert_eq!(sq(8, 2).to_usi_owned(), "8b".to_owned());
    assert_eq!(sq(8, 3).to_usi_owned(), "8c".to_owned());
    assert_eq!(sq(8, 4).to_usi_owned(), "8d".to_owned());
    assert_eq!(sq(8, 5).to_usi_owned(), "8e".to_owned());
    assert_eq!(sq(8, 6).to_usi_owned(), "8f".to_owned());
    assert_eq!(sq(8, 7).to_usi_owned(), "8g".to_owned());
    assert_eq!(sq(8, 8).to_usi_owned(), "8h".to_owned());
    assert_eq!(sq(8, 9).to_usi_owned(), "8i".to_owned());
    assert_eq!(sq(9, 1).to_usi_owned(), "9a".to_owned());
    assert_eq!(sq(9, 2).to_usi_owned(), "9b".to_owned());
    assert_eq!(sq(9, 3).to_usi_owned(), "9c".to_owned());
    assert_eq!(sq(9, 4).to_usi_owned(), "9d".to_owned());
    assert_eq!(sq(9, 5).to_usi_owned(), "9e".to_owned());
    assert_eq!(sq(9, 6).to_usi_owned(), "9f".to_owned());
    assert_eq!(sq(9, 7).to_usi_owned(), "9g".to_owned());
    assert_eq!(sq(9, 8).to_usi_owned(), "9h".to_owned());
    assert_eq!(sq(9, 9).to_usi_owned(), "9i".to_owned());
}

#[test]
fn color_to_usi() {
    assert_eq!(Color::Black.to_usi_owned(), "b");
    assert_eq!(Color::White.to_usi_owned(), "w");
}

#[test]
fn bridge_types_keep_their_width() {
    assert_eq!(core::mem::size_of::<OptionSquare>(), 1);
    assert_eq!(core::mem::size_of::<OptionPiece>(), 1);
    assert_eq!(core::mem::size_of::<OptionPieceKind>(), 1);
    assert_eq!(core::mem::size_of::<OptionGameResolution>(), 1);
    assert_eq!(core::mem::size_of::<ResultUnitIllegalMoveKind>(), 1);
    assert_eq!(core::mem::size_of::<shogi_core::c_compat::OptionCompactMove>(), 2);
    assert_eq!(core::mem::size_of::<shogi_core::CompactMove>(), 2);
    assert_eq!(core::mem::size_of::<Square>(), 1);
    assert_eq!(core::mem::size_of::<Piece>(), 1);
}
