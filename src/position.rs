use vstd::prelude::*;

use crate::bitboard::{all_squares, Bitboard};
use crate::color::{color_index, flip_spec, Color};
use crate::game_resolution::{
    lemma_resolution_round_trip, resolution_of, GameResolution, OptionGameResolution,
};
use crate::hand::{empty_counts, hand_slot, hands_usi, push_hands_usi, wrapping_inc, Hand};
use crate::mv::{decode, encode, CompactMove, Move};
use crate::piece::{piece_usi, Piece};
use crate::piece_kind::{is_hand_kind, kind_repr, promote_spec, unpromote_spec, PieceKind};
use crate::square::{file_of, rank_of, Square};
use crate::to_usi::{decimal, push_decimal, string_from_chars, ToUsi};

verus! {

/// Whether `p` is a piece owned by `c`.
pub open spec fn owned_by(p: Option<Piece>, c: Color) -> bool {
    p matches Some(q) && q.color_spec() == c
}

/// Whether `p` is a piece of kind `k`.
pub open spec fn has_kind(p: Option<Piece>, k: PieceKind) -> bool {
    p matches Some(q) && q.kind_spec() == k
}

/// Whether `p` is a piece of kind `k` owned by `c`.
pub open spec fn holds(p: Option<Piece>, k: PieceKind, c: Color) -> bool {
    p matches Some(q) && q.kind_spec() == k && q.color_spec() == c
}

/// The kind that a captured piece of kind `k` takes in hand: its unpromoted kind.
pub open spec fn captured_kind(k: PieceKind) -> PieceKind {
    match unpromote_spec(k) {
        Some(base) => base,
        None => k,
    }
}

/// `n + 1`, wrapping past 65535 to 0.
pub open spec fn wrapping_inc16(n: u16) -> u16 {
    if n == 65535 {
        0
    } else {
        (n + 1) as u16
    }
}

/// The back rank, by file: Lance, Knight, Silver, Gold, King, Gold, Silver, Knight, Lance.
pub open spec fn back_rank(file: int) -> PieceKind {
    seq![
        PieceKind::Lance,
        PieceKind::Knight,
        PieceKind::Silver,
        PieceKind::Gold,
        PieceKind::King,
        PieceKind::Gold,
        PieceKind::Silver,
        PieceKind::Knight,
        PieceKind::Lance,
    ][file - 1]
}

/// The piece on the square with index `i` in the starting position.
pub open spec fn start_piece(i: int) -> Option<(PieceKind, Color)> {
    let f = file_of(i);
    let r = rank_of(i);
    if r == 1 {
        Some((back_rank(f), Color::White))
    } else if r == 9 {
        Some((back_rank(f), Color::Black))
    } else if r == 3 {
        Some((PieceKind::Pawn, Color::White))
    } else if r == 7 {
        Some((PieceKind::Pawn, Color::Black))
    } else if r == 2 && f == 2 {
        Some((PieceKind::Bishop, Color::White))
    } else if r == 2 && f == 8 {
        Some((PieceKind::Rook, Color::White))
    } else if r == 8 && f == 8 {
        Some((PieceKind::Bishop, Color::Black))
    } else if r == 8 && f == 2 {
        Some((PieceKind::Rook, Color::Black))
    } else {
        None
    }
}

/// Whether `p` is the piece that `e` describes, or no piece when `e` is `None`.
pub open spec fn is_described(p: Option<Piece>, e: Option<(PieceKind, Color)>) -> bool {
    match e {
        Some((k, c)) => holds(p, k, c),
        None => p.is_none(),
    }
}

/// A run of `v` vacant squares in SFEN: its count, or nothing when there is none.
pub open spec fn vacant_run(v: nat) -> Seq<char> {
    if v > 0 {
        decimal(v)
    } else {
        Seq::empty()
    }
}

/// The piece of the starting position on `square`.
fn start_piece_at(square: Square) -> (r: Option<Piece>)
    ensures
        is_described(r, start_piece(square@)),
{
    let f = square.file();
    let r = square.rank();
    let order = [
        PieceKind::Lance,
        PieceKind::Knight,
        PieceKind::Silver,
        PieceKind::Gold,
        PieceKind::King,
        PieceKind::Gold,
        PieceKind::Silver,
        PieceKind::Knight,
        PieceKind::Lance,
    ];
    assert(order@ =~= seq![
        PieceKind::Lance,
        PieceKind::Knight,
        PieceKind::Silver,
        PieceKind::Gold,
        PieceKind::King,
        PieceKind::Gold,
        PieceKind::Silver,
        PieceKind::Knight,
        PieceKind::Lance,
    ]);
    if r == 1 {
        Some(Piece::new(order[(f - 1) as usize], Color::White))
    } else if r == 9 {
        Some(Piece::new(order[(f - 1) as usize], Color::Black))
    } else if r == 3 {
        Some(Piece::new(PieceKind::Pawn, Color::White))
    } else if r == 7 {
        Some(Piece::new(PieceKind::Pawn, Color::Black))
    } else if r == 2 && f == 2 {
        Some(Piece::new(PieceKind::Bishop, Color::White))
    } else if r == 2 && f == 8 {
        Some(Piece::new(PieceKind::Rook, Color::White))
    } else if r == 8 && f == 8 {
        Some(Piece::new(PieceKind::Bishop, Color::Black))
    } else if r == 8 && f == 2 {
        Some(Piece::new(PieceKind::Rook, Color::Black))
    } else {
        None
    }
}

/// A position without its move history: side to move, ply, hands, board, and the
/// bitboards and king squares that index the board.
#[derive(Eq, PartialEq, Clone, Copy, Debug, Hash)]
pub struct PartialPosition {
    side: Color,
    ply: u16,
    hands: [Hand; 2],
    board: [Option<Piece>; 81],
    player_bb: [Bitboard; 2],
    piece_bb: [Bitboard; 14],
    last_move: Option<CompactMove>,
    king_square: [Option<Square>; 2],
}

impl PartialPosition {
    /// The player to move.
    pub closed spec fn side_spec(self) -> Color {
        self.side
    }

    /// How many moves have been made, counting from 1.
    pub closed spec fn ply_spec(self) -> u16 {
        self.ply
    }

    /// The hand of `c`.
    pub closed spec fn hand_spec(self, c: Color) -> Hand {
        self.hands@[color_index(c)]
    }

    /// The piece on the square with index `i`, for `i` in `1..=81`.
    pub closed spec fn board_at(self, i: int) -> Option<Piece> {
        self.board@[i - 1]
    }

    /// The squares recorded as holding a piece of `c`.
    pub closed spec fn player_set(self, c: Color) -> Set<int> {
        self.player_bb@[color_index(c)]@
    }

    /// The squares recorded as holding a piece of kind `k`.
    pub closed spec fn kind_set(self, k: PieceKind) -> Set<int> {
        self.piece_bb@[kind_repr(k) - 1]@
    }

    /// The last move made, if any.
    pub closed spec fn last_move_spec(self) -> Option<CompactMove> {
        self.last_move
    }

    /// The square recorded for the king of `c`, if any.
    pub closed spec fn king_spec(self, c: Color) -> Option<Square> {
        self.king_square@[color_index(c)]
    }

    /// The bitboards agree with the board: a square is in the bitboard of a player or of
    /// a kind exactly when it holds a piece of that player or kind.
    pub open spec fn wf(self) -> bool {
        &&& forall|c: Color| #[trigger] self.player_set(c).subset_of(all_squares())
        &&& forall|k: PieceKind| #[trigger] self.kind_set(k).subset_of(all_squares())
        &&& forall|c: Color, i: int|
            1 <= i <= 81 ==> (#[trigger] self.player_set(c).contains(i) <==> owned_by(
                self.board_at(i),
                c,
            ))
        &&& forall|k: PieceKind, i: int|
            1 <= i <= 81 ==> (#[trigger] self.kind_set(k).contains(i) <==> has_kind(
                self.board_at(i),
                k,
            ))
    }

    proof fn lemma_wf_same(self, other: PartialPosition)
        requires
            self.wf(),
            self.board == other.board,
            self.player_bb == other.player_bb,
            self.piece_bb == other.piece_bb,
        ensures
            other.wf(),
    {
        assert forall|c: Color| #[trigger] other.player_set(c) == self.player_set(c) by {}
        assert forall|k: PieceKind| #[trigger] other.kind_set(k) == self.kind_set(k) by {}
        assert forall|i: int| #[trigger] other.board_at(i) == self.board_at(i) by {}
    }

    /// Everything but the board, the bitboards and the king squares is equal.
    pub open spec fn same_but_board(self, other: PartialPosition) -> bool {
        &&& self.side_spec() == other.side_spec()
        &&& self.ply_spec() == other.ply_spec()
        &&& self.hand_spec(Color::Black) == other.hand_spec(Color::Black)
        &&& self.hand_spec(Color::White) == other.hand_spec(Color::White)
        &&& self.last_move_spec() == other.last_move_spec()
    }

    /// An empty board: Black to move, ply 1, empty hands, no last move.
    pub fn empty() -> (r: PartialPosition)
        ensures
            r.wf(),
            r.side_spec() == Color::Black,
            r.ply_spec() == 1,
            r.hand_spec(Color::Black)@ == empty_counts(),
            r.hand_spec(Color::White)@ == empty_counts(),
            forall|i: int| 1 <= i <= 81 ==> r.board_at(i).is_none(),
            r.last_move_spec().is_none(),
            r.king_spec(Color::Black).is_none(),
            r.king_spec(Color::White).is_none(),
    {
        let e = Bitboard::empty();
        let h = Hand::new();
        let r = PartialPosition {
            side: Color::Black,
            ply: 1,
            hands: [h, h],
            board: [None; 81],
            player_bb: [e; 2],
            piece_bb: [e; 14],
            last_move: None,
            king_square: [None, None],
        };
        proof {
            assert(r.king_spec(Color::Black).is_none() && r.king_spec(Color::White).is_none());
            assert forall|c: Color| #[trigger] r.player_set(c).subset_of(all_squares()) by {
                assert(r.player_set(c) == e@);
            }
            assert forall|k: PieceKind| #[trigger] r.kind_set(k).subset_of(all_squares()) by {
                assert(r.kind_set(k) == e@);
            }
            assert forall|c: Color, i: int| 1 <= i <= 81 implies (#[trigger] r.player_set(
                c,
            ).contains(i) <==> owned_by(r.board_at(i), c)) by {
                assert(r.player_set(c) == e@);
            }
            assert forall|k: PieceKind, i: int| 1 <= i <= 81 implies (#[trigger] r.kind_set(
                k,
            ).contains(i) <==> has_kind(r.board_at(i), k)) by {
                assert(r.kind_set(k) == e@);
            }
        }
        r
    }

    /// Places `piece` on `square` (or clears it, for `None`) and repairs the bitboards
    /// and the king squares. Nothing else is checked: the caller answers for the
    /// consistency of the position.
    pub fn piece_set(&mut self, square: Square, piece: Option<Piece>)
        ensures
            final(self).same_but_board(*old(self)),
            final(self).board_at(square@) == piece,
            forall|i: int|
                1 <= i <= 81 && i != square@ ==> final(self).board_at(i) == old(self).board_at(i),
            forall|c: Color|
                #[trigger] final(self).player_set(c) == if owned_by(piece, c) {
                    old(self).player_set(c).insert(square@)
                } else {
                    old(self).player_set(c).remove(square@)
                },
            forall|k: PieceKind|
                #[trigger] final(self).kind_set(k) == if has_kind(piece, k) {
                    old(self).kind_set(k).insert(square@)
                } else if has_kind(old(self).board_at(square@), k) {
                    old(self).kind_set(k).remove(square@)
                } else {
                    old(self).kind_set(k)
                },
            forall|c: Color|
                #[trigger] final(self).king_spec(c) == if holds(piece, PieceKind::King, c) {
                    Some(square)
                } else {
                    old(self).king_spec(c)
                },
            old(self).wf() ==> final(self).wf(),
    {
        let index = square.array_index();
        let previous = self.board[index];
        self.board[index] = piece;
        let single = Bitboard::single(square);
        self.player_bb[0] = single.andnot(self.player_bb[0]);
        self.player_bb[1] = single.andnot(self.player_bb[1]);
        if let Some(p) = piece {
            let c = p.color().array_index();
            self.player_bb[c] = self.player_bb[c].or(single);
        }
        if let Some(p) = previous {
            let k = p.piece_kind().array_index();
            self.piece_bb[k] = single.andnot(self.piece_bb[k]);
        }
        if let Some(p) = piece {
            let (kind, color) = p.to_parts();
            let k = kind.array_index();
            self.piece_bb[k] = self.piece_bb[k].or(single);
            if kind == PieceKind::King {
                self.king_square[color.array_index()] = Some(square);
            }
        }
        proof {
            let s = square@;
            assert forall|c: Color| #[trigger] self.player_set(c) == if owned_by(piece, c) {
                old(self).player_set(c).insert(s)
            } else {
                old(self).player_set(c).remove(s)
            } by {
                assert(self.player_set(c) =~= if owned_by(piece, c) {
                    old(self).player_set(c).insert(s)
                } else {
                    old(self).player_set(c).remove(s)
                });
            }
            assert forall|k: PieceKind| #[trigger] self.kind_set(k) == if has_kind(piece, k) {
                old(self).kind_set(k).insert(s)
            } else if has_kind(old(self).board_at(s), k) {
                old(self).kind_set(k).remove(s)
            } else {
                old(self).kind_set(k)
            } by {
                assert(self.kind_set(k) =~= if has_kind(piece, k) {
                    old(self).kind_set(k).insert(s)
                } else if has_kind(old(self).board_at(s), k) {
                    old(self).kind_set(k).remove(s)
                } else {
                    old(self).kind_set(k)
                });
            }
            assert(self.hands == old(self).hands);
            if old(self).wf() {
                assert forall|c: Color, i: int| 1 <= i <= 81 implies (#[trigger] self.player_set(
                    c,
                ).contains(i) <==> owned_by(self.board_at(i), c)) by {
                    if i != s {
                        assert(old(self).player_set(c).contains(i) <==> owned_by(
                            old(self).board_at(i),
                            c,
                        ));
                    }
                }
                assert forall|k: PieceKind, i: int| 1 <= i <= 81 implies (#[trigger] self.kind_set(
                    k,
                ).contains(i) <==> has_kind(self.board_at(i), k)) by {
                    assert(old(self).kind_set(k).contains(i) <==> has_kind(old(self).board_at(i), k));
                }
                assert forall|c: Color| #[trigger] self.player_set(c).subset_of(all_squares()) by {
                    assert(old(self).player_set(c).subset_of(all_squares()));
                }
                assert forall|k: PieceKind| #[trigger] self.kind_set(k).subset_of(all_squares()) by {
                    assert(old(self).kind_set(k).subset_of(all_squares()));
                }
            }
        }
    }

    /// The board, the bitboards and the king squares are equal.
    pub open spec fn same_board(self, other: PartialPosition) -> bool {
        &&& forall|i: int| 1 <= i <= 81 ==> #[trigger] self.board_at(i) == other.board_at(i)
        &&& forall|c: Color| #[trigger] self.player_set(c) == other.player_set(c)
        &&& forall|k: PieceKind| #[trigger] self.kind_set(k) == other.kind_set(k)
        &&& forall|c: Color| #[trigger] self.king_spec(c) == other.king_spec(c)
    }

    /// Whether `make_move` accepts `mv`: a normal move takes a piece of the side to move,
    /// promotes only a kind that can, and lands on a vacant square or on an opponent's
    /// piece other than a King; a drop places an unpromoted piece of the side to move,
    /// held in its hand, on a vacant square.
    pub open spec fn move_applicable(self, mv: Move) -> bool {
        match mv {
            Move::Normal { from, to, promote } => match self.board_at(from@) {
                Some(p) => {
                    &&& p.color_spec() == self.side_spec()
                    &&& promote ==> promote_spec(p.kind_spec()).is_some()
                    &&& match self.board_at(to@) {
                        Some(e) => e.color_spec() != p.color_spec() && is_hand_kind(
                            captured_kind(e.kind_spec()),
                        ),
                        None => true,
                    }
                },
                None => false,
            },
            Move::Drop { piece, to } => {
                &&& piece.color_spec() == self.side_spec()
                &&& unpromote_spec(piece.kind_spec()).is_none()
                &&& self.board_at(to@).is_none()
                &&& is_hand_kind(piece.kind_spec())
                &&& self.hand_spec(piece.color_spec())@[hand_slot(piece.kind_spec())] > 0
            },
        }
    }

    /// What applying the accepted move `mv` to `self` gives in `next`.
    pub open spec fn move_effect(self, next: PartialPosition, mv: Move) -> bool {
        let side = self.side_spec();
        let other = flip_spec(side);
        &&& next.side_spec() == other
        &&& next.ply_spec() == wrapping_inc16(self.ply_spec())
        &&& next.last_move_spec() == Some(CompactMove::from_repr(encode(mv)))
        &&& next.hand_spec(other) == self.hand_spec(other)
        &&& match mv {
            Move::Normal { from, to, promote } => {
                let p = self.board_at(from@).unwrap();
                let k = if promote {
                    promote_spec(p.kind_spec()).unwrap()
                } else {
                    p.kind_spec()
                };
                &&& next.board_at(from@).is_none()
                &&& holds(next.board_at(to@), k, side)
                &&& !promote ==> next.board_at(to@) == self.board_at(from@)
                &&& forall|i: int|
                    1 <= i <= 81 && i != from@ && i != to@ ==> #[trigger] next.board_at(i)
                        == self.board_at(i)
                &&& match self.board_at(to@) {
                    Some(e) => next.hand_spec(side)@ == self.hand_spec(side)@.update(
                        hand_slot(captured_kind(e.kind_spec())),
                        wrapping_inc(self.hand_spec(side)@[hand_slot(captured_kind(e.kind_spec()))]),
                    ),
                    None => next.hand_spec(side) == self.hand_spec(side),
                }
                &&& forall|c: Color|
                    #[trigger] next.king_spec(c) == if k == PieceKind::King && c == side {
                        Some(to)
                    } else {
                        self.king_spec(c)
                    }
            },
            Move::Drop { piece, to } => {
                &&& next.board_at(to@) == Some(piece)
                &&& forall|i: int|
                    1 <= i <= 81 && i != to@ ==> #[trigger] next.board_at(i) == self.board_at(i)
                &&& next.hand_spec(side)@ == self.hand_spec(side)@.update(
                    hand_slot(piece.kind_spec()),
                    (self.hand_spec(side)@[hand_slot(piece.kind_spec())] - 1) as u8,
                )
                &&& forall|c: Color| #[trigger] next.king_spec(c) == self.king_spec(c)
            },
        }
    }

    /// The player to move.
    pub fn side_to_move(&self) -> (r: Color)
        ensures
            r == self.side_spec(),
    {
        self.side
    }

    /// Sets the player to move.
    pub fn side_to_move_set(&mut self, side: Color)
        ensures
            final(self).side_spec() == side,
            final(self).ply_spec() == old(self).ply_spec(),
            final(self).hand_spec(Color::Black) == old(self).hand_spec(Color::Black),
            final(self).hand_spec(Color::White) == old(self).hand_spec(Color::White),
            final(self).last_move_spec() == old(self).last_move_spec(),
            final(self).same_board(*old(self)),
            old(self).wf() ==> final(self).wf(),
    {
        self.side = side;
    }

    /// The hand of `color`.
    pub fn hand_of_a_player(&self, color: Color) -> (r: Hand)
        ensures
            r == self.hand_spec(color),
            r@.len() == 7,
    {
        let r = self.hands[color.array_index()];
        proof {
            r.lemma_len();
        }
        r
    }

    /// How many pieces like `piece` its owner holds; `None` if such a piece cannot be
    /// held in hand.
    pub fn hand(&self, piece: Piece) -> (r: Option<u8>)
        ensures
            r.is_some() <==> is_hand_kind(piece.kind_spec()),
            r.is_some() ==> r.unwrap() == self.hand_spec(piece.color_spec())@[hand_slot(
                piece.kind_spec(),
            )],
    {
        let hand = self.hand_of_a_player(piece.color());
        hand.count(piece.piece_kind())
    }

    /// How many moves have been made, counting from 1.
    pub fn ply(&self) -> (r: u16)
        ensures
            r == self.ply_spec(),
    {
        self.ply
    }

    /// Sets the ply; refuses 0, which leaves `self` as it is. Returns whether it was set.
    pub fn ply_set(&mut self, ply: u16) -> (r: bool)
        ensures
            r == (ply != 0),
            !r ==> *final(self) == *old(self),
            r ==> final(self).ply_spec() == ply,
            r ==> final(self).side_spec() == old(self).side_spec(),
            r ==> final(self).hand_spec(Color::Black) == old(self).hand_spec(Color::Black),
            r ==> final(self).hand_spec(Color::White) == old(self).hand_spec(Color::White),
            r ==> final(self).last_move_spec() == old(self).last_move_spec(),
            r ==> final(self).same_board(*old(self)),
            old(self).wf() ==> final(self).wf(),
    {
        if ply == 0 {
            return false;
        }
        let ghost before = *self;
        self.ply = ply;
        proof {
            if before.wf() {
                before.lemma_wf_same(*self);
            }
        }
        true
    }

    /// The piece on `square`, if any.
    pub fn piece_at(&self, square: Square) -> (r: Option<Piece>)
        ensures
            r == self.board_at(square@),
    {
        self.board[square.array_index()]
    }

    /// The squares that hold a piece.
    pub fn occupied_bitboard(&self) -> (r: Bitboard)
        ensures
            r.valid(),
            r@ == self.player_set(Color::Black).union(self.player_set(Color::White)),
            self.wf() ==> r@ == Set::new(|i: int| 1 <= i <= 81 && self.board_at(i).is_some()),
    {
        let r = self.player_bb[0].or(self.player_bb[1]);
        proof {
            if self.wf() {
                self.lemma_occupied();
            }
        }
        r
    }

    /// The squares that hold no piece.
    pub fn vacant_bitboard(&self) -> (r: Bitboard)
        ensures
            r.valid(),
            r@ == all_squares().difference(
                self.player_set(Color::Black).union(self.player_set(Color::White)),
            ),
            self.wf() ==> r@ == Set::new(|i: int| 1 <= i <= 81 && self.board_at(i).is_none()),
    {
        let r = self.occupied_bitboard().not();
        proof {
            if self.wf() {
                self.lemma_occupied();
                assert(r@ =~= Set::new(|i: int| 1 <= i <= 81 && self.board_at(i).is_none()));
            }
        }
        r
    }

    /// The squares that hold a piece of `color`.
    pub fn player_bitboard(&self, color: Color) -> (r: Bitboard)
        ensures
            r.valid(),
            r@ == self.player_set(color),
            self.wf() ==> r@ == Set::new(|i: int| 1 <= i <= 81 && owned_by(self.board_at(i), color)),
    {
        let r = self.player_bb[color.array_index()];
        proof {
            use_type_invariant(&r);
            if self.wf() {
                assert(self.player_set(color).subset_of(all_squares()));
                assert(r@ =~= Set::new(|i: int| 1 <= i <= 81 && owned_by(self.board_at(i), color)));
            }
        }
        r
    }

    /// The squares that hold `piece`.
    pub fn piece_bitboard(&self, piece: Piece) -> (r: Bitboard)
        ensures
            r.valid(),
            r@ == self.kind_set(piece.kind_spec()).intersect(self.player_set(piece.color_spec())),
            self.wf() ==> r@ == Set::new(
                |i: int|
                    1 <= i <= 81 && holds(self.board_at(i), piece.kind_spec(), piece.color_spec()),
            ),
    {
        let (kind, color) = piece.to_parts();
        let r = self.piece_bb[kind.array_index()].and(self.player_bb[color.array_index()]);
        proof {
            if self.wf() {
                self.lemma_piece_squares(kind, color);
            }
        }
        r
    }

    /// The squares that hold a piece of kind `piece_kind`.
    pub fn piece_kind_bitboard(&self, piece_kind: PieceKind) -> (r: Bitboard)
        ensures
            r.valid(),
            r@ == self.kind_set(piece_kind),
            self.wf() ==> r@ == Set::new(|i: int| 1 <= i <= 81 && has_kind(self.board_at(i), piece_kind)),
    {
        let r = self.piece_bb[piece_kind.array_index()];
        proof {
            use_type_invariant(&r);
            if self.wf() {
                assert(self.kind_set(piece_kind).subset_of(all_squares()));
                assert(r@ =~= Set::new(|i: int| 1 <= i <= 81 && has_kind(self.board_at(i), piece_kind)));
            }
        }
        r
    }

    /// The last move made, if any.
    pub fn last_move(&self) -> (r: Option<Move>)
        ensures
            r == match self.last_move_spec() {
                Some(c) => Some(decode(c.repr())),
                None => None::<Move>,
            },
    {
        match self.last_move {
            Some(c) => Some(c.to_move()),
            None => None,
        }
    }

    /// The last move made, packed, if any.
    pub fn last_compact_move(&self) -> (r: Option<CompactMove>)
        ensures
            r == self.last_move_spec(),
    {
        self.last_move
    }

    /// The square recorded for the king of `color`, if any.
    pub fn king_position(&self, color: Color) -> (r: Option<Square>)
        ensures
            r == self.king_spec(color),
    {
        self.king_square[color.array_index()]
    }

    /// In a consistent position the two player bitboards together hold exactly the
    /// occupied squares.
    pub proof fn lemma_occupied(self)
        requires
            self.wf(),
        ensures
            self.player_set(Color::Black).union(self.player_set(Color::White)) == Set::new(
                |i: int| 1 <= i <= 81 && self.board_at(i).is_some(),
            ),
    {
        let u = self.player_set(Color::Black).union(self.player_set(Color::White));
        assert forall|i: int| u.contains(i) <==> (1 <= i <= 81 && self.board_at(i).is_some()) by {
            assert(self.player_set(Color::Black).subset_of(all_squares()));
            assert(self.player_set(Color::White).subset_of(all_squares()));
            if 1 <= i <= 81 {
                assert(self.player_set(Color::Black).contains(i) <==> owned_by(self.board_at(i), Color::Black));
                assert(self.player_set(Color::White).contains(i) <==> owned_by(self.board_at(i), Color::White));
                if let Some(q) = self.board_at(i) {
                    assert(q.color_spec() == Color::Black || q.color_spec() == Color::White);
                }
            }
        }
        assert(u =~= Set::new(|i: int| 1 <= i <= 81 && self.board_at(i).is_some()));
    }

    /// In a consistent position the bitboard of a kind and that of a player meet exactly
    /// in the squares that hold a piece of that kind and player.
    pub proof fn lemma_piece_squares(self, k: PieceKind, c: Color)
        requires
            self.wf(),
        ensures
            self.kind_set(k).intersect(self.player_set(c)) == Set::new(
                |i: int| 1 <= i <= 81 && holds(self.board_at(i), k, c),
            ),
    {
        let u = self.kind_set(k).intersect(self.player_set(c));
        assert forall|i: int| u.contains(i) <==> (1 <= i <= 81 && holds(self.board_at(i), k, c)) by {
            assert(self.kind_set(k).subset_of(all_squares()));
            if 1 <= i <= 81 {
                assert(self.player_set(c).contains(i) <==> owned_by(self.board_at(i), c));
                assert(self.kind_set(k).contains(i) <==> has_kind(self.board_at(i), k));
            }
        }
        assert(u =~= Set::new(|i: int| 1 <= i <= 81 && holds(self.board_at(i), k, c)));
    }

    /// A move whose destination holds a piece of the side to move is refused; by
    /// [`PartialPosition::make_move`], the position is then left exactly as it was.
    pub proof fn lemma_own_destination_refused(self, mv: Move)
        requires
            owned_by(self.board_at(mv.to_spec()@), self.side_spec()),
        ensures
            !self.move_applicable(mv),
    {
    }

    /// Applies `mv` if it makes sense (see [`PartialPosition::move_applicable`]) and
    /// returns `Some(())`; otherwise returns `None` and leaves `self` untouched. Legality
    /// (checks, repetition, drop-pawn mate and the like) is not examined.
    pub fn make_move(&mut self, mv: Move) -> (r: Option<()>)
        ensures
            r.is_some() <==> old(self).move_applicable(mv),
            r.is_none() ==> *final(self) == *old(self),
            r.is_some() ==> old(self).move_effect(*final(self), mv),
            old(self).wf() ==> final(self).wf(),
    {
        let ghost s0 = *self;
        let color = self.side;
        let ci = color.array_index();
        match mv {
            Move::Normal { from, to, promote } => {
                let fi = from.array_index();
                let ti = to.array_index();
                let piece = match self.board[fi] {
                    Some(p) => p,
                    None => return None,
                };
                if piece.color() != color {
                    return None;
                }
                let target = if promote {
                    match piece.promote() {
                        Some(p) => p,
                        None => return None,
                    }
                } else {
                    piece
                };
                if let Some(enemy) = self.board[ti] {
                    if piece.color() == enemy.color() {
                        return None;
                    }
                    let obtaining = enemy.piece_kind();
                    let unpromoted = match obtaining.unpromote() {
                        Some(k) => k,
                        None => obtaining,
                    };
                    match self.hands[ci].added(unpromoted) {
                        Some(h) => {
                            self.hands[ci] = h;
                        },
                        None => return None,
                    }
                }
                proof {
                    if s0.wf() {
                        s0.lemma_wf_same(*self);
                    }
                    assert(from@ != to@);
                }
                let ghost s1 = *self;
                self.piece_set(from, None);
                let ghost s2 = *self;
                self.piece_set(to, Some(target));
                proof {
                    assert(self.board_at(to@) == Some(target));
                    assert(self.board_at(from@) == s2.board_at(from@));
                    assert forall|i: int|
                        1 <= i <= 81 && i != from@ && i != to@ implies #[trigger] self.board_at(i)
                            == s0.board_at(i) by {
                        assert(self.board_at(i) == s2.board_at(i));
                        assert(s2.board_at(i) == s1.board_at(i));
                        assert(s1.board == s0.board);
                    }
                    assert forall|c: Color| #[trigger] self.king_spec(c) == if target.kind_spec()
                        == PieceKind::King && c == color {
                        Some(to)
                    } else {
                        s0.king_spec(c)
                    } by {
                        assert(s2.king_spec(c) == s1.king_spec(c));
                        assert(s1.king_spec(c) == s0.king_spec(c));
                    }
                }
            },
            Move::Drop { piece, to } => {
                if piece.color() != color {
                    return None;
                }
                if piece.unpromote().is_some() {
                    return None;
                }
                let ti = to.array_index();
                if self.board[ti].is_some() {
                    return None;
                }
                match self.hands[ci].removed(piece.piece_kind()) {
                    Some(h) => {
                        self.hands[ci] = h;
                    },
                    None => return None,
                }
                proof {
                    if s0.wf() {
                        s0.lemma_wf_same(*self);
                    }
                }
                let ghost s1 = *self;
                self.piece_set(to, Some(piece));
                proof {
                    assert forall|i: int| 1 <= i <= 81 && i != to@ implies #[trigger] self.board_at(i)
                        == s0.board_at(i) by {
                        assert(s1.board == s0.board);
                    }
                    assert forall|c: Color| #[trigger] self.king_spec(c) == s0.king_spec(c) by {
                        assert(s1.king_spec(c) == s0.king_spec(c));
                        assert(!holds(Some(piece), PieceKind::King, c));
                    }
                }
            },
        }
        let ghost s3 = *self;
        self.last_move = Some(CompactMove::encode_move(mv));
        self.side = self.side.flip();
        self.ply = self.ply.wrapping_add(1);
        proof {
            if s0.wf() {
                s3.lemma_wf_same(*self);
            }
            assert(color_index(flip_spec(color)) != ci);
            let next = *self;
            assert(next.side_spec() == flip_spec(color));
            assert(next.ply_spec() == wrapping_inc16(s0.ply_spec()));
            assert(next.hand_spec(flip_spec(color)) == s0.hand_spec(flip_spec(color)));
            assert(next.board == s3.board);
            assert(next.hands == s3.hands);
            assert(next.king_square == s3.king_square);
            assert(forall|i: int| #[trigger] next.board_at(i) == s3.board_at(i));
            assert(forall|c: Color| #[trigger] next.king_spec(c) == s3.king_spec(c));
        }
        Some(())
    }

    /// The starting position of shogi: Black to move, ply 1, empty hands.
    pub fn startpos() -> (r: PartialPosition)
        ensures
            r.wf(),
            r.side_spec() == Color::Black,
            r.ply_spec() == 1,
            r.hand_spec(Color::Black)@ == empty_counts(),
            r.hand_spec(Color::White)@ == empty_counts(),
            r.last_move_spec().is_none(),
            forall|i: int| 1 <= i <= 81 ==> is_described(#[trigger] r.board_at(i), start_piece(i)),
            r.king_spec(Color::Black) matches Some(s) && s@ == 45,
            r.king_spec(Color::White) matches Some(s) && s@ == 37,
    {
        let mut r = PartialPosition::empty();
        let ghost e0 = r;
        let mut v: u8 = 1;
        while v <= 81
            invariant
                1 <= v <= 82,
                r.wf(),
                r.same_but_board(e0),
                e0.hand_spec(Color::Black)@ == empty_counts(),
                e0.hand_spec(Color::White)@ == empty_counts(),
                e0.side_spec() == Color::Black,
                e0.ply_spec() == 1,
                e0.last_move_spec().is_none(),
                forall|i: int| 1 <= i < v ==> is_described(#[trigger] r.board_at(i), start_piece(i)),
                forall|i: int| v <= i <= 81 ==> (#[trigger] r.board_at(i)).is_none(),
                v > 45 ==> (r.king_spec(Color::Black) matches Some(s) && s@ == 45),
                v <= 45 ==> r.king_spec(Color::Black).is_none(),
                v > 37 ==> (r.king_spec(Color::White) matches Some(s) && s@ == 37),
                v <= 37 ==> r.king_spec(Color::White).is_none(),
            decreases 82 - v,
        {
            let square = Square::from_u8_unchecked(v);
            let piece = start_piece_at(square);
            if piece.is_some() {
                r.piece_set(square, piece);
            }
            proof {
                assert(start_piece(45) == Some((PieceKind::King, Color::Black)));
                assert(start_piece(37) == Some((PieceKind::King, Color::White)));
                assert forall|c: Color| holds(piece, PieceKind::King, c) implies (v == 45 && c
                    == Color::Black) || (v == 37 && c == Color::White) by {
                    assert(back_rank(file_of(v as int)) == PieceKind::King ==> file_of(v as int)
                        == 5);
                }
            }
            v += 1;
        }
        r
    }

    /// The squares of rank `i + 1`, from file 9 down to file 1, as `col` goes from 0 to 8.
    pub open spec fn cell(self, i: int, col: int) -> Option<Piece> {
        self.board_at(9 * (8 - col) + i + 1)
    }

    /// The SFEN text written for the first `j` squares of rank `i + 1`, and the length of
    /// the run of vacant squares not yet written.
    pub open spec fn row_state(self, i: int, j: int) -> (Seq<char>, nat)
        decreases j,
    {
        if j <= 0 {
            (Seq::empty(), 0)
        } else {
            let (t, v) = self.row_state(i, j - 1);
            match self.cell(i, j - 1) {
                Some(q) => (t + vacant_run(v) + piece_usi(q.kind_spec(), q.color_spec()), 0),
                None => (t, v + 1),
            }
        }
    }

    /// The SFEN text of rank `i + 1`.
    pub open spec fn row_usi(self, i: int) -> Seq<char> {
        self.row_state(i, 9).0 + vacant_run(self.row_state(i, 9).1)
    }

    /// The SFEN text of the first `n` ranks, each after the first preceded by `/`.
    pub open spec fn rows_usi(self, n: int) -> Seq<char>
        decreases n,
    {
        if n <= 0 {
            Seq::empty()
        } else if n == 1 {
            self.row_usi(0)
        } else {
            self.rows_usi(n - 1) + seq!['/'] + self.row_usi(n - 1)
        }
    }

    /// The SFEN text of `self`: the board rank by rank, the side to move, the hands (the side
    /// to move's first) and the ply, separated by spaces.
    pub open spec fn sfen(self) -> Seq<char> {
        self.rows_usi(9) + seq![' '] + self.side_spec().usi() + seq![' '] + hands_usi(
            self.side_spec(),
            self.hand_spec(Color::Black)@,
            self.hand_spec(Color::White)@,
        ) + seq![' '] + decimal(self.ply_spec() as nat)
    }

    /// Appends the SFEN text of rank `i + 1`.
    fn push_row(&self, i: usize, sink: &mut Vec<char>)
        requires
            i < 9,
        ensures
            final(sink)@ == old(sink)@ + self.row_usi(i as int),
    {
        let mut vacant: u8 = 0;
        let mut j: usize = 0;
        while j < 9
            invariant
                i < 9,
                j <= 9,
                vacant <= j,
                sink@ == old(sink)@ + self.row_state(i as int, j as int).0,
                vacant == self.row_state(i as int, j as int).1,
            decreases 9 - j,
        {
            let current = self.board[9 * (8 - j) + i];
            match current {
                Some(occupying) => {
                    if vacant > 0 {
                        push_decimal(vacant as u16, sink);
                    }
                    vacant = 0;
                    occupying.to_usi(sink);
                },
                None => {
                    vacant += 1;
                },
            }
            proof {
                let (t, v) = self.row_state(i as int, j as int);
                assert(current == self.cell(i as int, j as int));
                if current.is_some() {
                    assert(sink@ =~= old(sink)@ + (t + vacant_run(v) + piece_usi(
                        current.unwrap().kind_spec(),
                        current.unwrap().color_spec(),
                    )));
                }
            }
            j += 1;
        }
        if vacant > 0 {
            push_decimal(vacant as u16, sink);
        }
        assert(sink@ =~= old(sink)@ + self.row_usi(i as int));
    }

    /// Appends the SFEN text of `self`.
    pub fn to_sfen(&self, sink: &mut Vec<char>)
        ensures
            final(sink)@ == old(sink)@ + self.sfen(),
    {
        let mut i: usize = 0;
        while i < 9
            invariant
                i <= 9,
                sink@ == old(sink)@ + self.rows_usi(i as int),
            decreases 9 - i,
        {
            if i > 0 {
                sink.push('/');
            }
            self.push_row(i, sink);
            assert(sink@ =~= old(sink)@ + self.rows_usi(i + 1));
            i += 1;
        }
        sink.push(' ');
        self.side.to_usi(sink);
        sink.push(' ');
        push_hands_usi(&self.hands, self.side, sink);
        sink.push(' ');
        push_decimal(self.ply, sink);
        assert(sink@ =~= old(sink)@ + self.sfen());
    }

    /// The SFEN text of `self`.
    pub fn to_sfen_owned(&self) -> (r: String)
        ensures
            r@ == self.sfen(),
    {
        let mut chars: Vec<char> = Vec::new();
        self.to_sfen(&mut chars);
        assert(chars@ =~= self.sfen());
        string_from_chars(&chars)
    }

    /// Gives access to the hand of `color`. Nothing is checked: the caller answers for
    /// the consistency of the position.
    pub fn hand_of_a_player_mut(&mut self, color: Color) -> (r: &mut Hand)
        ensures
            *r == old(self).hand_spec(color),
            final(self).hand_spec(color) == *final(r),
            final(self).hand_spec(flip_spec(color)) == old(self).hand_spec(flip_spec(color)),
            final(self).side_spec() == old(self).side_spec(),
            final(self).ply_spec() == old(self).ply_spec(),
            final(self).last_move_spec() == old(self).last_move_spec(),
            final(self).same_board(*old(self)),
    {
        match color {
            Color::Black => &mut self.hands[0],
            Color::White => &mut self.hands[1],
        }
    }

    /// Applies the packed move `mv`, as [`PartialPosition::make_move`] does; returns
    /// whether it was applied.
    pub fn make_compact_move(&mut self, mv: CompactMove) -> (r: bool)
        ensures
            r == old(self).move_applicable(decode(mv.repr())),
            !r ==> *final(self) == *old(self),
            r ==> old(self).move_effect(*final(self), decode(mv.repr())),
            old(self).wf() ==> final(self).wf(),
    {
        let m = mv.to_move();
        self.make_move(m).is_some()
    }
}


impl Default for PartialPosition {
    /// The starting position.
    fn default() -> (r: PartialPosition)
        ensures
            r.wf(),
            r.side_spec() == Color::Black,
            r.ply_spec() == 1,
            r.last_move_spec().is_none(),
            forall|i: int| 1 <= i <= 81 ==> is_described(#[trigger] r.board_at(i), start_piece(i)),
    {
        PartialPosition::startpos()
    }
}

/// Whether applying the moves `ms` one after another to `a` can give `b`.
pub open spec fn replays(a: PartialPosition, ms: Seq<Move>, b: PartialPosition) -> bool
    decreases ms.len(),
{
    if ms.len() == 0 {
        a == b
    } else {
        exists|m: PartialPosition|
            replays(a, ms.drop_last(), m) && m.move_applicable(ms.last()) && m.move_effect(
                b,
                ms.last(),
            )
    }
}

/// A position together with the position it started from and the moves made since.
#[derive(Eq, PartialEq, Clone, Debug)]
pub struct Position {
    initial: PartialPosition,
    inner: PartialPosition,
    moves: Vec<Move>,
}

impl Position {
    /// The position before any move.
    pub closed spec fn initial_spec(self) -> PartialPosition {
        self.initial
    }

    /// The current position.
    pub closed spec fn inner_spec(self) -> PartialPosition {
        self.inner
    }

    /// The moves made so far.
    pub closed spec fn moves_spec(self) -> Seq<Move> {
        self.moves@
    }

    /// The moves, replayed from the initial position, give the current one.
    pub open spec fn history_agrees(self) -> bool {
        replays(self.initial_spec(), self.moves_spec(), self.inner_spec())
    }

    /// The current position.
    pub fn inner(&self) -> (r: &PartialPosition)
        ensures
            *r == self.inner_spec(),
    {
        &self.inner
    }

    /// The position before any move.
    pub fn initial_position(&self) -> (r: &PartialPosition)
        ensures
            *r == self.initial_spec(),
    {
        &self.initial
    }

    /// The starting position of shogi, with no moves made.
    pub fn startpos() -> (r: Position)
        ensures
            r.inner_spec() == r.initial_spec(),
            r.moves_spec() == Seq::<Move>::empty(),
            r.history_agrees(),
            r.inner_spec().wf(),
            r.inner_spec().side_spec() == Color::Black,
            r.inner_spec().ply_spec() == 1,
            r.inner_spec().last_move_spec().is_none(),
            forall|i: int|
                1 <= i <= 81 ==> is_described(#[trigger] r.inner_spec().board_at(i), start_piece(i)),
    {
        Position::arbitrary_position(PartialPosition::startpos())
    }

    /// A position starting from `p`, with no moves made.
    pub fn arbitrary_position(p: PartialPosition) -> (r: Position)
        ensures
            r.initial_spec() == p,
            r.inner_spec() == p,
            r.moves_spec() == Seq::<Move>::empty(),
            r.history_agrees(),
    {
        let r = Position { initial: p, inner: p, moves: Vec::new() };
        assert(r.moves_spec().len() == 0);
        r
    }

    /// The player to move.
    pub fn side_to_move(&self) -> (r: Color)
        ensures
            r == self.inner_spec().side_spec(),
    {
        self.inner.side_to_move()
    }

    /// The hand of `color`.
    pub fn hand_of_a_player(&self, color: Color) -> (r: Hand)
        ensures
            r == self.inner_spec().hand_spec(color),
    {
        self.inner.hand_of_a_player(color)
    }

    /// Gives access to the hand of `color` in the current position. Nothing is checked:
    /// the caller answers for the consistency of the position.
    pub fn hand_of_a_player_mut(&mut self, color: Color) -> (r: &mut Hand)
        ensures
            *r == old(self).inner_spec().hand_spec(color),
            final(self).inner_spec().hand_spec(color) == *final(r),
            final(self).inner_spec().hand_spec(flip_spec(color)) == old(self).inner_spec().hand_spec(
                flip_spec(color),
            ),
            final(self).inner_spec().same_board(old(self).inner_spec()),
            final(self).initial_spec() == old(self).initial_spec(),
            final(self).moves_spec() == old(self).moves_spec(),
    {
        self.inner.hand_of_a_player_mut(color)
    }

    /// How many pieces like `piece` its owner holds; `None` if such a piece cannot be
    /// held in hand.
    pub fn hand(&self, piece: Piece) -> (r: Option<u8>)
        ensures
            r.is_some() <==> is_hand_kind(piece.kind_spec()),
            r.is_some() ==> r.unwrap() == self.inner_spec().hand_spec(piece.color_spec())@[hand_slot(
                piece.kind_spec(),
            )],
    {
        self.inner.hand(piece)
    }

    /// How many moves have been made, counting from 1.
    pub fn ply(&self) -> (r: u16)
        ensures
            r == self.inner_spec().ply_spec(),
    {
        self.inner.ply()
    }

    /// The piece on `square`, if any.
    pub fn piece_at(&self, square: Square) -> (r: Option<Piece>)
        ensures
            r == self.inner_spec().board_at(square@),
    {
        self.inner.piece_at(square)
    }

    /// Places `piece` on `square` of the current position, as
    /// [`PartialPosition::piece_set`] does. Nothing is checked: the caller answers for the
    /// consistency of the position.
    pub fn piece_set(&mut self, square: Square, piece: Option<Piece>)
        ensures
            final(self).inner_spec().board_at(square@) == piece,
            forall|i: int|
                1 <= i <= 81 && i != square@ ==> final(self).inner_spec().board_at(i) == old(
                    self,
                ).inner_spec().board_at(i),
            final(self).inner_spec().same_but_board(old(self).inner_spec()),
            final(self).initial_spec() == old(self).initial_spec(),
            final(self).moves_spec() == old(self).moves_spec(),
            old(self).inner_spec().wf() ==> final(self).inner_spec().wf(),
    {
        self.inner.piece_set(square, piece)
    }

    /// The squares that hold a piece.
    pub fn occupied_bitboard(&self) -> (r: Bitboard)
        ensures
            r.valid(),
            self.inner_spec().wf() ==> r@ == Set::new(
                |i: int| 1 <= i <= 81 && self.inner_spec().board_at(i).is_some(),
            ),
    {
        self.inner.occupied_bitboard()
    }

    /// The squares that hold no piece.
    pub fn vacant_bitboard(&self) -> (r: Bitboard)
        ensures
            r.valid(),
            self.inner_spec().wf() ==> r@ == Set::new(
                |i: int| 1 <= i <= 81 && self.inner_spec().board_at(i).is_none(),
            ),
    {
        self.inner.vacant_bitboard()
    }

    /// The squares that hold a piece of `color`.
    pub fn player_bitboard(&self, color: Color) -> (r: Bitboard)
        ensures
            r.valid(),
            self.inner_spec().wf() ==> r@ == Set::new(
                |i: int| 1 <= i <= 81 && owned_by(self.inner_spec().board_at(i), color),
            ),
    {
        self.inner.player_bitboard(color)
    }

    /// The squares that hold `piece`.
    pub fn piece_bitboard(&self, piece: Piece) -> (r: Bitboard)
        ensures
            r.valid(),
            self.inner_spec().wf() ==> r@ == Set::new(
                |i: int|
                    1 <= i <= 81 && holds(
                        self.inner_spec().board_at(i),
                        piece.kind_spec(),
                        piece.color_spec(),
                    ),
            ),
    {
        self.inner.piece_bitboard(piece)
    }

    /// The last move made, if any.
    pub fn last_move(&self) -> (r: Option<Move>)
        ensures
            r == match self.inner_spec().last_move_spec() {
                Some(c) => Some(decode(c.repr())),
                None => None::<Move>,
            },
    {
        self.inner.last_move()
    }

    /// The last move made, packed, if any.
    pub fn last_compact_move(&self) -> (r: Option<CompactMove>)
        ensures
            r == self.inner_spec().last_move_spec(),
    {
        self.inner.last_compact_move()
    }

    /// The moves made so far.
    pub fn moves(&self) -> (r: &[Move])
        ensures
            r@ == self.moves_spec(),
    {
        self.moves.as_slice()
    }

    /// Applies `mv` to the current position as [`PartialPosition::make_move`] does and,
    /// when it is applied, records it. On `None` nothing changes.
    pub fn make_move(&mut self, mv: Move) -> (r: Option<()>)
        ensures
            r.is_some() <==> old(self).inner_spec().move_applicable(mv),
            r.is_none() ==> *final(self) == *old(self),
            r.is_some() ==> old(self).inner_spec().move_effect(final(self).inner_spec(), mv),
            r.is_some() ==> final(self).moves_spec() == old(self).moves_spec().push(mv),
            final(self).initial_spec() == old(self).initial_spec(),
            old(self).history_agrees() ==> final(self).history_agrees(),
            old(self).inner_spec().wf() ==> final(self).inner_spec().wf(),
    {
        let ghost before = *self;
        match self.inner.make_move(mv) {
            Some(()) => {},
            None => return None,
        }
        self.moves.push(mv);
        proof {
            let ms = self.moves_spec();
            assert(ms.drop_last() =~= before.moves_spec());
            assert(ms.last() == mv);
            if before.history_agrees() {
                assert(replays(before.initial_spec(), ms.drop_last(), before.inner_spec()));
            }
        }
        Some(())
    }

    /// Applies the packed move `mv`, as [`Position::make_move`] does; returns whether it
    /// was applied.
    pub fn make_compact_move(&mut self, mv: CompactMove) -> (r: bool)
        ensures
            r == old(self).inner_spec().move_applicable(decode(mv.repr())),
            !r ==> *final(self) == *old(self),
            r ==> final(self).moves_spec() == old(self).moves_spec().push(
                decode(mv.repr()),
            ),
            old(self).history_agrees() ==> final(self).history_agrees(),
    {
        let m = mv.to_move();
        self.make_move(m).is_some()
    }

    /// The SFEN text of the current position.
    pub fn to_sfen_owned(&self) -> (r: String)
        ensures
            r@ == self.inner_spec().sfen(),
    {
        self.inner.to_sfen_owned()
    }
}

impl Default for Position {
    /// The starting position of shogi, with no moves made.
    fn default() -> (r: Position)
        ensures
            r.inner_spec() == r.initial_spec(),
            r.moves_spec() == Seq::<Move>::empty(),
            r.history_agrees(),
    {
        Position::startpos()
    }
}

/// A game: a position with its history, and how the game was resolved, if it was.
#[derive(Eq, PartialEq, Clone, Debug, Default)]
pub struct Game {
    inner: Position,
    resolution: OptionGameResolution,
}

impl Game {
    /// The position.
    pub closed spec fn position_spec(self) -> Position {
        self.inner
    }

    /// The resolution, if any.
    pub closed spec fn resolution_spec(self) -> Option<GameResolution> {
        resolution_of(self.resolution)
    }

    /// The position.
    pub fn position(&self) -> (r: &Position)
        ensures
            *r == self.position_spec(),
    {
        &self.inner
    }

    /// Records how the game was resolved; the position is left as it is.
    pub fn resolve(&mut self, resolution: GameResolution)
        ensures
            final(self).resolution_spec() == Some(resolution),
            final(self).position_spec() == old(self).position_spec(),
    {
        self.resolution = OptionGameResolution::from(Some(resolution));
        proof {
            lemma_resolution_round_trip(Some(resolution));
        }
    }

    /// Forgets how the game was resolved; the position is left as it is.
    pub fn unresolve(&mut self)
        ensures
            final(self).resolution_spec().is_none(),
            final(self).position_spec() == old(self).position_spec(),
    {
        self.resolution = OptionGameResolution::from(None);
        proof {
            lemma_resolution_round_trip(None);
        }
    }

    /// How the game was resolved, if it was.
    pub fn resolution(&self) -> (r: Option<GameResolution>)
        ensures
            r == self.resolution_spec(),
    {
        Option::<GameResolution>::from(self.resolution)
    }
}

/// A game without move history: a position and how the game was resolved, if it was.
#[derive(Eq, PartialEq, Clone, Debug, Default)]
pub struct PartialGame {
    inner: PartialPosition,
    resolution: OptionGameResolution,
}

impl PartialGame {
    /// The position.
    pub closed spec fn position_spec(self) -> PartialPosition {
        self.inner
    }

    /// The resolution, if any.
    pub closed spec fn resolution_spec(self) -> Option<GameResolution> {
        resolution_of(self.resolution)
    }

    /// The position.
    pub fn position(&self) -> (r: &PartialPosition)
        ensures
            *r == self.position_spec(),
    {
        &self.inner
    }

    /// Records how the game was resolved; the position is left as it is.
    pub fn resolve(&mut self, resolution: GameResolution)
        ensures
            final(self).resolution_spec() == Some(resolution),
            final(self).position_spec() == old(self).position_spec(),
    {
        self.resolution = OptionGameResolution::from(Some(resolution));
        proof {
            lemma_resolution_round_trip(Some(resolution));
        }
    }

    /// Forgets how the game was resolved; the position is left as it is.
    pub fn unresolve(&mut self)
        ensures
            final(self).resolution_spec().is_none(),
            final(self).position_spec() == old(self).position_spec(),
    {
        self.resolution = OptionGameResolution::from(None);
        proof {
            lemma_resolution_round_trip(None);
        }
    }

    /// How the game was resolved, if it was.
    pub fn resolution(&self) -> (r: Option<GameResolution>)
        ensures
            r == self.resolution_spec(),
    {
        Option::<GameResolution>::from(self.resolution)
    }
}

} // verus!
