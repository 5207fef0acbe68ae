use vstd::prelude::*;

use crate::color::Color;
use crate::piece::{is_piece_repr, piece_usi, Piece};
use crate::square::Square;
use crate::to_usi::ToUsi;

verus! {

/// A move.
#[derive(Eq, PartialEq, Structural, Clone, Copy, Debug, PartialOrd, Ord, Hash)]
pub enum Move {
    /// A piece on `from` moves to `to`, promoting if `promote` is set.
    Normal {
        /// The source square.
        from: Square,
        /// The destination square.
        to: Square,
        /// Whether the piece promotes.
        promote: bool,
    },
    /// `piece` is placed from its owner's hand on the vacant square `to`.
    Drop {
        /// The piece placed.
        piece: Piece,
        /// The destination square.
        to: Square,
    },
}

/// Whether the squares and the piece of a move hold valid representations.
pub open spec fn move_valid(m: Move) -> bool {
    match m {
        Move::Normal { from, to, promote } => 1 <= from@ <= 81 && 1 <= to@ <= 81,
        Move::Drop { piece, to } => is_piece_repr(piece.repr()) && 1 <= to@ <= 81,
    }
}

/// The two-byte encoding of a move: `promote * 32768 + from * 256 + to` for a normal
/// move, `piece * 256 + 128 + to` for a drop.
pub open spec fn encode(m: Move) -> int {
    match m {
        Move::Normal { from, to, promote } => (if promote {
            32768int
        } else {
            0int
        }) + from@ * 256 + to@,
        Move::Drop { piece, to } => piece.repr() * 256 + 128 + to@,
    }
}

/// Whether `v` encodes a move.
pub open spec fn is_compact_repr(v: int) -> bool {
    &&& 0 <= v < 65536
    &&& 1 <= v % 128 <= 81
    &&& if v % 256 >= 128 {
        is_piece_repr(v / 256)
    } else {
        1 <= (v / 256) % 128 <= 81
    }
}

/// The move that `v` encodes.
pub open spec fn decode(v: int) -> Move {
    if v % 256 >= 128 {
        Move::Drop { piece: Piece::from_repr(v / 256), to: Square::from_index(v % 128) }
    } else {
        Move::Normal {
            from: Square::from_index((v / 256) % 128),
            to: Square::from_index(v % 128),
            promote: v >= 32768,
        }
    }
}

/// The USI text of a move: `7g7f`, `8h2b+`, or `S*5b` for a drop.
pub open spec fn move_usi(m: Move) -> Seq<char> {
    match m {
        Move::Normal { from, to, promote } => from.usi() + to.usi() + if promote {
            seq!['+']
        } else {
            Seq::empty()
        },
        Move::Drop { piece, to } => piece_usi(piece.kind_spec(), Color::Black) + seq!['*']
            + to.usi(),
    }
}

/// Encoding a valid move and decoding the result gives the move back.
pub proof fn lemma_compact_round_trip(m: Move)
    requires
        move_valid(m),
    ensures
        is_compact_repr(encode(m)),
        decode(encode(m)) == m,
{
    match m {
        Move::Normal { from, to, promote } => {
            let v = encode(m);
            let p: int = if promote { 1 } else { 0 };
            assert(v == p * 32768 + from@ * 256 + to@);
            assert(v % 256 == to@) by (nonlinear_arith)
                requires v == p * 32768 + from@ * 256 + to@, 0 <= p <= 1, 1 <= to@ <= 81;
            assert(v % 128 == to@) by (nonlinear_arith)
                requires v == p * 32768 + from@ * 256 + to@, 0 <= p <= 1, 1 <= to@ <= 81;
            assert(v / 256 == p * 128 + from@) by (nonlinear_arith)
                requires v == p * 32768 + from@ * 256 + to@, 0 <= p <= 1, 1 <= to@ <= 81;
            assert((v / 256) % 128 == from@) by (nonlinear_arith)
                requires v / 256 == p * 128 + from@, 0 <= p <= 1, 1 <= from@ <= 81;
            assert((v >= 32768) == promote);
            Square::lemma_from_index(from@);
            Square::lemma_from_index(to@);
            from.lemma_view_eq(Square::from_index(from@));
            to.lemma_view_eq(Square::from_index(to@));
        },
        Move::Drop { piece, to } => {
            let v = encode(m);
            let r = piece.repr();
            assert(v % 256 == 128 + to@) by (nonlinear_arith)
                requires v == r * 256 + 128 + to@, 1 <= to@ <= 81;
            assert(v % 128 == to@) by (nonlinear_arith)
                requires v == r * 256 + 128 + to@, 1 <= to@ <= 81;
            assert(v / 256 == r) by (nonlinear_arith)
                requires v == r * 256 + 128 + to@, 1 <= to@ <= 81;
            Square::lemma_from_index(to@);
            to.lemma_view_eq(Square::from_index(to@));
            Piece::lemma_from_repr(r, piece);
        },
    }
}

impl Move {
    /// The source square of a normal move; `None` for a drop.
    pub fn from(self) -> (r: Option<Square>)
        ensures
            r == match self {
                Move::Normal { from, .. } => Some(from),
                Move::Drop { .. } => None::<Square>,
            },
    {
        match self {
            Move::Normal { from, .. } => Some(from),
            Move::Drop { .. } => None,
        }
    }

    /// The destination square.
    pub fn to(self) -> (r: Square)
        ensures
            r == match self {
                Move::Normal { to, .. } => to,
                Move::Drop { to, .. } => to,
            },
    {
        match self {
            Move::Normal { to, .. } => to,
            Move::Drop { to, .. } => to,
        }
    }

    /// Whether `self` is a normal move that promotes.
    pub fn is_promoting(self) -> (r: bool)
        ensures
            r == (self matches Move::Normal { promote: true, .. }),
    {
        match self {
            Move::Normal { promote, .. } => promote,
            Move::Drop { .. } => false,
        }
    }

    /// Whether `self` is a drop.
    pub fn is_drop(self) -> (r: bool)
        ensures
            r == (self is Drop),
    {
        match self {
            Move::Normal { .. } => false,
            Move::Drop { .. } => true,
        }
    }
}

impl ToUsi for Move {
    open spec fn usi(&self) -> Seq<char> {
        move_usi(*self)
    }

    fn to_usi(&self, sink: &mut Vec<char>) {
        match *self {
            Move::Normal { from, to, promote } => {
                from.to_usi(sink);
                to.to_usi(sink);
                if promote {
                    sink.push('+');
                }
            },
            Move::Drop { piece, to } => {
                crate::piece::push_piece_usi(piece.piece_kind(), Color::Black, sink);
                sink.push('*');
                to.to_usi(sink);
            },
        }
        assert(sink@ =~= old(sink)@ + move_usi(*self));
    }
}

/// A move packed in two bytes: `promote * 32768 + from * 256 + to` for a normal move,
/// `piece * 256 + 128 + to` for a drop. The representation is never zero.
#[derive(Eq, PartialEq, Structural, Clone, Copy, Debug, PartialOrd, Ord, Hash)]
pub struct CompactMove(u16);

impl CompactMove {
    #[verifier::type_invariant]
    spec fn inv(self) -> bool {
        is_compact_repr(self.0 as int)
    }

    /// The representation of `self`.
    pub closed spec fn repr(self) -> int {
        self.0 as int
    }

    /// The packed move with representation `v`.
    pub closed spec fn from_repr(v: int) -> CompactMove {
        CompactMove(v as u16)
    }

    /// [`CompactMove::from_repr`] keeps a representation in `0..65536`, and a packed move
    /// is determined by its representation.
    pub proof fn lemma_from_repr(v: int, c: CompactMove)
        requires
            0 <= v < 65536,
        ensures
            CompactMove::from_repr(v).repr() == v,
            c.repr() == v ==> CompactMove::from_repr(v) == c,
    {
    }

    /// Packs a move.
    pub(crate) fn encode_move(mv: Move) -> (r: CompactMove)
        ensures
            r.repr() == encode(mv),
            r == CompactMove::from_repr(encode(mv)),
    {
        match mv {
            Move::Normal { from, to, promote } => CompactMove::normal(from, to, promote),
            Move::Drop { piece, to } => CompactMove::drop(piece, to),
        }
    }

    /// Creates a normal move.
    pub fn normal(from: Square, to: Square, promote: bool) -> (r: CompactMove)
        ensures
            r.repr() == encode(Move::Normal { from, to, promote }),
    {
        let f = from.index() as u16;
        let t = to.index() as u16;
        let p: u16 = if promote {
            32768
        } else {
            0
        };
        proof {
            lemma_compact_round_trip(Move::Normal { from, to, promote });
        }
        CompactMove(p + f * 256 + t)
    }

    /// Creates a drop move.
    pub fn drop(piece: Piece, to: Square) -> (r: CompactMove)
        ensures
            r.repr() == encode(Move::Drop { piece, to }),
    {
        let v = piece.as_u8() as u16;
        let t = to.index() as u16;
        proof {
            lemma_compact_round_trip(Move::Drop { piece, to });
        }
        CompactMove(v * 256 + 128 + t)
    }

    /// Whether `self` is a drop.
    pub fn is_drop(self) -> (r: bool)
        ensures
            r == (decode(self.repr()) is Drop),
    {
        self.0 % 256 >= 128
    }

    /// Whether `self` is a normal move that promotes.
    pub fn is_promoting(self) -> (r: bool)
        ensures
            r == (decode(self.repr()) matches Move::Normal { promote: true, .. }),
    {
        self.0 % 256 < 128 && self.0 >= 32768
    }

    /// The destination square.
    pub fn to(self) -> (r: Square)
        ensures
            r == decode(self.repr()).to_spec(),
    {
        proof {
            use_type_invariant(&self);
        }
        let r = Square::from_u8_unchecked((self.0 % 128) as u8);
        proof {
            Square::lemma_from_index(self.0 as int % 128);
            r.lemma_view_eq(Square::from_index(self.0 as int % 128));
        }
        r
    }

    /// The source square of a normal move; `None` for a drop.
    pub fn from(self) -> (r: Option<Square>)
        ensures
            r == match decode(self.repr()) {
                Move::Normal { from, .. } => Some(from),
                Move::Drop { .. } => None::<Square>,
            },
    {
        proof {
            use_type_invariant(&self);
        }
        if self.is_drop() {
            None
        } else {
            let r = Square::from_u8_unchecked(((self.0 / 256) % 128) as u8);
            proof {
                Square::lemma_from_index((self.0 as int / 256) % 128);
                r.lemma_view_eq(Square::from_index((self.0 as int / 256) % 128));
            }
            Some(r)
        }
    }

    /// The move that `self` encodes.
    pub fn to_move(self) -> (r: Move)
        ensures
            r == decode(self.repr()),
            move_valid(r),
    {
        proof {
            use_type_invariant(&self);
        }
        let to = self.to();
        proof {
            Square::lemma_from_index(self.0 as int % 128);
        }
        if self.is_drop() {
            let piece = Piece::from_u8_unchecked((self.0 / 256) as u8);
            proof {
                Piece::lemma_from_repr(self.0 as int / 256, piece);
            }
            Move::Drop { piece, to }
        } else {
            let from = Square::from_u8_unchecked(((self.0 / 256) % 128) as u8);
            proof {
                Square::lemma_from_index((self.0 as int / 256) % 128);
                from.lemma_view_eq(Square::from_index((self.0 as int / 256) % 128));
            }
            Move::Normal { from, to, promote: self.0 >= 32768 }
        }
    }
}

/// Packing a valid move with `From` and unpacking the result with `From` gives the move
/// back; the packed value is `encode(m)`.
pub proof fn lemma_from_round_trip(m: Move)
    requires
        move_valid(m),
    ensures
        CompactMove::from_repr(encode(m)).repr() == encode(m),
        decode(CompactMove::from_repr(encode(m)).repr()) == m,
{
    lemma_compact_round_trip(m);
}

impl Move {
    /// The destination square.
    pub open spec fn to_spec(self) -> Square {
        match self {
            Move::Normal { to, .. } => to,
            Move::Drop { to, .. } => to,
        }
    }
}

impl From<Move> for CompactMove {
    /// Packs a move.
    fn from(mv: Move) -> (r: CompactMove) {
        CompactMove::encode_move(mv)
    }
}

impl vstd::std_specs::convert::FromSpecImpl<Move> for CompactMove {
    open spec fn obeys_from_spec() -> bool {
        true
    }

    open spec fn from_spec(mv: Move) -> CompactMove {
        CompactMove::from_repr(encode(mv))
    }
}

impl From<CompactMove> for Move {
    /// Unpacks a move.
    fn from(mv: CompactMove) -> (r: Move) {
        mv.to_move()
    }
}

impl vstd::std_specs::convert::FromSpecImpl<CompactMove> for Move {
    open spec fn obeys_from_spec() -> bool {
        true
    }

    open spec fn from_spec(mv: CompactMove) -> Move {
        decode(mv.repr())
    }
}


/// An optional [`CompactMove`] as two bytes: 0 for `None`, the representation otherwise.
#[derive(Eq, PartialEq, Structural, Clone, Copy, Debug, Default, PartialOrd, Ord, Hash)]
pub struct OptionCompactMove(u16);

impl OptionCompactMove {
    #[verifier::type_invariant]
    spec fn inv(self) -> bool {
        self.0 == 0 || is_compact_repr(self.0 as int)
    }

    /// The value held.
    pub closed spec fn repr(self) -> int {
        self.0 as int
    }
}

impl From<Option<CompactMove>> for OptionCompactMove {
    fn from(arg: Option<CompactMove>) -> (r: OptionCompactMove) {
        match arg {
            Some(x) => OptionCompactMove({ proof { use_type_invariant(&x); } x.0 }),
            None => OptionCompactMove(0),
        }
    }
}

impl vstd::std_specs::convert::FromSpecImpl<Option<CompactMove>> for OptionCompactMove {
    open spec fn obeys_from_spec() -> bool {
        true
    }

    closed spec fn from_spec(arg: Option<CompactMove>) -> OptionCompactMove {
        OptionCompactMove(
            match arg {
                Some(x) => (x.repr()) as u16,
                None => 0u16,
            },
        )
    }
}

impl From<OptionCompactMove> for Option<CompactMove> {
    fn from(arg: OptionCompactMove) -> (r: Option<CompactMove>) {
        proof {
            use_type_invariant(&arg);
        }
        if arg.0 == 0 {
            None
        } else {
            let x = CompactMove(arg.0);
            proof {
                
            }
            Some(x)
        }
    }
}

impl vstd::std_specs::convert::FromSpecImpl<OptionCompactMove> for Option<CompactMove> {
    open spec fn obeys_from_spec() -> bool {
        true
    }

    open spec fn from_spec(arg: OptionCompactMove) -> Option<CompactMove> {
        if arg.repr() == 0 {
            None
        } else {
            Some(CompactMove::from_repr(arg.repr()))
        }
    }
}

} // verus!
