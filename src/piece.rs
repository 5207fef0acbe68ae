use vstd::prelude::*;

use crate::color::Color;
use crate::piece_kind::{kind_of_repr, kind_repr, promote_spec, unpromote_spec, PieceKind};
use crate::to_usi::ToUsi;

verus! {

/// The representation of a piece of kind `k` owned by `c`: the kind's representation,
/// plus 16 for White.
pub open spec fn piece_repr(k: PieceKind, c: Color) -> int {
    kind_repr(k) + if c == Color::White {
        16int
    } else {
        0int
    }
}

/// Whether `v` represents a piece: `1..=14` for Black, `17..=30` for White.
pub open spec fn is_piece_repr(v: int) -> bool {
    (1 <= v <= 14) || (17 <= v <= 30)
}

/// The letter of an unpromoted kind `k`, upper case for Black and lower case for White.
pub open spec fn letter_of(k: PieceKind, c: Color) -> char {
    let black = seq!['P', 'L', 'N', 'S', 'G', 'B', 'R', 'K'];
    let white = seq!['p', 'l', 'n', 's', 'g', 'b', 'r', 'k'];
    if c == Color::Black {
        black[kind_repr(k) - 1]
    } else {
        white[kind_repr(k) - 1]
    }
}

/// The USI text of a piece: its letter, preceded by `+` when promoted.
pub open spec fn piece_usi(k: PieceKind, c: Color) -> Seq<char> {
    match unpromote_spec(k) {
        Some(base) => seq!['+', letter_of(base, c)],
        None => seq![letter_of(k, c)],
    }
}

/// A piece together with its owner.
///
/// Stored as one byte: `1..=14` is a Black piece and `17..=30` a White one, the low
/// four bits holding the kind.
#[derive(Eq, PartialEq, Structural, Clone, Copy, Debug, PartialOrd, Ord, Hash)]
pub struct Piece(u8);

impl Piece {
    #[verifier::type_invariant]
    spec fn inv(self) -> bool {
        is_piece_repr(self.0 as int)
    }

    /// The representation of `self`.
    pub closed spec fn repr(self) -> int {
        self.0 as int
    }

    /// The kind of `self`.
    pub closed spec fn kind_spec(self) -> PieceKind {
        kind_of_repr(self.0 as int % 16)
    }

    /// The owner of `self`.
    pub closed spec fn color_spec(self) -> Color {
        if self.0 >= 16 {
            Color::White
        } else {
            Color::Black
        }
    }

    /// The piece with representation `v`, for `v` satisfying [`is_piece_repr`].
    pub closed spec fn from_repr(v: int) -> Piece {
        Piece(v as u8)
    }

    /// [`Piece::from_repr`] gives the piece of that representation, and a piece is
    /// determined by its representation.
    pub proof fn lemma_from_repr(v: int, p: Piece)
        requires
            is_piece_repr(v),
        ensures
            Piece::from_repr(v).repr() == v,
            p.repr() == v ==> Piece::from_repr(v) == p,
    {
    }

    /// Creates the piece of kind `piece_kind` owned by `color`.
    pub fn new(piece_kind: PieceKind, color: Color) -> (r: Piece)
        ensures
            r.kind_spec() == piece_kind,
            r.color_spec() == color,
            r.repr() == piece_repr(piece_kind, color),
    {
        let disc = piece_kind.as_u8();
        let value = disc + match color {
            Color::Black => 0u8,
            Color::White => 16u8,
        };
        Piece(value)
    }

    /// The kind and the owner of `self`; the inverse of [`Piece::new`].
    pub fn to_parts(self) -> (r: (PieceKind, Color))
        ensures
            r.0 == self.kind_spec(),
            r.1 == self.color_spec(),
    {
        proof {
            use_type_invariant(&self);
        }
        let data = self.0;
        let disc = data % 16;
        let color = if data >= 16 {
            Color::White
        } else {
            Color::Black
        };
        (PieceKind::from_u8_unchecked(disc), color)
    }

    /// The kind of `self`.
    pub fn piece_kind(self) -> (r: PieceKind)
        ensures
            r == self.kind_spec(),
    {
        self.to_parts().0
    }

    /// The owner of `self`.
    pub fn color(self) -> (r: Color)
        ensures
            r == self.color_spec(),
    {
        self.to_parts().1
    }

    /// The representation of `self`.
    pub fn as_u8(self) -> (r: u8)
        ensures
            r == self.repr(),
            is_piece_repr(r as int),
            r == piece_repr(self.kind_spec(), self.color_spec()),
    {
        proof {
            use_type_invariant(&self);
        }
        self.0
    }

    /// The piece of the same owner with the promoted kind; `None` if the kind cannot promote.
    pub fn promote(self) -> (r: Option<Piece>)
        ensures
            r.is_some() <==> promote_spec(self.kind_spec()).is_some(),
            r.is_some() ==> r.unwrap().kind_spec() == promote_spec(self.kind_spec()).unwrap()
                && r.unwrap().color_spec() == self.color_spec(),
    {
        let (piece_kind, color) = self.to_parts();
        match piece_kind.promote() {
            Some(k) => Some(Piece::new(k, color)),
            None => None,
        }
    }

    /// The piece of the same owner with the unpromoted kind; `None` if the kind is not promoted.
    pub fn unpromote(self) -> (r: Option<Piece>)
        ensures
            r.is_some() <==> unpromote_spec(self.kind_spec()).is_some(),
            r.is_some() ==> r.unwrap().kind_spec() == unpromote_spec(self.kind_spec()).unwrap()
                && r.unwrap().color_spec() == self.color_spec(),
    {
        let (piece_kind, color) = self.to_parts();
        match piece_kind.unpromote() {
            Some(k) => Some(Piece::new(k, color)),
            None => None,
        }
    }

    /// The piece represented by `value`, which the caller guarantees to be a valid
    /// representation.
    pub(crate) fn from_u8_unchecked(value: u8) -> (r: Piece)
        requires
            is_piece_repr(value as int),
        ensures
            r.repr() == value,
    {
        Piece(value)
    }

    /// How many elements an array indexed by [`Piece`] has.
    pub const NUM: usize = 31;

    /// The index of `self` for array accesses, in `0..Piece::NUM`.
    pub fn array_index(self) -> (r: usize)
        ensures
            r == self.repr() - 1,
            r < 31,
    {
        (self.as_u8() - 1) as usize
    }

    /// All 28 pieces, kind by kind, Black before White.
    pub fn all() -> (r: Vec<Piece>)
        ensures
            r@.len() == 28,
            forall|i: int|
                0 <= i < 28 ==> (#[trigger] r@[i]).kind_spec() == kind_of_repr(i / 2 + 1)
                    && r@[i].color_spec() == (if i % 2 == 0 {
                    Color::Black
                } else {
                    Color::White
                }),
    {
        let kinds = PieceKind::all();
        let mut r: Vec<Piece> = Vec::new();
        let mut i: usize = 0;
        while i < 14
            invariant
                i <= 14,
                r@.len() == 2 * i,
                forall|j: int| 0 <= j < 14 ==> kind_repr(#[trigger] kinds@[j]) == j + 1,
                forall|j: int|
                    0 <= j < 2 * i ==> (#[trigger] r@[j]).kind_spec() == kind_of_repr(j / 2 + 1)
                        && r@[j].color_spec() == (if j % 2 == 0 {
                        Color::Black
                    } else {
                        Color::White
                    }),
            decreases 14 - i,
        {
            let k = kinds[i];
            proof {
                crate::piece_kind::lemma_promotion_pairing(k);
            }
            r.push(Piece::new(k, Color::Black));
            r.push(Piece::new(k, Color::White));
            i += 1;
        }
        r
    }
}

/// The letter of an unpromoted kind, upper case for Black and lower case for White.
pub(crate) fn letter(k: PieceKind, c: Color) -> (r: char)
    requires
        kind_repr(k) <= 8,
    ensures
        r == letter_of(k, c),
{
    let black = ['P', 'L', 'N', 'S', 'G', 'B', 'R', 'K'];
    let white = ['p', 'l', 'n', 's', 'g', 'b', 'r', 'k'];
    assert(black@ =~= seq!['P', 'L', 'N', 'S', 'G', 'B', 'R', 'K']);
    assert(white@ =~= seq!['p', 'l', 'n', 's', 'g', 'b', 'r', 'k']);
    let i = k.array_index();
    match c {
        Color::Black => black[i],
        Color::White => white[i],
    }
}

/// Appends the USI text of the piece of kind `k` owned by `c`.
pub(crate) fn push_piece_usi(k: PieceKind, c: Color, sink: &mut Vec<char>)
    ensures
        final(sink)@ == old(sink)@ + piece_usi(k, c),
{
    match k.unpromote() {
        Some(base) => {
            sink.push('+');
            sink.push(letter(base, c));
        },
        None => {
            sink.push(letter(k, c));
        },
    }
    assert(sink@ =~= old(sink)@ + piece_usi(k, c));
}

impl ToUsi for Piece {
    open spec fn usi(&self) -> Seq<char> {
        piece_usi(self.kind_spec(), self.color_spec())
    }

    fn to_usi(&self, sink: &mut Vec<char>) {
        let (k, c) = self.to_parts();
        push_piece_usi(k, c, sink);
    }
}

impl ToUsi for PieceKind {
    open spec fn usi(&self) -> Seq<char> {
        piece_usi(*self, Color::Black)
    }

    fn to_usi(&self, sink: &mut Vec<char>) {
        push_piece_usi(*self, Color::Black, sink);
    }
}


/// An optional [`Piece`] as one byte: 0 for `None`, the representation otherwise.
#[derive(Eq, PartialEq, Structural, Clone, Copy, Debug, PartialOrd, Ord, Hash)]
pub struct OptionPiece(u8);

impl OptionPiece {
    #[verifier::type_invariant]
    spec fn inv(self) -> bool {
        self.0 == 0 || is_piece_repr(self.0 as int)
    }

    /// The value held.
    pub closed spec fn repr(self) -> int {
        self.0 as int
    }
}

impl From<Option<Piece>> for OptionPiece {
    fn from(arg: Option<Piece>) -> (r: OptionPiece) {
        match arg {
            Some(x) => OptionPiece(x.as_u8()),
            None => OptionPiece(0),
        }
    }
}

impl vstd::std_specs::convert::FromSpecImpl<Option<Piece>> for OptionPiece {
    open spec fn obeys_from_spec() -> bool {
        true
    }

    closed spec fn from_spec(arg: Option<Piece>) -> OptionPiece {
        OptionPiece(
            match arg {
                Some(x) => (x.repr()) as u8,
                None => 0u8,
            },
        )
    }
}

impl From<OptionPiece> for Option<Piece> {
    fn from(arg: OptionPiece) -> (r: Option<Piece>) {
        proof {
            use_type_invariant(&arg);
        }
        if arg.0 == 0 {
            None
        } else {
            let x = Piece::from_u8_unchecked(arg.0);
            proof {
                Piece::lemma_from_repr(arg.0 as int, x);
            }
            Some(x)
        }
    }
}

impl vstd::std_specs::convert::FromSpecImpl<OptionPiece> for Option<Piece> {
    open spec fn obeys_from_spec() -> bool {
        true
    }

    open spec fn from_spec(arg: OptionPiece) -> Option<Piece> {
        if arg.repr() == 0 {
            None
        } else {
            Some(Piece::from_repr(arg.repr()))
        }
    }
}

} // verus!
