use vstd::prelude::*;

use crate::color::Color;
use crate::to_usi::{digit, digit_char, ToUsi};

verus! {

/// The index of the square at `file` and `rank`, both in `1..=9`.
pub open spec fn index_of(file: int, rank: int) -> int {
    file * 9 + rank - 9
}

/// The file, in `1..=9`, of the square with index `i` in `1..=81`.
pub open spec fn file_of(i: int) -> int {
    (i - 1) / 9 + 1
}

/// The rank, in `1..=9`, of the square with index `i` in `1..=81`.
pub open spec fn rank_of(i: int) -> int {
    (i - 1) % 9 + 1
}

/// The rank letters `a` to `i`, in order.
pub open spec fn rank_letters() -> Seq<char> {
    seq!['a', 'b', 'c', 'd', 'e', 'f', 'g', 'h', 'i']
}

/// A square of the board, stored as its index `9 * file + rank - 9` in `1..=81`.
#[derive(Eq, PartialEq, Structural, Clone, Copy, Debug, PartialOrd, Ord, Hash)]
pub struct Square(u8);

impl View for Square {
    type V = int;

    closed spec fn view(&self) -> int {
        self.0 as int
    }
}

impl Square {
    #[verifier::type_invariant]
    spec fn inv(self) -> bool {
        1 <= self.0 <= 81
    }

    /// The square with index `i`, for `i` in `1..=81`.
    pub closed spec fn from_index(i: int) -> Square {
        Square(i as u8)
    }

    /// A square is determined by its index.
    pub proof fn lemma_view_eq(self, other: Square)
        ensures
            (self@ == other@) <==> (self == other),
    {
    }

    /// [`Square::from_index`] gives the square of that index.
    pub proof fn lemma_from_index(i: int)
        requires
            1 <= i <= 81,
        ensures
            Square::from_index(i)@ == i,
    {
    }

    /// How many elements an array indexed by [`Square`] has.
    pub const NUM: usize = 81;

    /// Creates the square at `file` and `rank`; `None` unless both are in `1..=9`.
    pub fn new(file: u8, rank: u8) -> (r: Option<Square>)
        ensures
            r.is_some() <==> (1 <= file <= 9 && 1 <= rank <= 9),
            r.is_some() ==> r.unwrap()@ == index_of(file as int, rank as int),
    {
        if file < 1 || file > 9 || rank < 1 || rank > 9 {
            return None;
        }
        Some(Square(file * 9 + rank - 9))
    }

    /// Creates the square at `file` and `rank` as seen by `color`: for White the
    /// coordinates are mirrored through the centre of the board.
    pub fn new_relative(file: u8, rank: u8, color: Color) -> (r: Option<Square>)
        ensures
            r.is_some() <==> (1 <= file <= 9 && 1 <= rank <= 9),
            r.is_some() && color == Color::Black ==> r.unwrap()@ == index_of(
                file as int,
                rank as int,
            ),
            r.is_some() && color == Color::White ==> r.unwrap()@ == 82 - index_of(
                file as int,
                rank as int,
            ),
    {
        if file < 1 || file > 9 || rank < 1 || rank > 9 {
            return None;
        }
        let relative_index = file * 9 + rank - 9;
        match color {
            Color::Black => Some(Square(relative_index)),
            Color::White => Some(Square(82 - relative_index)),
        }
    }

    /// The index of `self`, `9 * file + rank - 9`, in `1..=81`.
    pub fn index(self) -> (r: u8)
        ensures
            r == self@,
            1 <= r <= 81,
    {
        proof {
            use_type_invariant(&self);
        }
        self.0
    }

    /// The file, in `1..=9`.
    pub fn file(self) -> (r: u8)
        ensures
            r == file_of(self@),
            1 <= r <= 9,
    {
        proof {
            use_type_invariant(&self);
        }
        (self.0 - 1) / 9 + 1
    }

    /// The rank, in `1..=9`.
    pub fn rank(self) -> (r: u8)
        ensures
            r == rank_of(self@),
            1 <= r <= 9,
    {
        proof {
            use_type_invariant(&self);
        }
        (self.0 - 1) % 9 + 1
    }

    /// The rank as seen by `color`.
    pub fn relative_rank(self, color: Color) -> (r: u8)
        ensures
            color == Color::Black ==> r == rank_of(self@),
            color == Color::White ==> r == 10 - rank_of(self@),
    {
        let rank = self.rank();
        match color {
            Color::Black => rank,
            Color::White => 10 - rank,
        }
    }

    /// The file as seen by `color`.
    pub fn relative_file(self, color: Color) -> (r: u8)
        ensures
            color == Color::Black ==> r == file_of(self@),
            color == Color::White ==> r == 10 - file_of(self@),
    {
        let file = self.file();
        match color {
            Color::Black => file,
            Color::White => 10 - file,
        }
    }

    /// The square reflected through the centre of the board.
    pub fn flip(self) -> (r: Square)
        ensures
            r@ == 82 - self@,
    {
        proof {
            use_type_invariant(&self);
        }
        Square(82 - self.0)
    }

    /// The square with index `value`; `None` unless `value` is in `1..=81`.
    pub fn from_u8(value: u8) -> (r: Option<Square>)
        ensures
            r.is_some() <==> 1 <= value <= 81,
            r.is_some() ==> r.unwrap()@ == value,
    {
        if 1 <= value && value <= 81 {
            Some(Square(value))
        } else {
            None
        }
    }

    /// The square with index `value`, which the caller guarantees is in `1..=81`.
    pub fn from_u8_unchecked(value: u8) -> (r: Square)
        requires
            1 <= value <= 81,
        ensures
            r@ == value,
    {
        Square(value)
    }

    /// The square `file_delta` files and `rank_delta` ranks away; `None` off the board.
    pub fn shift(self, file_delta: i8, rank_delta: i8) -> (r: Option<Square>)
        ensures
            ({
                let f = file_of(self@) + file_delta;
                let k = rank_of(self@) + rank_delta;
                &&& r.is_some() <==> (1 <= f <= 9 && 1 <= k <= 9)
                &&& r.is_some() ==> r.unwrap()@ == index_of(f, k)
            }),
    {
        let file = self.file() as i16 + file_delta as i16;
        let rank = self.rank() as i16 + rank_delta as i16;
        if file < 1 || file > 9 || rank < 1 || rank > 9 {
            return None;
        }
        Some(Square((file * 9 + rank - 9) as u8))
    }

    /// The index of `self` for array accesses, in `0..Square::NUM`.
    pub fn array_index(self) -> (r: usize)
        ensures
            r == self@ - 1,
            r < 81,
    {
        proof {
            use_type_invariant(&self);
        }
        (self.0 - 1) as usize
    }

    /// All squares in ascending order of their indices.
    pub fn all() -> (r: Vec<Square>)
        ensures
            r@.len() == 81,
            forall|i: int| 0 <= i < 81 ==> (#[trigger] r@[i])@ == i + 1,
    {
        let mut r: Vec<Square> = Vec::new();
        let mut v: u8 = 1;
        while v <= 81
            invariant
                1 <= v <= 82,
                r@.len() == v - 1,
                forall|i: int| 0 <= i < v - 1 ==> (#[trigger] r@[i])@ == i + 1,
            decreases 82 - v,
        {
            r.push(Square(v));
            v += 1;
        }
        r
    }
}

impl ToUsi for Square {
    /// The file digit followed by the rank letter (`7g`).
    open spec fn usi(&self) -> Seq<char> {
        seq![digit_char(file_of(self@)), rank_letters()[rank_of(self@) - 1]]
    }

    fn to_usi(&self, sink: &mut Vec<char>) {
        let letters = ['a', 'b', 'c', 'd', 'e', 'f', 'g', 'h', 'i'];
        assert(letters@ =~= rank_letters());
        let file = self.file();
        let rank = self.rank();
        sink.push(digit(file));
        sink.push(letters[(rank - 1) as usize]);
    }
}


/// An optional [`Square`] as one byte: 0 for `None`, the index otherwise.
#[derive(Eq, PartialEq, Structural, Clone, Copy, Debug, PartialOrd, Ord, Hash)]
pub struct OptionSquare(u8);

impl OptionSquare {
    #[verifier::type_invariant]
    spec fn inv(self) -> bool {
        self.0 == 0 || self.0 <= 81
    }

    /// The value held.
    pub closed spec fn repr(self) -> int {
        self.0 as int
    }
}

impl From<Option<Square>> for OptionSquare {
    fn from(arg: Option<Square>) -> (r: OptionSquare) {
        match arg {
            Some(x) => OptionSquare(x.index()),
            None => OptionSquare(0),
        }
    }
}

impl vstd::std_specs::convert::FromSpecImpl<Option<Square>> for OptionSquare {
    open spec fn obeys_from_spec() -> bool {
        true
    }

    closed spec fn from_spec(arg: Option<Square>) -> OptionSquare {
        OptionSquare(
            match arg {
                Some(x) => (x@) as u8,
                None => 0u8,
            },
        )
    }
}

impl From<OptionSquare> for Option<Square> {
    fn from(arg: OptionSquare) -> (r: Option<Square>) {
        proof {
            use_type_invariant(&arg);
        }
        if arg.0 == 0 {
            None
        } else {
            let x = Square::from_u8_unchecked(arg.0);
            proof {
                Square::lemma_from_index(arg.0 as int);
                x.lemma_view_eq(Square::from_index(arg.0 as int));
            }
            Some(x)
        }
    }
}

impl vstd::std_specs::convert::FromSpecImpl<OptionSquare> for Option<Square> {
    open spec fn obeys_from_spec() -> bool {
        true
    }

    open spec fn from_spec(arg: OptionSquare) -> Option<Square> {
        if arg.repr() == 0 {
            None
        } else {
            Some(Square::from_index(arg.repr()))
        }
    }
}

} // verus!
