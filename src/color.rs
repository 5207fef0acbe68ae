use vstd::prelude::*;

use crate::to_usi::ToUsi;

verus! {

/// A player.
#[derive(Eq, PartialEq, Structural, Clone, Copy, Debug, PartialOrd, Ord, Hash)]
pub enum Color {
    /// Black, who plays first (*sente*).
    Black,
    /// White, who plays second (*gote*).
    White,
}

/// The other player.
pub open spec fn flip_spec(c: Color) -> Color {
    match c {
        Color::Black => Color::White,
        Color::White => Color::Black,
    }
}

/// The position of a color in arrays indexed by color.
pub open spec fn color_index(c: Color) -> int {
    match c {
        Color::Black => 0,
        Color::White => 1,
    }
}

impl Color {
    /// How many elements an array indexed by [`Color`] has.
    pub const NUM: usize = 2;

    /// Flips the player.
    pub fn flip(self) -> (r: Color)
        ensures
            r == flip_spec(self),
    {
        match self {
            Color::Black => Color::White,
            Color::White => Color::Black,
        }
    }

    /// Returns the index of `self` for array accesses, in `0..Color::NUM`.
    pub fn array_index(self) -> (r: usize)
        ensures
            r == color_index(self),
            r < 2,
    {
        match self {
            Color::Black => 0,
            Color::White => 1,
        }
    }

    /// Returns all colors in ascending order.
    pub fn all() -> (r: [Color; 2])
        ensures
            r@ == seq![Color::Black, Color::White],
    {
        let r = [Color::Black, Color::White];
        assert(r@ =~= seq![Color::Black, Color::White]);
        r
    }
}

/// Flipping a color twice gives it back.
pub proof fn lemma_flip_involutive(c: Color)
    ensures
        flip_spec(flip_spec(c)) == c,
        flip_spec(c) != c,
{
}

} // verus!

verus! {

impl ToUsi for Color {
    open spec fn usi(&self) -> Seq<char> {
        match *self {
            Color::Black => seq!['b'],
            Color::White => seq!['w'],
        }
    }

    fn to_usi(&self, sink: &mut Vec<char>) {
        match *self {
            Color::Black => sink.push('b'),
            Color::White => sink.push('w'),
        }
    }
}

} // verus!
