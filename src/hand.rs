use vstd::prelude::*;

use crate::color::Color;
use crate::piece::letter_of;
use crate::piece_kind::{is_hand_kind, kind_of_repr, kind_repr, PieceKind};
use crate::to_usi::{decimal, push_decimal, ToUsi};

verus! {

/// The slot of a hand kind among the seven counters.
pub open spec fn hand_slot(k: PieceKind) -> int {
    kind_repr(k) - 1
}

/// `n + 1`, wrapping past 255 to 0.
pub open spec fn wrapping_inc(n: u8) -> u8 {
    if n == 255 {
        0
    } else {
        (n + 1) as u8
    }
}

/// Seven zero counters.
pub open spec fn empty_counts() -> Seq<u8> {
    Seq::new(7, |i: int| 0u8)
}

/// The USI text of one counter: nothing for 0, the letter for 1, otherwise the count
/// followed by the letter.
pub open spec fn hand_entry(n: u8, k: PieceKind, c: Color) -> Seq<char> {
    if n == 0 {
        Seq::empty()
    } else if n == 1 {
        seq![letter_of(k, c)]
    } else {
        decimal(n as nat) + seq![letter_of(k, c)]
    }
}

/// The USI text of the counters in slots 6 down to `j`, most valuable kind first.
pub open spec fn hand_usi_from(h: Seq<u8>, c: Color, j: int) -> Seq<char>
    decreases 7 - j,
{
    if j >= 7 {
        Seq::empty()
    } else {
        hand_usi_from(h, c, j + 1) + hand_entry(h[j], kind_of_repr(j + 1), c)
    }
}

/// The USI text of both hands: `-` when both are empty, otherwise the pieces of `first`
/// and then those of the other player, each hand from Rook down to Pawn, upper case for
/// Black and lower case for White.
pub open spec fn hands_usi(first: Color, black: Seq<u8>, white: Seq<u8>) -> Seq<char> {
    if black == empty_counts() && white == empty_counts() {
        seq!['-']
    } else if first == Color::Black {
        hand_usi_from(black, Color::Black, 0) + hand_usi_from(white, Color::White, 0)
    } else {
        hand_usi_from(white, Color::White, 0) + hand_usi_from(black, Color::Black, 0)
    }
}

/// The pieces that a player holds: a counter for each of the seven kinds that can be
/// dropped (unpromoted, not King), each in `0..=255`.
#[derive(Eq, PartialEq, Clone, Copy, Debug, Default, PartialOrd, Ord, Hash)]
pub struct Hand([u8; 7]);

impl View for Hand {
    type V = Seq<u8>;

    /// The counters, slot `kind_repr(k) - 1` for kind `k`.
    closed spec fn view(&self) -> Seq<u8> {
        self.0@
    }
}

impl Hand {
    /// A hand always has seven counters.
    pub broadcast proof fn lemma_len(self)
        ensures
            #[trigger] self@.len() == 7,
    {
    }

    /// Hands with the same counters are equal.
    pub proof fn lemma_view_eq(self, other: Hand)
        ensures
            (self@ == other@) <==> (self == other),
    {
        if self@ == other@ {
            assert(self.0 =~= other.0);
        }
    }

    /// Creates an empty hand.
    pub fn new() -> (r: Hand)
        ensures
            r@ == empty_counts(),
            r@.len() == 7,
    {
        let r = Hand([0u8; 7]);
        assert(r@ =~= empty_counts());
        r
    }

    /// The hand with one more piece of `piece_kind`, the counter wrapping past 255 to 0;
    /// `None` if `piece_kind` cannot be held in hand.
    pub fn added(self, piece_kind: PieceKind) -> (r: Option<Hand>)
        ensures
            self@.len() == 7,
            r.is_some() ==> r.unwrap()@.len() == 7,
            r.is_some() <==> is_hand_kind(piece_kind),
            r.is_some() ==> r.unwrap()@ == self@.update(
                hand_slot(piece_kind),
                wrapping_inc(self@[hand_slot(piece_kind)]),
            ),
    {
        let index = piece_kind.array_index();
        if index < 7 {
            let mut counts = self.0;
            counts[index] = counts[index].wrapping_add(1);
            let r = Hand(counts);
            assert(r@ =~= self@.update(hand_slot(piece_kind), wrapping_inc(self@[hand_slot(piece_kind)])));
            return Some(r);
        }
        None
    }

    /// The hand with one piece of `piece_kind` fewer; `None` if `piece_kind` cannot be
    /// held in hand or none is held.
    pub fn removed(self, piece_kind: PieceKind) -> (r: Option<Hand>)
        ensures
            self@.len() == 7,
            r.is_some() ==> r.unwrap()@.len() == 7,
            r.is_some() <==> is_hand_kind(piece_kind) && self@[hand_slot(piece_kind)] > 0,
            r.is_some() ==> r.unwrap()@ == self@.update(
                hand_slot(piece_kind),
                (self@[hand_slot(piece_kind)] - 1) as u8,
            ),
    {
        let index = piece_kind.array_index();
        if index < 7 {
            let mut counts = self.0;
            if counts[index] == 0 {
                return None;
            }
            counts[index] = counts[index] - 1;
            let r = Hand(counts);
            assert(r@ =~= self@.update(hand_slot(piece_kind), (self@[hand_slot(piece_kind)] - 1) as u8));
            return Some(r);
        }
        None
    }

    /// The number of pieces of `piece_kind`; `None` if `piece_kind` cannot be held in hand.
    pub fn count(self, piece_kind: PieceKind) -> (r: Option<u8>)
        ensures
            self@.len() == 7,
            r.is_some() <==> is_hand_kind(piece_kind),
            r.is_some() ==> r.unwrap() == self@[hand_slot(piece_kind)],
    {
        let index = piece_kind.array_index();
        if index < 7 {
            return Some(self.0[index]);
        }
        None
    }

    /// Whether all counters are zero.
    fn is_empty(self) -> (r: bool)
        ensures
            r == (self@ == empty_counts()),
    {
        let mut i: usize = 0;
        while i < 7
            invariant
                i <= 7,
                forall|j: int| 0 <= j < i ==> self@[j] == 0,
            decreases 7 - i,
        {
            if self.0[i] != 0 {
                return false;
            }
            i += 1;
        }
        assert(self@ =~= empty_counts());
        true
    }

    /// Appends the USI text of the counters in slots 6 down to 0.
    fn push_usi(self, c: Color, sink: &mut Vec<char>)
        ensures
            final(sink)@ == old(sink)@ + hand_usi_from(self@, c, 0),
    {
        let mut j: usize = 7;
        while j > 0
            invariant
                j <= 7,
                sink@ == old(sink)@ + hand_usi_from(self@, c, j as int),
            decreases j,
        {
            let n = self.0[j - 1];
            let k = PieceKind::from_u8_unchecked(j as u8);
            let ghost before = sink@;
            if n > 0 {
                if n >= 2 {
                    push_decimal(n as u16, sink);
                }
                sink.push(crate::piece::letter(k, c));
            }
            assert(sink@ =~= before + hand_entry(self@[j - 1], kind_of_repr(j as int), c));
            j -= 1;
        }
    }
}

/// Appends the USI text of the hands of Black (`hands[0]`) and White (`hands[1]`), those
/// of `first` coming first.
pub fn push_hands_usi(hands: &[Hand; 2], first: Color, sink: &mut Vec<char>)
    ensures
        final(sink)@ == old(sink)@ + hands_usi(first, hands@[0]@, hands@[1]@),
{
    if hands[0].is_empty() && hands[1].is_empty() {
        sink.push('-');
        return;
    }
    match first {
        Color::Black => {
            hands[0].push_usi(Color::Black, sink);
            hands[1].push_usi(Color::White, sink);
        },
        Color::White => {
            hands[1].push_usi(Color::White, sink);
            hands[0].push_usi(Color::Black, sink);
        },
    }
}

impl ToUsi for [Hand; 2] {
    /// Black's hand (`self[0]`) first, then White's.
    open spec fn usi(&self) -> Seq<char> {
        hands_usi(Color::Black, self@[0]@, self@[1]@)
    }

    fn to_usi(&self, sink: &mut Vec<char>) {
        push_hands_usi(self, Color::Black, sink);
    }
}

} // verus!
