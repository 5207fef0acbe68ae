use vstd::prelude::*;

verus! {

/// Kinds of pieces: eight unpromoted kinds (the King among them) and six promoted ones.
#[derive(Eq, PartialEq, Structural, Clone, Copy, Debug, PartialOrd, Ord, Hash)]
pub enum PieceKind {
    /// A pawn (*fu*). Representation 1.
    Pawn,
    /// A lance (*kyō*). Representation 2.
    Lance,
    /// A knight (*kē*). Representation 3.
    Knight,
    /// A silver general (*gin*). Representation 4.
    Silver,
    /// A gold general (*kin*). Representation 5.
    Gold,
    /// A bishop (*kaku*). Representation 6.
    Bishop,
    /// A rook (*hisha*). Representation 7.
    Rook,
    /// A king (*ō*, *gyoku*). Representation 8.
    King,
    /// A promoted pawn (*tokin*). Representation 9.
    ProPawn,
    /// A promoted lance (*narikyō*). Representation 10.
    ProLance,
    /// A promoted knight (*narikē*). Representation 11.
    ProKnight,
    /// A promoted silver (*narigin*). Representation 12.
    ProSilver,
    /// A promoted bishop (*uma*). Representation 13.
    ProBishop,
    /// A promoted rook (*ryū*). Representation 14.
    ProRook,
}

/// The integer representation of a piece kind, in `1..=14`.
pub open spec fn kind_repr(k: PieceKind) -> int {
    match k {
        PieceKind::Pawn => 1,
        PieceKind::Lance => 2,
        PieceKind::Knight => 3,
        PieceKind::Silver => 4,
        PieceKind::Gold => 5,
        PieceKind::Bishop => 6,
        PieceKind::Rook => 7,
        PieceKind::King => 8,
        PieceKind::ProPawn => 9,
        PieceKind::ProLance => 10,
        PieceKind::ProKnight => 11,
        PieceKind::ProSilver => 12,
        PieceKind::ProBishop => 13,
        PieceKind::ProRook => 14,
    }
}

/// The piece kind represented by `v`, meaningful for `v` in `1..=14`.
pub open spec fn kind_of_repr(v: int) -> PieceKind {
    if v == 1 {
        PieceKind::Pawn
    } else if v == 2 {
        PieceKind::Lance
    } else if v == 3 {
        PieceKind::Knight
    } else if v == 4 {
        PieceKind::Silver
    } else if v == 5 {
        PieceKind::Gold
    } else if v == 6 {
        PieceKind::Bishop
    } else if v == 7 {
        PieceKind::Rook
    } else if v == 8 {
        PieceKind::King
    } else if v == 9 {
        PieceKind::ProPawn
    } else if v == 10 {
        PieceKind::ProLance
    } else if v == 11 {
        PieceKind::ProKnight
    } else if v == 12 {
        PieceKind::ProSilver
    } else if v == 13 {
        PieceKind::ProBishop
    } else {
        PieceKind::ProRook
    }
}

/// The promoted kind: defined for the six kinds that can promote.
pub open spec fn promote_spec(k: PieceKind) -> Option<PieceKind> {
    match k {
        PieceKind::Pawn => Some(PieceKind::ProPawn),
        PieceKind::Lance => Some(PieceKind::ProLance),
        PieceKind::Knight => Some(PieceKind::ProKnight),
        PieceKind::Silver => Some(PieceKind::ProSilver),
        PieceKind::Bishop => Some(PieceKind::ProBishop),
        PieceKind::Rook => Some(PieceKind::ProRook),
        _ => None,
    }
}

/// The unpromoted kind: defined for the six promoted kinds only.
pub open spec fn unpromote_spec(k: PieceKind) -> Option<PieceKind> {
    match k {
        PieceKind::ProPawn => Some(PieceKind::Pawn),
        PieceKind::ProLance => Some(PieceKind::Lance),
        PieceKind::ProKnight => Some(PieceKind::Knight),
        PieceKind::ProSilver => Some(PieceKind::Silver),
        PieceKind::ProBishop => Some(PieceKind::Bishop),
        PieceKind::ProRook => Some(PieceKind::Rook),
        _ => None,
    }
}

/// Whether a piece of kind `k` can be held in hand: unpromoted and not a King.
pub open spec fn is_hand_kind(k: PieceKind) -> bool {
    kind_repr(k) <= 7
}

/// The USI letters of a kind, as Black writes them (`P`, `+P`, ...).
pub open spec fn kind_usi(k: PieceKind) -> Seq<char> {
    match k {
        PieceKind::Pawn => seq!['P'],
        PieceKind::Lance => seq!['L'],
        PieceKind::Knight => seq!['N'],
        PieceKind::Silver => seq!['S'],
        PieceKind::Gold => seq!['G'],
        PieceKind::Bishop => seq!['B'],
        PieceKind::Rook => seq!['R'],
        PieceKind::King => seq!['K'],
        PieceKind::ProPawn => seq!['+', 'P'],
        PieceKind::ProLance => seq!['+', 'L'],
        PieceKind::ProKnight => seq!['+', 'N'],
        PieceKind::ProSilver => seq!['+', 'S'],
        PieceKind::ProBishop => seq!['+', 'B'],
        PieceKind::ProRook => seq!['+', 'R'],
    }
}

impl PieceKind {
    /// How many elements an array indexed by [`PieceKind`] has.
    pub const NUM: usize = 14;

    /// How many elements an array indexed by an optional [`PieceKind`] has.
    pub const OPTION_NUM: usize = 15;

    /// The integer representation, in `1..=14`.
    pub fn as_u8(self) -> (r: u8)
        ensures
            r == kind_repr(self),
            1 <= r <= 14,
    {
        match self {
            PieceKind::Pawn => 1,
            PieceKind::Lance => 2,
            PieceKind::Knight => 3,
            PieceKind::Silver => 4,
            PieceKind::Gold => 5,
            PieceKind::Bishop => 6,
            PieceKind::Rook => 7,
            PieceKind::King => 8,
            PieceKind::ProPawn => 9,
            PieceKind::ProLance => 10,
            PieceKind::ProKnight => 11,
            PieceKind::ProSilver => 12,
            PieceKind::ProBishop => 13,
            PieceKind::ProRook => 14,
        }
    }

    /// The promoted version of `self`, or `None` if `self` cannot promote.
    pub fn promote(self) -> (r: Option<PieceKind>)
        ensures
            r == promote_spec(self),
    {
        match self {
            PieceKind::Pawn => Some(PieceKind::ProPawn),
            PieceKind::Lance => Some(PieceKind::ProLance),
            PieceKind::Knight => Some(PieceKind::ProKnight),
            PieceKind::Silver => Some(PieceKind::ProSilver),
            PieceKind::Bishop => Some(PieceKind::ProBishop),
            PieceKind::Rook => Some(PieceKind::ProRook),
            _ => None,
        }
    }

    /// The unpromoted version of `self`, or `None` if `self` is not promoted.
    pub fn unpromote(self) -> (r: Option<PieceKind>)
        ensures
            r == unpromote_spec(self),
    {
        match self {
            PieceKind::ProPawn => Some(PieceKind::Pawn),
            PieceKind::ProLance => Some(PieceKind::Lance),
            PieceKind::ProKnight => Some(PieceKind::Knight),
            PieceKind::ProSilver => Some(PieceKind::Silver),
            PieceKind::ProBishop => Some(PieceKind::Bishop),
            PieceKind::ProRook => Some(PieceKind::Rook),
            _ => None,
        }
    }

    /// The kind represented by `repr`; `None` unless `repr` is in `1..=14`.
    pub fn from_u8(repr: u8) -> (r: Option<PieceKind>)
        ensures
            r.is_some() <==> 1 <= repr <= 14,
            r.is_some() ==> kind_repr(r.unwrap()) == repr,
    {
        if 1 <= repr && repr <= 14 {
            Some(PieceKind::from_u8_unchecked(repr))
        } else {
            None
        }
    }

    /// The kind represented by `repr`, which the caller guarantees is in `1..=14`.
    pub fn from_u8_unchecked(repr: u8) -> (r: PieceKind)
        requires
            1 <= repr <= 14,
        ensures
            kind_repr(r) == repr,
            r == kind_of_repr(repr as int),
    {
        if repr == 1 {
            PieceKind::Pawn
        } else if repr == 2 {
            PieceKind::Lance
        } else if repr == 3 {
            PieceKind::Knight
        } else if repr == 4 {
            PieceKind::Silver
        } else if repr == 5 {
            PieceKind::Gold
        } else if repr == 6 {
            PieceKind::Bishop
        } else if repr == 7 {
            PieceKind::Rook
        } else if repr == 8 {
            PieceKind::King
        } else if repr == 9 {
            PieceKind::ProPawn
        } else if repr == 10 {
            PieceKind::ProLance
        } else if repr == 11 {
            PieceKind::ProKnight
        } else if repr == 12 {
            PieceKind::ProSilver
        } else if repr == 13 {
            PieceKind::ProBishop
        } else {
            PieceKind::ProRook
        }
    }

    /// The index of `self` for array accesses, in `0..PieceKind::NUM`.
    pub fn array_index(self) -> (r: usize)
        ensures
            r == kind_repr(self) - 1,
            r < 14,
    {
        (self.as_u8() - 1) as usize
    }

    /// The index of an optional kind for array accesses: `0` for `None`, the
    /// representation otherwise; in `0..PieceKind::OPTION_NUM`.
    pub fn option_array_index(arg: Option<PieceKind>) -> (r: usize)
        ensures
            r == match arg {
                Some(k) => kind_repr(k),
                None => 0,
            },
            r < 15,
    {
        match arg {
            Some(k) => k.as_u8() as usize,
            None => 0,
        }
    }

    /// All kinds in ascending order of their representations.
    pub fn all() -> (r: [PieceKind; 14])
        ensures
            forall|i: int| 0 <= i < 14 ==> kind_repr(#[trigger] r@[i]) == i + 1,
    {
        [
            PieceKind::Pawn,
            PieceKind::Lance,
            PieceKind::Knight,
            PieceKind::Silver,
            PieceKind::Gold,
            PieceKind::Bishop,
            PieceKind::Rook,
            PieceKind::King,
            PieceKind::ProPawn,
            PieceKind::ProLance,
            PieceKind::ProKnight,
            PieceKind::ProSilver,
            PieceKind::ProBishop,
            PieceKind::ProRook,
        ]
    }
}

/// Promotion and unpromotion pair up exactly the six promotable kinds with the six
/// promoted ones; Gold and King take part in neither.
pub proof fn lemma_promotion_pairing(k: PieceKind)
    ensures
        promote_spec(k) matches Some(p) ==> unpromote_spec(p) == Some(k),
        unpromote_spec(k) matches Some(u) ==> promote_spec(u) == Some(k),
        promote_spec(k).is_some() ==> unpromote_spec(k).is_none(),
        k == PieceKind::Gold || k == PieceKind::King ==> promote_spec(k).is_none()
            && unpromote_spec(k).is_none(),
        kind_of_repr(kind_repr(k)) == k,
{
}


/// An optional [`PieceKind`] as one byte: 0 for `None`, the representation otherwise.
#[derive(Eq, PartialEq, Structural, Clone, Copy, Debug, PartialOrd, Ord, Hash)]
pub struct OptionPieceKind(u8);

impl OptionPieceKind {
    #[verifier::type_invariant]
    spec fn inv(self) -> bool {
        self.0 == 0 || self.0 <= 14
    }

    /// The value held.
    pub closed spec fn repr(self) -> int {
        self.0 as int
    }
}

impl From<Option<PieceKind>> for OptionPieceKind {
    fn from(arg: Option<PieceKind>) -> (r: OptionPieceKind) {
        match arg {
            Some(x) => OptionPieceKind(x.as_u8()),
            None => OptionPieceKind(0),
        }
    }
}

impl vstd::std_specs::convert::FromSpecImpl<Option<PieceKind>> for OptionPieceKind {
    open spec fn obeys_from_spec() -> bool {
        true
    }

    closed spec fn from_spec(arg: Option<PieceKind>) -> OptionPieceKind {
        OptionPieceKind(
            match arg {
                Some(x) => (kind_repr(x)) as u8,
                None => 0u8,
            },
        )
    }
}

impl From<OptionPieceKind> for Option<PieceKind> {
    fn from(arg: OptionPieceKind) -> (r: Option<PieceKind>) {
        proof {
            use_type_invariant(&arg);
        }
        if arg.0 == 0 {
            None
        } else {
            let x = PieceKind::from_u8_unchecked(arg.0);
            proof {
                
            }
            Some(x)
        }
    }
}

impl vstd::std_specs::convert::FromSpecImpl<OptionPieceKind> for Option<PieceKind> {
    open spec fn obeys_from_spec() -> bool {
        true
    }

    open spec fn from_spec(arg: OptionPieceKind) -> Option<PieceKind> {
        if arg.repr() == 0 {
            None
        } else {
            Some(kind_of_repr(arg.repr()))
        }
    }
}

} // verus!
