use vstd::prelude::*;
use vstd::std_specs::convert::FromSpec;

verus! {

/// How a game was resolved.
#[derive(Eq, PartialEq, Structural, Clone, Copy, Debug, PartialOrd, Ord, Hash)]
pub enum GameResolution {
    /// White's king was mated or White resigned. Representation 1.
    BlackWins,
    /// Black's king was mated or Black resigned. Representation 2.
    WhiteWins,
    /// A draw, as by *jishōgi*. Representation 3.
    Draw,
    /// The game is to be replayed, as after *sennichite* (repetition). Representation 4.
    Rematch,
    /// The game was aborted. Representation 5.
    Aborted,
}

/// The representation of a resolution, in `1..=5`.
pub open spec fn resolution_repr(r: GameResolution) -> int {
    match r {
        GameResolution::BlackWins => 1,
        GameResolution::WhiteWins => 2,
        GameResolution::Draw => 3,
        GameResolution::Rematch => 4,
        GameResolution::Aborted => 5,
    }
}

impl GameResolution {
    /// The resolution represented by `repr`, which the caller guarantees is in `1..=5`.
    pub fn from_u8_unchecked(repr: u8) -> (r: GameResolution)
        requires
            1 <= repr <= 5,
        ensures
            resolution_repr(r) == repr,
    {
        if repr == 1 {
            GameResolution::BlackWins
        } else if repr == 2 {
            GameResolution::WhiteWins
        } else if repr == 3 {
            GameResolution::Draw
        } else if repr == 4 {
            GameResolution::Rematch
        } else {
            GameResolution::Aborted
        }
    }

    /// The representation of `self`.
    pub fn as_u8(self) -> (r: u8)
        ensures
            r == resolution_repr(self),
    {
        match self {
            GameResolution::BlackWins => 1,
            GameResolution::WhiteWins => 2,
            GameResolution::Draw => 3,
            GameResolution::Rematch => 4,
            GameResolution::Aborted => 5,
        }
    }
}

/// An optional [`GameResolution`] as one byte: 0 for `None`, the representation otherwise.
#[derive(Eq, PartialEq, Structural, Clone, Copy, Debug, Default, PartialOrd, Ord, Hash)]
pub struct OptionGameResolution(u8);

impl OptionGameResolution {
    #[verifier::type_invariant]
    spec fn inv(self) -> bool {
        self.0 <= 5
    }

    /// The byte held.
    pub closed spec fn repr(self) -> int {
        self.0 as int
    }
}

/// The resolution that `arg` holds, if any.
pub open spec fn resolution_of(arg: OptionGameResolution) -> Option<GameResolution> {
    if arg.repr() == 0 {
        None
    } else if arg.repr() == 1 {
        Some(GameResolution::BlackWins)
    } else if arg.repr() == 2 {
        Some(GameResolution::WhiteWins)
    } else if arg.repr() == 3 {
        Some(GameResolution::Draw)
    } else if arg.repr() == 4 {
        Some(GameResolution::Rematch)
    } else {
        Some(GameResolution::Aborted)
    }
}

/// Storing an optional resolution and reading it back gives it unchanged.
pub proof fn lemma_resolution_round_trip(x: Option<GameResolution>)
    ensures
        resolution_of(OptionGameResolution::from_spec(x)) == x,
{
}

impl From<Option<GameResolution>> for OptionGameResolution {
    fn from(arg: Option<GameResolution>) -> (r: OptionGameResolution) {
        match arg {
            Some(x) => OptionGameResolution(x.as_u8()),
            None => OptionGameResolution(0),
        }
    }
}

impl vstd::std_specs::convert::FromSpecImpl<Option<GameResolution>> for OptionGameResolution {
    open spec fn obeys_from_spec() -> bool {
        true
    }

    closed spec fn from_spec(arg: Option<GameResolution>) -> OptionGameResolution {
        OptionGameResolution(
            match arg {
                Some(x) => resolution_repr(x) as u8,
                None => 0u8,
            },
        )
    }
}

impl From<OptionGameResolution> for Option<GameResolution> {
    fn from(arg: OptionGameResolution) -> (r: Option<GameResolution>) {
        proof {
            use_type_invariant(&arg);
        }
        if arg.0 == 0 {
            None
        } else {
            Some(GameResolution::from_u8_unchecked(arg.0))
        }
    }
}

impl vstd::std_specs::convert::FromSpecImpl<OptionGameResolution> for Option<GameResolution> {
    open spec fn obeys_from_spec() -> bool {
        true
    }

    open spec fn from_spec(arg: OptionGameResolution) -> Option<GameResolution> {
        resolution_of(arg)
    }
}

} // verus!
