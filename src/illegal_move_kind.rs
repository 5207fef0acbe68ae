use vstd::prelude::*;

verus! {

/// Kinds of illegal moves.
#[derive(Eq, PartialEq, Structural, Clone, Copy, Debug, PartialOrd, Ord, Hash)]
pub enum IllegalMoveKind {
    /// Two unpromoted pawns of a player on one file. Representation 1.
    TwoPawns,
    /// A check was ignored. Representation 2.
    IgnoredCheck,
    /// A pawn drop that mates (*uchifu-zume*). Representation 3.
    DropPawnMate,
    /// A dropped piece could never move again. Representation 4.
    DropStuck,
    /// A moved piece could never move again. Representation 5.
    NormalStuck,
    /// A move after the end of the game. Representation 6.
    GameFinished,
    /// A move that makes no sense. Representation 7.
    IncorrectMove,
}

/// The representation of an illegal-move kind, in `1..=7`.
pub open spec fn illegal_repr(k: IllegalMoveKind) -> int {
    match k {
        IllegalMoveKind::TwoPawns => 1,
        IllegalMoveKind::IgnoredCheck => 2,
        IllegalMoveKind::DropPawnMate => 3,
        IllegalMoveKind::DropStuck => 4,
        IllegalMoveKind::NormalStuck => 5,
        IllegalMoveKind::GameFinished => 6,
        IllegalMoveKind::IncorrectMove => 7,
    }
}

impl IllegalMoveKind {
    /// The kind represented by `repr`, which the caller guarantees is in `1..=7`.
    pub fn from_u8_unchecked(repr: u8) -> (r: IllegalMoveKind)
        requires
            1 <= repr <= 7,
        ensures
            illegal_repr(r) == repr,
    {
        if repr == 1 {
            IllegalMoveKind::TwoPawns
        } else if repr == 2 {
            IllegalMoveKind::IgnoredCheck
        } else if repr == 3 {
            IllegalMoveKind::DropPawnMate
        } else if repr == 4 {
            IllegalMoveKind::DropStuck
        } else if repr == 5 {
            IllegalMoveKind::NormalStuck
        } else if repr == 6 {
            IllegalMoveKind::GameFinished
        } else {
            IllegalMoveKind::IncorrectMove
        }
    }

    /// The representation of `self`.
    pub fn as_u8(self) -> (r: u8)
        ensures
            r == illegal_repr(self),
    {
        match self {
            IllegalMoveKind::TwoPawns => 1,
            IllegalMoveKind::IgnoredCheck => 2,
            IllegalMoveKind::DropPawnMate => 3,
            IllegalMoveKind::DropStuck => 4,
            IllegalMoveKind::NormalStuck => 5,
            IllegalMoveKind::GameFinished => 6,
            IllegalMoveKind::IncorrectMove => 7,
        }
    }
}

/// `Result<(), IllegalMoveKind>` as one byte: 0 for `Ok(())`, the representation of the
/// kind otherwise. Converts from and to `Option<IllegalMoveKind>`, `None` standing for
/// success.
#[derive(Eq, PartialEq, Structural, Clone, Copy, Debug, Default, PartialOrd, Ord, Hash)]
pub struct ResultUnitIllegalMoveKind(u8);

impl ResultUnitIllegalMoveKind {
    #[verifier::type_invariant]
    spec fn inv(self) -> bool {
        self.0 <= 7
    }

    /// The byte held.
    pub closed spec fn repr(self) -> int {
        self.0 as int
    }
}

impl From<Option<IllegalMoveKind>> for ResultUnitIllegalMoveKind {
    fn from(arg: Option<IllegalMoveKind>) -> (r: ResultUnitIllegalMoveKind) {
        match arg {
            Some(x) => ResultUnitIllegalMoveKind(x.as_u8()),
            None => ResultUnitIllegalMoveKind(0),
        }
    }
}

impl vstd::std_specs::convert::FromSpecImpl<Option<IllegalMoveKind>> for ResultUnitIllegalMoveKind {
    open spec fn obeys_from_spec() -> bool {
        true
    }

    closed spec fn from_spec(arg: Option<IllegalMoveKind>) -> ResultUnitIllegalMoveKind {
        ResultUnitIllegalMoveKind(
            match arg {
                Some(x) => illegal_repr(x) as u8,
                None => 0u8,
            },
        )
    }
}

impl From<ResultUnitIllegalMoveKind> for Option<IllegalMoveKind> {
    fn from(arg: ResultUnitIllegalMoveKind) -> (r: Option<IllegalMoveKind>) {
        proof {
            use_type_invariant(&arg);
        }
        if arg.0 == 0 {
            None
        } else {
            Some(IllegalMoveKind::from_u8_unchecked(arg.0))
        }
    }
}

impl vstd::std_specs::convert::FromSpecImpl<ResultUnitIllegalMoveKind> for Option<IllegalMoveKind> {
    open spec fn obeys_from_spec() -> bool {
        true
    }

    open spec fn from_spec(arg: ResultUnitIllegalMoveKind) -> Option<IllegalMoveKind> {
        if arg.repr() == 0 {
            None
        } else {
            Some(
                if arg.repr() == 1 {
                    IllegalMoveKind::TwoPawns
                } else if arg.repr() == 2 {
                    IllegalMoveKind::IgnoredCheck
                } else if arg.repr() == 3 {
                    IllegalMoveKind::DropPawnMate
                } else if arg.repr() == 4 {
                    IllegalMoveKind::DropStuck
                } else if arg.repr() == 5 {
                    IllegalMoveKind::NormalStuck
                } else if arg.repr() == 6 {
                    IllegalMoveKind::GameFinished
                } else {
                    IllegalMoveKind::IncorrectMove
                },
            )
        }
    }
}

} // verus!
