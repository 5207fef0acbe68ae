//! One- and two-byte forms of the optional values, with a zero standing for `None`.
pub use crate::game_resolution::OptionGameResolution;
pub use crate::illegal_move_kind::ResultUnitIllegalMoveKind;
pub use crate::mv::OptionCompactMove;
pub use crate::piece::OptionPiece;
pub use crate::piece_kind::OptionPieceKind;
pub use crate::square::OptionSquare;
