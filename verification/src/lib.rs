pub mod board;
pub mod bot;
pub mod evaluate;
pub mod mutate;
pub mod optimizer;
pub mod piece;
pub mod rng;
pub mod rule;
pub mod score;
pub mod search;
pub mod state;

pub use board::{Board, MovementState, Time, row_x};
pub use bot::Bot;
pub use evaluate::Evaluator;
pub use mutate::Gene;
pub use optimizer::{BattleResult, Member, Population};
pub use piece::{FieldPiece, Piece, PieceMovement, PieceState, RotationState};
pub use rule::{ActionTime, SpecialAttack, base_attack, combo_attack, is_b2b_enabled};
pub use score::Score;
pub use search::Node;
pub use state::{LastAction, PlacementKind, State};
