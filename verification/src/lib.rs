pub mod board;
pub mod fen;
pub mod piece;
pub mod position;
pub mod search;

pub use board::CastleRight;
pub use board::Chess;
pub use board::Color;
pub use board::EngineError;
pub use piece::Piece;
pub use piece::PieceType;
pub use position::Move;
pub use position::Position;
