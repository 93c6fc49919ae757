//! Session and lobby coordination for a two-player turn-based game.
//!
//! The crate pairs two remote participants into a shared authoritative game
//! session: it owns the lobby registry with its capability tokens, the
//! single-writer move arbitration, the per-lobby event fanout, and the binary
//! wire codec that carries every message across a connection.

pub mod codec;
pub mod fanout;
pub mod handler;
pub mod http;
pub mod lobby;
pub mod messages;
pub mod oracle;
pub mod registry;
pub mod types;

pub use types::{ChessMove, Color, InvalidPieceError, Piece, Square};
