//! Server-side engine for a two-player knight game on an 8x8 board.
//!
//! The authoritative `GameState` lives here together with the move
//! validator, the engine step function, the per-player frame intake
//! filter, and a byte codec for the wire frames. Networking and the
//! surrounding process live outside the library.

pub mod codec;
pub mod engine;
pub mod gamestate;
pub mod types;
