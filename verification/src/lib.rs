//! A verified two-player tic-tac-toe game engine.
//!
//! The engine owns the 3x3 board, the turn to move and the game's lifecycle
//! phase, and proves that moves, win/tie detection and reset behave as a
//! tic-tac-toe game should. Rendering and event wiring live outside the
//! library; the engine does no I/O.

pub mod engine;
pub mod laws;
