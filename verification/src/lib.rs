//! A chess move-legality engine.
//!
//! The engine decides whether a proposed move of an identified piece is legal
//! under piece-movement rules, given a snapshot of all 32 piece positions.
//! Pieces are plain identity integers in `[0, 32)`; squares are numbered
//! `0..64` rank-major (file = square mod 8, rank = square div 8), and a
//! captured piece holds a sentinel value outside that range.
//!
//! Check detection, castling, en passant and promotion are out of scope: the
//! engine is a pure predicate over one move and one board snapshot, and never
//! mutates the board. The thin match state that owns the snapshot (turn
//! order, players, resignation) lives in [`board`].

pub mod board;
pub mod error;
pub mod game_logic;
