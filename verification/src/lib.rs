//! Exhaustive classification of 3x3 two-player mark grids.
//!
//! A board is a full 3x3 grid of cells, each empty or holding one player's
//! mark. The library evaluates a board against the eight winning lines,
//! filters out boards that could never arise from sequential play (a
//! one-move-lookback reachability check), and, for undecided boards, marks
//! the cells that are *dead*: occupied cells whose mark can no longer
//! influence the outcome because every winning line through them is
//! already blocked by marks of both players.

pub mod board;
pub mod classify;
pub mod laws;
