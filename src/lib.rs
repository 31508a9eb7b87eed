//! Checks whether a filled 9x9 grid is a solved Sudoku: every row, every
//! column and every 3x3 box holds each digit 1 through 9 exactly once.
//!
//! The grid is split into 27 independent groups (nine of each kind). Each
//! group is checked on its own, and the outcomes are folded into a single
//! monotone validity flag, so the result does not depend on the order in
//! which the groups are checked.

pub mod group;
pub mod flag;
pub mod validator;
pub mod laws;
