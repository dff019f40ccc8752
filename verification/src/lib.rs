//! A ledger-side battle game: two player records and one battlefield record
//! live in fixed-layout byte buffers, and a single instruction moves the
//! game forward by one step.
//!
//! The crate has two parts:
//! - a record codec: fixed-offset little-endian encoding and decoding of
//!   the `Player` and `BattleField` records;
//! - a transition function: it validates an encoded instruction, applies
//!   exactly one of three actions, and re-encodes all three records.

pub mod error;
pub mod records;
pub mod transition;
