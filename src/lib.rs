//! A packed bit cell: one byte of storage whose eight bits can be read and
//! written one at a time.
//!
//! Bit positions run from 0 (least significant) to 7 (most significant).
//! Positions past 7 are refused: the plain accessors require a valid
//! position, and the `try_` accessors return `IndexOutOfRange` for any other.
use vstd::prelude::*;

mod cell;
mod laws;

pub use cell::{
    binary_text, bit_at, changed, filled, lemma_bits_determine_cell, lemma_view_determines_cell,
    low_digit, IndexOutOfRange, OneBitBool, MAX_INDEX,
};
pub use laws::{
    lemma_change_index_idempotent, lemma_empty_equals_from_false, lemma_same_construction_equal,
};
