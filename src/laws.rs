use vstd::prelude::*;

use crate::cell::{
    bit_at, changed, filled, lemma_bits_determine_cell, lemma_view_determines_cell, OneBitBool,
};

verus! {

/// A cell built empty equals a cell built from `false`.
pub proof fn lemma_empty_equals_from_false(e: OneBitBool, f: OneBitBool)
    requires
        e@ == 0,
        f@ == filled(false),
    ensures
        e == f,
{
    lemma_view_determines_cell(e, f);
}

/// Two cells built from the same boolean are equal.
pub proof fn lemma_same_construction_equal(a: OneBitBool, b: OneBitBool, value: bool)
    requires
        a@ == filled(value),
        b@ == filled(value),
    ensures
        a == b,
{
    lemma_view_determines_cell(a, b);
}

/// Changing a bit to a value a second time leaves the cell as the first
/// change left it.
pub proof fn lemma_change_index_idempotent(
    c: OneBitBool,
    once: OneBitBool,
    twice: OneBitBool,
    index: u8,
    value: bool,
)
    requires
        index < 8,
        changed(c@, once@, index, value),
        changed(once@, twice@, index, value),
    ensures
        twice == once,
{
    assert forall|i: u8| i < 8 implies #[trigger] bit_at(twice@, i) == bit_at(once@, i) by {
        if i != index {
            assert(bit_at(twice@, i) == bit_at(once@, i));
        }
    }
    lemma_bits_determine_cell(twice, once);
}

} // verus!
