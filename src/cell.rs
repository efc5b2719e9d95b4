use vstd::prelude::*;
use vstd::string::StringExecFns;

verus! {

/// Whether bit `i` (0 = least significant) of the byte `b` is set.
pub open spec fn bit_at(b: u8, i: u8) -> bool {
    (b >> i) & 1u8 == 1u8
}

/// The byte whose eight bits all equal `value`.
pub open spec fn filled(value: bool) -> u8 {
    if value {
        0xFFu8
    } else {
        0u8
    }
}

/// Every bit of `filled(value)` equals `value`.
proof fn lemma_filled_bits(value: bool)
    ensures
        forall|i: u8| i < 8 ==> #[trigger] bit_at(filled(value), i) == value,
{
    assert(forall|i: u8| i < 8 ==> #[trigger] bit_at(0xFFu8, i)) by (bit_vector);
    assert(forall|i: u8| i < 8 ==> !#[trigger] bit_at(0u8, i)) by (bit_vector);
}

/// Whether `after` is `before` with bit `index` set to `value` and every
/// other bit of the eight kept.
pub open spec fn changed(before: u8, after: u8, index: u8, value: bool) -> bool {
    &&& bit_at(after, index) == value
    &&& forall|j: u8| j < 8 && j != index ==> #[trigger] bit_at(after, j) == bit_at(before, j)
}

/// The mask `1 << i` selects bit `i`.
proof fn lemma_mask_selects(b: u8, i: u8)
    requires
        i < 8,
    ensures
        (b & (1u8 << i) != 0) == bit_at(b, i),
{
    assert((b & (1u8 << i) != 0) == ((b >> i) & 1u8 == 1u8)) by (bit_vector)
        requires
            i < 8,
    ;
}

/// Setting bit `i` with a mask leaves the other bits alone.
proof fn lemma_set_bit(b: u8, i: u8)
    requires
        i < 8,
    ensures
        changed(b, b | (1u8 << i), i, true),
{
    let a = b | (1u8 << i);
    assert(bit_at(a, i)) by (bit_vector)
        requires
            a == b | (1u8 << i),
            i < 8,
    ;
    assert forall|j: u8| j < 8 && j != i implies #[trigger] bit_at(a, j) == bit_at(b, j) by {
        assert(bit_at(a, j) == bit_at(b, j)) by (bit_vector)
            requires
                a == b | (1u8 << i),
                i < 8,
                j < 8,
                j != i,
        ;
    }
}

/// Clearing bit `i` with a mask leaves the other bits alone.
proof fn lemma_clear_bit(b: u8, i: u8)
    requires
        i < 8,
    ensures
        changed(b, b & !(1u8 << i), i, false),
{
    let a = b & !(1u8 << i);
    assert(!bit_at(a, i)) by (bit_vector)
        requires
            a == b & !(1u8 << i),
            i < 8,
    ;
    assert forall|j: u8| j < 8 && j != i implies #[trigger] bit_at(a, j) == bit_at(b, j) by {
        assert(bit_at(a, j) == bit_at(b, j)) by (bit_vector)
            requires
                a == b & !(1u8 << i),
                i < 8,
                j < 8,
                j != i,
        ;
    }
}

/// Two bytes that agree on each of the eight bits are equal.
proof fn lemma_bits_determine_byte(a: u8, b: u8)
    requires
        forall|i: u8| i < 8 ==> #[trigger] bit_at(a, i) == bit_at(b, i),
    ensures
        a == b,
{
    assert(bit_at(a, 0) == bit_at(b, 0));
    assert(bit_at(a, 1) == bit_at(b, 1));
    assert(bit_at(a, 2) == bit_at(b, 2));
    assert(bit_at(a, 3) == bit_at(b, 3));
    assert(bit_at(a, 4) == bit_at(b, 4));
    assert(bit_at(a, 5) == bit_at(b, 5));
    assert(bit_at(a, 6) == bit_at(b, 6));
    assert(bit_at(a, 7) == bit_at(b, 7));
    assert(a == b) by (bit_vector)
        requires
            bit_at(a, 0) == bit_at(b, 0),
            bit_at(a, 1) == bit_at(b, 1),
            bit_at(a, 2) == bit_at(b, 2),
            bit_at(a, 3) == bit_at(b, 3),
            bit_at(a, 4) == bit_at(b, 4),
            bit_at(a, 5) == bit_at(b, 5),
            bit_at(a, 6) == bit_at(b, 6),
            bit_at(a, 7) == bit_at(b, 7),
    ;
}

/// The base-2 digit for `n % 2`.
pub open spec fn low_digit(n: nat) -> char {
    if n % 2 == 1 {
        '1'
    } else {
        '0'
    }
}

/// `n` written in base 2, most significant digit first, with no leading
/// zeros; zero is the single digit `0`.
pub open spec fn binary_text(n: nat) -> Seq<char>
    decreases n,
{
    if n < 2 {
        seq![low_digit(n)]
    } else {
        binary_text(n / 2).push(low_digit(n))
    }
}

/// Appends the base-2 digits of `n` to `out`.
fn write_binary(n: u8, out: &mut String)
    ensures
        final(out)@ == old(out)@ + binary_text(n as nat),
    decreases n,
{
    if n >= 2 {
        write_binary(n / 2, out);
    }
    proof {
        reveal_strlit("1");
        reveal_strlit("0");
    }
    if n % 2 == 1 {
        out.append("1");
    } else {
        out.append("0");
    }
}

/// The highest valid bit position.
pub const MAX_INDEX: usize = 7;

/// A bit position past the last bit of a cell was asked for.
#[derive(Debug, Clone, Copy, PartialEq, Eq, Structural)]
pub struct IndexOutOfRange {
    /// The position that was asked for.
    pub requested: usize,
    /// The highest valid position.
    pub max_valid: usize,
}

/// A byte of storage whose bits are addressed individually.
#[derive(Debug, Clone, Copy, PartialEq, Eq, Structural)]
pub struct OneBitBool {
    storage: u8,
}

impl View for OneBitBool {
    type V = u8;

    /// The storage byte.
    closed spec fn view(&self) -> u8 {
        self.storage
    }
}

/// Two cells with the same storage byte are the same cell.
pub proof fn lemma_view_determines_cell(a: OneBitBool, b: OneBitBool)
    requires
        a@ == b@,
    ensures
        a == b,
{
}

/// Two cells that agree on each of the eight bits are equal.
pub proof fn lemma_bits_determine_cell(a: OneBitBool, b: OneBitBool)
    requires
        forall|i: u8| i < 8 ==> #[trigger] bit_at(a@, i) == bit_at(b@, i),
    ensures
        a == b,
{
    lemma_bits_determine_byte(a@, b@);
}

impl OneBitBool {
    /// A cell whose eight bits all equal `value`.
    pub fn from(value: bool) -> (r: Self)
        ensures
            r@ == filled(value),
            forall|i: u8| i < 8 ==> #[trigger] bit_at(r@, i) == value,
    {
        let r = if value {
            Self { storage: 0xFF }
        } else {
            Self { storage: 0 }
        };
        proof {
            lemma_filled_bits(value);
            assert(r@ == filled(value));
        }
        r
    }

    /// A cell with every bit clear; the same cell as `from(false)`.
    pub fn empty() -> (r: Self)
        ensures
            r@ == 0,
            forall|i: u8| i < 8 ==> !#[trigger] bit_at(r@, i),
    {
        let r = Self { storage: 0 };
        proof {
            lemma_filled_bits(false);
            assert(r@ == filled(false));
        }
        r
    }

    /// Whether bit `index` is set.
    pub fn get_index(&self, index: usize) -> (r: bool)
        requires
            index < 8,
        ensures
            r == bit_at(self@, index as u8),
    {
        let i = index as u8;
        proof {
            lemma_mask_selects(self.storage, i);
        }
        self.storage & (1u8 << i) != 0
    }

    /// Sets bit `index` to `value`, keeping the other seven bits.
    pub fn change_index(&mut self, index: usize, value: bool)
        requires
            index < 8,
        ensures
            changed(old(self)@, final(self)@, index as u8, value),
    {
        let i = index as u8;
        proof {
            lemma_set_bit(self.storage, i);
            lemma_clear_bit(self.storage, i);
        }
        if value {
            self.storage = self.storage | (1u8 << i);
        } else {
            self.storage = self.storage & !(1u8 << i);
        }
    }

    /// Whether bit `index` is set, or `IndexOutOfRange` where `index` is past
    /// the last bit.
    pub fn try_get_index(&self, index: usize) -> (r: Result<bool, IndexOutOfRange>)
        ensures
            match r {
                Ok(b) => index <= MAX_INDEX && b == bit_at(self@, index as u8),
                Err(e) => index > MAX_INDEX && e == (IndexOutOfRange {
                    requested: index,
                    max_valid: MAX_INDEX,
                }),
            },
    {
        if index > MAX_INDEX {
            Err(IndexOutOfRange { requested: index, max_valid: MAX_INDEX })
        } else {
            Ok(self.get_index(index))
        }
    }

    /// Sets bit `index` to `value`, or leaves the cell as it was and returns
    /// `IndexOutOfRange` where `index` is past the last bit.
    pub fn try_change_index(&mut self, index: usize, value: bool) -> (r: Result<(), IndexOutOfRange>)
        ensures
            match r {
                Ok(()) => index <= MAX_INDEX && changed(old(self)@, final(self)@, index as u8, value),
                Err(e) => index > MAX_INDEX && final(self)@ == old(self)@ && e == (IndexOutOfRange {
                    requested: index,
                    max_valid: MAX_INDEX,
                }),
            },
    {
        if index > MAX_INDEX {
            Err(IndexOutOfRange { requested: index, max_valid: MAX_INDEX })
        } else {
            self.change_index(index, value);
            Ok(())
        }
    }

    /// The storage byte in base 2, without leading zeros: `"11111111"` for a
    /// full cell, `"0"` for an empty one.
    pub fn to_string(&self) -> (r: String)
        ensures
            r@ == binary_text(self@ as nat),
    {
        let mut out = String::new();
        write_binary(self.storage, &mut out);
        out
    }
}

} // verus!
