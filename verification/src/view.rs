//! Text that the panel shows for a register drawn bit by bit.

use vstd::prelude::*;

verus! {

/// Number of characters per bit in a bit row: the bit and two spaces.
pub const BIT_CELL: usize = 3;

/// ASCII for bit `bit` (0 = least significant) of `v`.
pub open spec fn bit_char(v: u16, bit: u16) -> u8 {
    if (v >> bit) & 1 == 1 { 49 } else { 48 }
}

/// The bits of `v` from the most significant to the least, each followed by
/// two spaces, so that they line up under three-character labels.
pub open spec fn is_bit_row(t: Seq<u8>, v: u16) -> bool {
    &&& t.len() == 16 * BIT_CELL
    &&& forall|i: int| 0 <= i < 16 ==> {
        &&& #[trigger] t[BIT_CELL * i] == bit_char(v, (15 - i) as u16)
        &&& t[BIT_CELL * i + 1] == 32
        &&& t[BIT_CELL * i + 2] == 32
    }
}

/// The bit row of `v` as ASCII text.
pub fn bit_cells(v: u16) -> (t: Vec<u8>)
    ensures
        is_bit_row(t@, v),
{
    let mut out: Vec<u8> = Vec::new();
    let mut i: u16 = 0;
    while i < 16
        invariant
            i <= 16,
            out@.len() == BIT_CELL * i,
            forall|j: int| 0 <= j < i ==> {
                &&& #[trigger] out@[BIT_CELL * j] == bit_char(v, (15 - j) as u16)
                &&& out@[BIT_CELL * j + 1] == 32
                &&& out@[BIT_CELL * j + 2] == 32
            },
        decreases 16 - i,
    {
        let bit: u16 = 15 - i;
        let c: u8 = if (v >> bit) & 1 == 1 { 49 } else { 48 };
        let ghost before = out@;
        out.push(c);
        out.push(32u8);
        out.push(32u8);
        assert forall|j: int| 0 <= j < i + 1 implies {
            &&& #[trigger] out@[BIT_CELL * j] == bit_char(v, (15 - j) as u16)
            &&& out@[BIT_CELL * j + 1] == 32
            &&& out@[BIT_CELL * j + 2] == 32
        } by {
            if j < i {
                assert(out@[BIT_CELL * j] == before[BIT_CELL * j]);
                assert(out@[BIT_CELL * j + 1] == before[BIT_CELL * j + 1]);
                assert(out@[BIT_CELL * j + 2] == before[BIT_CELL * j + 2]);
            }
        }
        i = i + 1;
    }
    out
}

/// In the bit row of `v`, the character under the label of bit `k` (counted
/// from the least significant) is `1` exactly when bit `k` is set in `v`.
pub proof fn lemma_bit_row_mask(t: Seq<u8>, v: u16, k: u16)
    requires
        is_bit_row(t, v),
        k < 16,
    ensures
        (t[BIT_CELL * (15 - k)] == 49) <==> (v & (1u16 << k)) != 0,
        t[BIT_CELL * (15 - k)] == 48 || t[BIT_CELL * (15 - k)] == 49,
{
    let i = 15 - k;
    assert(t[BIT_CELL * i] == bit_char(v, (15 - i) as u16));
    assert(k < 16 ==> (((v >> k) & 1 == 1) <==> (v & (1u16 << k)) != 0)) by (bit_vector);
}

} // verus!
