//! Wraparound-aware ordering of transaction identifiers.
use vstd::prelude::*;

verus! {

/// `a` is older than `b` when `a - b`, taken modulo 2^32, lies in the upper
/// half of the 32-bit range, i.e. is negative as a signed 32-bit number.
pub open spec fn xid_precedes(a: u32, b: u32) -> bool {
    (a - b) % 0x1_0000_0000int >= 0x8000_0000
}

/// Whether `id1` is logically older than `id2` under 32-bit wraparound.
/// Only meaningful for identifiers less than 2^31 apart.
pub fn transaction_id_precedes(id1: u32, id2: u32) -> (r: bool)
    ensures
        r == xid_precedes(id1, id2),
{
    let diff: u32 = id1.wrapping_sub(id2);
    proof {
        assert(diff as int == (id1 - id2) % 0x1_0000_0000int);
        assert((diff as i32) < 0 <==> diff >= 0x8000_0000) by (bit_vector);
    }
    (diff as i32) < 0
}

/// Within half the 32-bit range of each other, exactly one of
/// `a` precedes `b`, `b` precedes `a`, or `a == b` holds.
pub proof fn lemma_precedes_trichotomy(a: u32, b: u32)
    requires
        (a - b) % 0x1_0000_0000int != 0x8000_0000,
    ensures
        xid_precedes(a, b) || xid_precedes(b, a) || a == b,
        !(xid_precedes(a, b) && xid_precedes(b, a)),
        !(xid_precedes(a, b) && a == b),
        !(xid_precedes(b, a) && a == b),
{
}

} // verus!
