//! Helpers of the ROM encryption.
use vstd::prelude::*;
use crate::bytes::{byte_bound, lemma_be_bytes_roundtrip, spec_be_bytes, spec_be_value};

verus! {

/// The XTS tweak of a sector: its number as sixteen big-endian bytes.
pub fn get_tweak(sector: u128) -> (r: [u8; 0x10])
    ensures
        r@ == spec_be_bytes(sector as nat, 16),
{
    let mut r: [u8; 0x10] = [0u8; 0x10];
    let mut rest: u128 = sector;
    let mut i: usize = 16;
    while i > 0
        invariant
            i <= 16,
            r@.len() == 16,
            r@.subrange(i as int, 16) + Seq::<u8>::empty() == r@.subrange(i as int, 16),
            spec_be_bytes(rest as nat, i as nat) + r@.subrange(i as int, 16) == spec_be_bytes(
                sector as nat,
                16,
            ),
        decreases i,
    {
        let ghost before = r@;
        r[i - 1] = (rest % 256) as u8;
        proof {
            assert(spec_be_bytes(rest as nat, i as nat) == spec_be_bytes((rest / 256) as nat, (i - 1) as nat).push((rest % 256) as u8));
            assert(r@.subrange(i - 1, 16) == seq![(rest % 256) as u8] + before.subrange(i as int, 16));
            assert(spec_be_bytes((rest / 256) as nat, (i - 1) as nat).push((rest % 256) as u8)
                + before.subrange(i as int, 16) == spec_be_bytes((rest / 256) as nat, (i - 1) as nat)
                + r@.subrange(i - 1, 16));
        }
        rest = rest / 256;
        i = i - 1;
    }
    proof {
        assert(spec_be_bytes(rest as nat, 0) == Seq::<u8>::empty());
        assert(r@.subrange(0, 16) == r@);
    }
    r
}

/// The tweak of a sector, read back in big-endian order (as
/// `u128::from_be_bytes` reads it), is the sector's number.
pub proof fn lemma_tweak_roundtrip(sector: u128)
    ensures
        spec_be_value(spec_be_bytes(sector as nat, 16)) == sector,
{
    reveal_with_fuel(byte_bound, 17);
    assert(byte_bound(16) == 0x1_0000_0000_0000_0000_0000_0000_0000_0000);
    lemma_be_bytes_roundtrip(sector as nat, 16);
}

} // verus!
