//! Integrity checksum for cached content: the 64-bit FNV-1a hash of the
//! file's bytes, computed on completion of a download and on lazy
//! verification after a restart.

use vstd::prelude::*;

verus! {

/// The FNV-1a 64-bit offset basis.
pub const FNV_OFFSET: u64 = 14695981039346656037;

/// The FNV-1a 64-bit prime.
pub const FNV_PRIME: u64 = 1099511628211;

/// One checksum step: fold the next byte into the accumulator.
pub open spec fn checksum_step(acc: u64, b: u8) -> u64 {
    vstd::wrapping::u64_specs::wrapping_mul(acc ^ (b as u64), FNV_PRIME)
}

/// The FNV-1a 64-bit checksum of a byte sequence.
pub open spec fn spec_checksum(data: Seq<u8>) -> u64
    decreases data.len(),
{
    if data.len() == 0 {
        FNV_OFFSET
    } else {
        checksum_step(spec_checksum(data.drop_last()), data.last())
    }
}

/// The FNV-1a 64-bit checksum of the given bytes.
pub fn checksum64(data: &Vec<u8>) -> (r: u64)
    ensures
        r == spec_checksum(data@),
{
    let mut acc: u64 = FNV_OFFSET;
    let mut i: usize = 0;
    proof {
        assert(data@.subrange(0, 0) =~= Seq::<u8>::empty());
    }
    while i < data.len()
        invariant
            i <= data@.len(),
            acc == spec_checksum(data@.subrange(0, i as int)),
        decreases data@.len() - i,
    {
        proof {
            let ext = data@.subrange(0, i as int + 1);
            assert(ext.drop_last() =~= data@.subrange(0, i as int));
            assert(ext.last() == data@[i as int]);
        }
        acc = (acc ^ (data[i] as u64)).wrapping_mul(FNV_PRIME);
        i = i + 1;
    }
    proof {
        assert(data@.subrange(0, data@.len() as int) =~= data@);
    }
    acc
}

} // verus!
