//! The protocol 1 integrity code: the bitwise complement of the 8-bit sum
//! (modulo 256) of the covered bytes.

use vstd::prelude::*;

verus! {

/// 8-bit sum modulo 256 of a byte sequence.
pub open spec fn sum_mod256(data: Seq<u8>) -> u8
    decreases data.len(),
{
    if data.len() == 0 {
        0u8
    } else {
        ((sum_mod256(data.drop_last()) + data.last()) % 256) as u8
    }
}

/// The checksum emitted on the wire: complement of the modular sum.
pub open spec fn spec_checksum(data: Seq<u8>) -> u8 {
    !sum_mod256(data)
}

/// A computed protocol 1 checksum.
pub struct Checksum(pub u8);

impl Checksum {
    /// Compute the checksum over `data` (for a request: the span from the
    /// ID byte through the last parameter).
    pub fn calc(data: &[u8]) -> (r: Checksum)
        ensures
            r.0 == spec_checksum(data@),
    {
        let mut sum: u8 = 0;
        let mut i: usize = 0;
        while i < data.len()
            invariant
                i <= data@.len(),
                sum == sum_mod256(data@.take(i as int)),
            decreases data@.len() - i,
        {
            proof {
                assert(data@.take(i + 1 as int).drop_last() =~= data@.take(i as int));
            }
            sum = ((sum as u16 + data[i] as u16) % 256) as u8;
            i = i + 1;
        }
        proof {
            assert(data@.take(data@.len() as int) =~= data@);
        }
        Checksum(!sum)
    }

    /// The checksum byte itself.
    pub fn value(&self) -> (r: u8)
        ensures
            r == self.0,
    {
        self.0
    }
}

} // verus!
