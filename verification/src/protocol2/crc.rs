//! The protocol 2 integrity code: CRC-16 with polynomial 0x8005, initial
//! value 0, bytes folded in MSB-first, no final XOR.  Emitted little-endian
//! after the packet.

use vstd::prelude::*;

verus! {

/// One shift of the CRC register: shift left, folding the polynomial in
/// when the top bit falls out.
pub open spec fn crc_round(c: u16) -> u16 {
    if c & 0x8000 != 0 {
        (c << 1) ^ 0x8005
    } else {
        c << 1
    }
}

/// `n` successive CRC register shifts.
pub open spec fn crc_rounds(c: u16, n: nat) -> u16
    decreases n,
{
    if n == 0 {
        c
    } else {
        crc_rounds(crc_round(c), (n - 1) as nat)
    }
}

/// Fold one byte into the register: XOR into the top half, then 8 shifts.
pub open spec fn crc_add_byte(c: u16, b: u8) -> u16 {
    crc_rounds(c ^ ((b as u16) << 8), 8)
}

/// Fold a byte sequence into the register, front to back.
pub open spec fn crc_fold(c: u16, data: Seq<u8>) -> u16
    decreases data.len(),
{
    if data.len() == 0 {
        c
    } else {
        crc_fold(crc_add_byte(c, data[0]), data.drop_first())
    }
}

/// The CRC of a whole byte sequence, from the initial register value 0.
pub open spec fn crc_of(data: Seq<u8>) -> u16 {
    crc_fold(0, data)
}

/// Folding a concatenation is folding the parts in order: the accumulator
/// may be fed its bytes in any chunking.
pub proof fn lemma_crc_fold_append(c: u16, a: Seq<u8>, b: Seq<u8>)
    ensures
        crc_fold(c, a + b) == crc_fold(crc_fold(c, a), b),
    decreases a.len(),
{
    if a.len() == 0 {
        assert(a + b =~= b);
    } else {
        assert((a + b).drop_first() =~= a.drop_first() + b);
        lemma_crc_fold_append(crc_add_byte(c, a[0]), a.drop_first(), b);
    }
}

/// A running CRC-16 register.
#[derive(Debug, PartialEq, Eq, Clone, Copy, Structural)]
pub struct Crc {
    pub value: u16,
}

impl Crc {
    /// A fresh register, value 0.
    pub fn new() -> (r: Crc)
        ensures
            r.value == 0,
    {
        Crc { value: 0 }
    }

    /// Fold one byte in.
    pub fn add_byte(&mut self, b: u8)
        ensures
            final(self).value == crc_add_byte(old(self).value, b),
    {
        let mut c: u16 = self.value ^ ((b as u16) << 8u16);
        let mut round: usize = 0;
        while round < 8
            invariant
                round <= 8,
                c == crc_rounds(old(self).value ^ ((b as u16) << 8), round as nat),
            decreases 8 - round,
        {
            proof {
                lemma_crc_rounds_snoc(old(self).value ^ ((b as u16) << 8), round as nat);
            }
            if c & 0x8000 != 0 {
                c = (c << 1u16) ^ 0x8005;
            } else {
                c = c << 1u16;
            }
            round = round + 1;
        }
        self.value = c;
    }

    /// Fold a whole buffer in, front to back.
    pub fn add(&mut self, data: &[u8])
        ensures
            final(self).value == crc_fold(old(self).value, data@),
    {
        let mut i: usize = 0;
        while i < data.len()
            invariant
                i <= data@.len(),
                self.value == crc_fold(old(self).value, data@.take(i as int)),
            decreases data@.len() - i,
        {
            proof {
                lemma_crc_fold_append(old(self).value, data@.take(i as int), seq![data@[i as int]]);
                assert(data@.take(i as int + 1) =~= data@.take(i as int) + seq![data@[i as int]]);
                assert(crc_fold(self.value, seq![data@[i as int]]) == crc_add_byte(
                    self.value,
                    data@[i as int],
                )) by {
                    reveal_with_fuel(crc_fold, 2);
                    assert(seq![data@[i as int]].drop_first() =~= Seq::<u8>::empty());
                }
            }
            let b = data[i];
            self.add_byte(b);
            i = i + 1;
        }
        proof {
            assert(data@.take(data@.len() as int) =~= data@);
        }
    }

    /// The current register value.
    pub fn value(&self) -> (r: u16)
        ensures
            r == self.value,
    {
        self.value
    }
}

/// One more shift after `n` shifts is `n + 1` shifts.
proof fn lemma_crc_rounds_snoc(c: u16, n: nat)
    ensures
        crc_rounds(c, n + 1) == crc_round(crc_rounds(c, n)),
    decreases n,
{
    reveal_with_fuel(crc_rounds, 2);
    if n != 0 {
        lemma_crc_rounds_snoc(crc_round(c), (n - 1) as nat);
    }
}

} // verus!
