//! Escaping of the reserved header sequence inside protocol 2 payloads.
//!
//! The three bytes `FF FF FD` open every packet; if they ever appeared in
//! the region from the instruction byte to the byte before the CRC, a
//! receiver could resynchronise mid-packet.  So whenever that sequence is
//! emitted there, a single stuff byte `FD` is inserted right after it, and
//! the receiver drops it again.  The length field counts stuffed bytes.
//!
//! The tracker below walks the four header bytes first (states `H0` to
//! `R`), then watches how much of `FF FF FD` has just gone by (`B0` to
//! `B3`); in `B3` the next byte must be a stuff byte.

use vstd::prelude::*;

verus! {

/// Why a byte could not be accepted.
#[derive(Debug, PartialEq, Eq, Clone, Copy, Structural)]
pub enum BitStufferError {
    ExpectedFirstHeaderByte,
    ExpectedSecondHeaderByte,
    ExpectedThirdHeaderByte,
    ExpectedReservedByte,
    ExpectedStuffByte,
}

/// The tracker's position in the byte stream.
#[derive(Debug, PartialEq, Eq, Clone, Copy, Structural)]
pub enum BitStufferState {
    /// Next byte must be the first header byte (0xff).
    H0,
    /// Next byte must be the second header byte (0xff).
    H1,
    /// Next byte must be the third header byte (0xfd).
    H2,
    /// Next byte must be the reserved byte (0x00).
    R,
    /// No bytes of the reserved sequence just seen.
    B0,
    /// One byte of the reserved sequence just seen (0xff).
    B1,
    /// Two bytes of the reserved sequence just seen (0xff 0xff).
    B2,
    /// The whole reserved sequence just seen (0xff 0xff 0xfd): the next
    /// byte must be a stuff byte.
    B3,
}

/// How state `s` reacts to byte `b`.
pub open spec fn spec_step(s: BitStufferState, b: u8) -> Result<BitStufferState, BitStufferError> {
    match s {
        BitStufferState::H0 => if b == 0xff {
            Ok(BitStufferState::H1)
        } else {
            Err(BitStufferError::ExpectedFirstHeaderByte)
        },
        BitStufferState::H1 => if b == 0xff {
            Ok(BitStufferState::H2)
        } else {
            Err(BitStufferError::ExpectedSecondHeaderByte)
        },
        BitStufferState::H2 => if b == 0xfd {
            Ok(BitStufferState::R)
        } else {
            Err(BitStufferError::ExpectedThirdHeaderByte)
        },
        BitStufferState::R => if b == 0x00 {
            Ok(BitStufferState::B0)
        } else {
            Err(BitStufferError::ExpectedReservedByte)
        },
        BitStufferState::B0 => if b == 0xff {
            Ok(BitStufferState::B1)
        } else {
            Ok(BitStufferState::B0)
        },
        BitStufferState::B1 => if b == 0xff {
            Ok(BitStufferState::B2)
        } else {
            Ok(BitStufferState::B0)
        },
        BitStufferState::B2 => if b == 0xfd {
            Ok(BitStufferState::B3)
        } else if b == 0xff {
            Ok(BitStufferState::B1)
        } else {
            Ok(BitStufferState::B0)
        },
        BitStufferState::B3 => if b == 0xfd {
            Ok(BitStufferState::B0)
        } else {
            Err(BitStufferError::ExpectedStuffByte)
        },
    }
}

/// The payload tracker as a match count: how many bytes of `FF FF FD`
/// state `B_k` has just seen.
pub open spec fn match_count(s: BitStufferState) -> int {
    match s {
        BitStufferState::B0 => 0,
        BitStufferState::B1 => 1,
        BitStufferState::B2 => 2,
        BitStufferState::B3 => 3,
        _ => -1,
    }
}

/// The payload state with match count `k`.
pub open spec fn state_of_count(k: int) -> BitStufferState {
    if k == 0 {
        BitStufferState::B0
    } else if k == 1 {
        BitStufferState::B1
    } else if k == 2 {
        BitStufferState::B2
    } else {
        BitStufferState::B3
    }
}

/// How a payload byte moves the match count (counts 0 through 2; 3 is the
/// transient state where a stuff byte is inserted or consumed).
pub open spec fn count_step(k: int, b: u8) -> int {
    if k == 0 {
        if b == 0xff {
            1
        } else {
            0
        }
    } else if k == 1 {
        if b == 0xff {
            2
        } else {
            0
        }
    } else {
        if b == 0xfd {
            3
        } else if b == 0xff {
            1
        } else {
            0
        }
    }
}

/// The stuffed form of payload `s`, entered with match count `k`: each
/// byte is copied, and whenever the count reaches 3 a stuff byte `FD` is
/// inserted and the count resets.
pub open spec fn stuff_from(k: int, s: Seq<u8>) -> Seq<u8>
    decreases s.len(),
{
    if s.len() == 0 {
        Seq::<u8>::empty()
    } else {
        let k2 = count_step(k, s[0]);
        if k2 == 3 {
            seq![s[0], 0xfdu8] + stuff_from(0, s.drop_first())
        } else {
            seq![s[0]] + stuff_from(k2, s.drop_first())
        }
    }
}

/// The match count after the whole payload `s`, entered with count `k`.
pub open spec fn count_after(k: int, s: Seq<u8>) -> int
    decreases s.len(),
{
    if s.len() == 0 {
        k
    } else {
        let k2 = count_step(k, s[0]);
        count_after(if k2 == 3 { 0 } else { k2 }, s.drop_first())
    }
}

/// The stuffed form of a payload region, from the instruction byte on.
pub open spec fn stuff(s: Seq<u8>) -> Seq<u8> {
    stuff_from(0, s)
}

/// Walk the tracker over a byte sequence: the state after the bytes, or
/// the first rejection.
pub open spec fn fold_state(s: BitStufferState, data: Seq<u8>) -> Result<
    BitStufferState,
    BitStufferError,
>
    decreases data.len(),
{
    if data.len() == 0 {
        Ok(s)
    } else {
        match spec_step(s, data[0]) {
            Ok(s2) => fold_state(s2, data.drop_first()),
            Err(e) => Err(e),
        }
    }
}

/// Walking a concatenation is walking the parts in order.
pub proof fn lemma_fold_state_append(s: BitStufferState, a: Seq<u8>, b: Seq<u8>)
    ensures
        fold_state(s, a + b) == match fold_state(s, a) {
            Ok(s2) => fold_state(s2, b),
            Err(e) => Err(e),
        },
    decreases a.len(),
{
    if a.len() == 0 {
        assert(a + b =~= b);
    } else {
        assert((a + b)[0] == a[0]);
        assert((a + b).drop_first() =~= a.drop_first() + b);
        match spec_step(s, a[0]) {
            Ok(s2) => {
                lemma_fold_state_append(s2, a.drop_first(), b);
            },
            Err(e) => {},
        }
    }
}

/// One more payload byte extends the stuffed form at the end: by the byte
/// itself, plus a stuff byte when it completes the reserved sequence.
pub proof fn lemma_stuff_snoc(k: int, s: Seq<u8>, b: u8)
    ensures
        ({
            let k2 = count_step(count_after(k, s), b);
            &&& stuff_from(k, s.push(b)) == stuff_from(k, s) + (if k2 == 3 {
                seq![b, 0xfdu8]
            } else {
                seq![b]
            })
            &&& count_after(k, s.push(b)) == (if k2 == 3 {
                0int
            } else {
                k2
            })
        }),
    decreases s.len(),
{
    reveal_with_fuel(stuff_from, 3);
    reveal_with_fuel(count_after, 3);
    if s.len() == 0 {
        assert(s.push(b)[0] == b);
        assert(s.push(b).drop_first() =~= Seq::<u8>::empty());
        let k2 = count_step(k, b);
        if k2 == 3 {
            assert(stuff_from(k, s.push(b)) =~= stuff_from(k, s) + seq![b, 0xfdu8]);
        } else {
            assert(stuff_from(k, s.push(b)) =~= stuff_from(k, s) + seq![b]);
        }
    } else {
        assert(s.push(b)[0] == s[0]);
        assert(s.push(b).drop_first() =~= s.drop_first().push(b));
        let k2 = count_step(k, s[0]);
        let kn = if k2 == 3 { 0int } else { k2 };
        lemma_stuff_snoc(kn, s.drop_first(), b);
        let kb = count_step(count_after(kn, s.drop_first()), b);
        if k2 == 3 {
            if kb == 3 {
                assert(stuff_from(k, s.push(b)) =~= stuff_from(k, s) + seq![b, 0xfdu8]);
            } else {
                assert(stuff_from(k, s.push(b)) =~= stuff_from(k, s) + seq![b]);
            }
        } else {
            if kb == 3 {
                assert(stuff_from(k, s.push(b)) =~= stuff_from(k, s) + seq![b, 0xfdu8]);
            } else {
                assert(stuff_from(k, s.push(b)) =~= stuff_from(k, s) + seq![b]);
            }
        }
    }
}

/// Stuffing distributes over concatenation: the tail is stuffed from the
/// match count the head leaves behind.
pub proof fn lemma_stuff_from_concat(k: int, a: Seq<u8>, b: Seq<u8>)
    ensures
        stuff_from(k, a + b) == stuff_from(k, a) + stuff_from(count_after(k, a), b),
    decreases a.len(),
{
    if a.len() == 0 {
        assert(a + b =~= b);
        assert(stuff_from(k, a) + stuff_from(count_after(k, a), b) =~= stuff_from(k, b));
    } else {
        assert((a + b)[0] == a[0]);
        assert((a + b).drop_first() =~= a.drop_first() + b);
        let k2 = count_step(k, a[0]);
        let kn = if k2 == 3 {
            0int
        } else {
            k2
        };
        lemma_stuff_from_concat(kn, a.drop_first(), b);
        assert(stuff_from(k, a + b) =~= stuff_from(k, a) + stuff_from(count_after(k, a), b));
    }
}

/// One occurrence of the reserved sequence, in a payload that otherwise
/// triggers no stuffing, inserts exactly one stuff byte, immediately after
/// the occurrence: the stuffed form is the payload with a single `FD`
/// spliced in, one byte longer.
pub proof fn lemma_single_stuff_insertion(a: Seq<u8>, b: Seq<u8>)
    requires
        stuff_from(0, a) == a,
        count_after(0, a) == 0,
        stuff_from(0, b) == b,
    ensures
        stuff(a + seq![0xffu8, 0xffu8, 0xfdu8] + b) == a + seq![0xffu8, 0xffu8, 0xfdu8, 0xfdu8]
            + b,
        stuff(a + seq![0xffu8, 0xffu8, 0xfdu8] + b).len() == a.len() + b.len() + 4,
{
    let occ = seq![0xffu8, 0xffu8, 0xfdu8];
    assert(stuff_from(0, occ) =~= seq![0xffu8, 0xffu8, 0xfdu8, 0xfdu8] && count_after(0, occ)
        == 0) by {
        reveal_with_fuel(stuff_from, 4);
        reveal_with_fuel(count_after, 4);
        assert(occ.drop_first() =~= seq![0xffu8, 0xfdu8]);
        assert(seq![0xffu8, 0xfdu8].drop_first() =~= seq![0xfdu8]);
        assert(seq![0xfdu8].drop_first() =~= Seq::<u8>::empty());
    }
    lemma_stuff_from_concat(0, a, occ + b);
    lemma_stuff_from_concat(0, occ, b);
    assert(a + occ + b =~= a + (occ + b));
    assert(stuff(a + occ + b) =~= a + seq![0xffu8, 0xffu8, 0xfdu8, 0xfdu8] + b);
}

/// Stuffing inserts at most one byte per payload byte.
pub proof fn lemma_stuff_len(k: int, s: Seq<u8>)
    ensures
        s.len() <= stuff_from(k, s).len() <= 2 * s.len(),
    decreases s.len(),
{
    if s.len() != 0 {
        let k2 = count_step(k, s[0]);
        lemma_stuff_len(if k2 == 3 { 0 } else { k2 }, s.drop_first());
    }
}

/// No three consecutive `FF` bytes anywhere in `s`.
pub open spec fn no_triple_ff(s: Seq<u8>) -> bool {
    forall|i: int|
        0 <= i && i + 3 <= s.len() ==> !(#[trigger] s[i] == 0xff && s[i + 1] == 0xff && s[i + 2]
            == 0xff)
}

/// Every occurrence of the reserved sequence `FF FF FD` in `o` is followed
/// immediately by a stuff byte `FD` — so `FF FF FD 00`, the packet
/// prologue, can never appear.
pub open spec fn escaped(o: Seq<u8>) -> bool {
    forall|i: int|
        0 <= i && i + 3 <= o.len() && (#[trigger] o[i]) == 0xff && o[i + 1] == 0xff && o[i + 2]
            == 0xfd ==> i + 3 < o.len() && o[i + 3] == 0xfd
}

/// `k` leading `FF` bytes: the virtual context a payload tracker in state
/// `B_k` has just seen.
pub open spec fn ff_run(k: int) -> Seq<u8> {
    Seq::<u8>::new(if k >= 0 {
        k as nat
    } else {
        0
    }, |i: int| 0xffu8)
}

/// A contiguous suffix of a triple-`FF`-free sequence is triple-`FF`-free.
proof fn lemma_no_triple_ff_skip(s: Seq<u8>, n: int)
    requires
        no_triple_ff(s),
        0 <= n <= s.len(),
    ensures
        no_triple_ff(s.skip(n)),
{
    let t = s.skip(n);
    assert forall|i: int| 0 <= i && i + 3 <= t.len() implies !(#[trigger] t[i] == 0xff && t[i + 1]
        == 0xff && t[i + 2] == 0xff) by {
        assert(t[i] == s[n + i] && t[i + 1] == s[n + i + 1] && t[i + 2] == s[n + i + 2]);
        assert(!(s[n + i] == 0xff && s[n + i + 1] == 0xff && s[n + i + 2] == 0xff));
    }
}

/// Seen with its virtual context of `k` leading `FF` bytes, the stuffed
/// form of a payload without three consecutive `FF` bytes leaves every
/// occurrence of the reserved sequence escaped.
proof fn lemma_stuff_from_escapes(k: int, s: Seq<u8>)
    requires
        0 <= k <= 2,
        no_triple_ff(ff_run(k) + s),
    ensures
        escaped(ff_run(k) + stuff_from(k, s)),
    decreases s.len(),
{
    let o = ff_run(k) + stuff_from(k, s);
    if s.len() == 0 {
        assert(o.len() <= 2);
    } else {
        let b = s[0];
        let k2 = count_step(k, b);
        let rest = s.drop_first();
        assert((ff_run(k) + s)[k] == b);
        if k == 2 && b == 0xff {
            // three consecutive FF bytes, excluded by the premise
            assert((ff_run(k) + s)[0] == 0xff && (ff_run(k) + s)[1] == 0xff);
            assert(false);
        } else if b == 0xff {
            // the byte extends the virtual run: same stream, one byte on
            assert(k2 == k + 1);
            assert(ff_run(k2) + rest =~= (ff_run(k) + s).skip(0));
            lemma_stuff_from_escapes(k2, rest);
            assert(ff_run(k2) + stuff_from(k2, rest) =~= o);
        } else if k2 == 3 {
            // the reserved sequence completes: a stuff byte is emitted
            let t = stuff_from(0, rest);
            assert(o =~= seq![0xffu8, 0xffu8, 0xfdu8, 0xfdu8] + t);
            lemma_no_triple_ff_skip(ff_run(k) + s, 3);
            assert((ff_run(k) + s).skip(3) =~= rest);
            lemma_stuff_from_escapes(0, rest);
            assert(ff_run(0) + t =~= t);
            assert forall|i: int|
                0 <= i && i + 3 <= o.len() && (#[trigger] o[i]) == 0xff && o[i + 1] == 0xff && o[i
                    + 2] == 0xfd implies i + 3 < o.len() && o[i + 3] == 0xfd by {
                if i == 0 {
                    assert(o[3] == 0xfd);
                } else if i <= 3 {
                    assert(o[3] == 0xfd && o[2] == 0xfd);
                    assert(false);
                } else {
                    assert(o[i] == t[i - 4] && o[i + 1] == t[i - 3] && o[i + 2] == t[i - 2]);
                    assert(t[i - 4] == 0xff && t[i - 3] == 0xff && t[i - 2] == 0xfd);
                    assert(i - 4 + 3 < t.len() && t[i - 1] == 0xfd);
                }
            }
        } else {
            // the byte resets the match: the tail stands on its own
            assert(k2 == 0 && b != 0xff);
            let t = stuff_from(0, rest);
            assert(o =~= ff_run(k) + seq![b] + t);
            lemma_no_triple_ff_skip(ff_run(k) + s, k + 1);
            assert((ff_run(k) + s).skip(k + 1) =~= rest);
            lemma_stuff_from_escapes(0, rest);
            assert(ff_run(0) + t =~= t);
            assert forall|i: int|
                0 <= i && i + 3 <= o.len() && (#[trigger] o[i]) == 0xff && o[i + 1] == 0xff && o[i
                    + 2] == 0xfd implies i + 3 < o.len() && o[i + 3] == 0xfd by {
                if i < k {
                    // an occurrence would need the reset byte to be FD at
                    // the end of a full FF FF run, which only k == 2 and
                    // b == 0xfd gives, and that is the stuffing case
                    assert(o[k] == b);
                    assert(false);
                } else if i == k {
                    assert(o[k] == b && b != 0xff);
                    assert(false);
                } else {
                    assert(o[i] == t[i - k - 1] && o[i + 1] == t[i - k] && o[i + 2] == t[i - k
                        + 1]);
                    assert(t[i - k - 1] == 0xff && t[i - k] == 0xff && t[i - k + 1] == 0xfd);
                    assert(i - k - 1 + 3 < t.len() && t[i - k + 2] == 0xfd);
                }
            }
        }
    }
}

/// After stuffing, the reserved header sequence `FF FF FD` never appears
/// unescaped in the region from the instruction byte to the byte before
/// the CRC: every occurrence is followed at once by a stuff byte `FD`, so
/// a receiver can never mistake payload for the start of a packet.  This
/// holds for payloads without three consecutive `FF` bytes; in a run of
/// three or more `FF`s the tracker, which matches the reserved sequence
/// from its own start only, can pass an overlapped occurrence through.
pub proof fn lemma_stuff_escapes_header(s: Seq<u8>)
    requires
        no_triple_ff(s),
    ensures
        escaped(stuff(s)),
{
    assert(ff_run(0) + s =~= s);
    lemma_stuff_from_escapes(0, s);
    assert(ff_run(0) + stuff_from(0, s) =~= stuff(s));
}

/// The streaming tracker both codec directions consult.
#[derive(Debug, PartialEq, Eq, Clone, Copy, Structural)]
pub struct BitStuffer {
    pub state: BitStufferState,
}

impl BitStuffer {
    /// A fresh tracker, expecting the packet header.
    pub fn new() -> (r: BitStuffer)
        ensures
            r.state == BitStufferState::H0,
    {
        BitStuffer { state: BitStufferState::H0 }
    }

    /// True iff the reserved sequence was just seen whole: the encoder
    /// must now insert a stuff byte, the decoder must now consume one.
    pub fn stuff_next(&self) -> (r: bool)
        ensures
            r == (self.state is B3),
    {
        matches!(self.state, BitStufferState::B3)
    }

    /// Advance over one byte of the stream.
    pub fn add_byte(self, byte: u8) -> (r: Result<BitStuffer, BitStufferError>)
        ensures
            match spec_step(self.state, byte) {
                Ok(s) => r == Ok::<BitStuffer, BitStufferError>(BitStuffer { state: s }),
                Err(e) => r == Err::<BitStuffer, BitStufferError>(e),
            },
    {
        match self.state {
            BitStufferState::H0 => if byte == 0xff {
                Ok(BitStuffer { state: BitStufferState::H1 })
            } else {
                Err(BitStufferError::ExpectedFirstHeaderByte)
            },
            BitStufferState::H1 => if byte == 0xff {
                Ok(BitStuffer { state: BitStufferState::H2 })
            } else {
                Err(BitStufferError::ExpectedSecondHeaderByte)
            },
            BitStufferState::H2 => if byte == 0xfd {
                Ok(BitStuffer { state: BitStufferState::R })
            } else {
                Err(BitStufferError::ExpectedThirdHeaderByte)
            },
            BitStufferState::R => if byte == 0x00 {
                Ok(BitStuffer { state: BitStufferState::B0 })
            } else {
                Err(BitStufferError::ExpectedReservedByte)
            },
            BitStufferState::B0 => if byte == 0xff {
                Ok(BitStuffer { state: BitStufferState::B1 })
            } else {
                Ok(BitStuffer { state: BitStufferState::B0 })
            },
            BitStufferState::B1 => if byte == 0xff {
                Ok(BitStuffer { state: BitStufferState::B2 })
            } else {
                Ok(BitStuffer { state: BitStufferState::B0 })
            },
            BitStufferState::B2 => if byte == 0xfd {
                Ok(BitStuffer { state: BitStufferState::B3 })
            } else if byte == 0xff {
                Ok(BitStuffer { state: BitStufferState::B1 })
            } else {
                Ok(BitStuffer { state: BitStufferState::B0 })
            },
            BitStufferState::B3 => if byte == 0xfd {
                Ok(BitStuffer { state: BitStufferState::B0 })
            } else {
                Err(BitStufferError::ExpectedStuffByte)
            },
        }
    }
}

} // verus!
