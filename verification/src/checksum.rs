//! 8-bit sum-complement checksums.
//!
//! Every checksum in the protocol is a byte accumulator: it starts from a
//! fixed seed, consumes the covered bytes in order by wrapping subtraction,
//! and emits whatever is left.  A covered region followed by its checksum
//! byte therefore accumulates to zero exactly when the region is intact.
//!
//! Profile-memory slots use seeds 171 (header, DPI, colour, action and combo
//! slots) and 181 (macro slots); the 17-byte transport packet uses seed 0, so
//! that a well-formed packet's bytes sum to 0 modulo 256.

use vstd::prelude::*;

verus! {

/// One step of the accumulator: wrapping subtraction of a byte.
pub open spec fn sub8(a: u8, b: u8) -> u8 {
    ((a + 256 - b) % 256) as u8
}

/// Accumulator state after consuming `bytes` in order, starting from `init`.
pub open spec fn chk(init: u8, bytes: Seq<u8>) -> u8
    decreases bytes.len(),
{
    if bytes.len() == 0 {
        init
    } else {
        sub8(chk(init, bytes.drop_last()), bytes.last())
    }
}

/// The plain integer sum of a byte sequence.
pub open spec fn byte_sum(bytes: Seq<u8>) -> int
    decreases bytes.len(),
{
    if bytes.len() == 0 {
        0
    } else {
        byte_sum(bytes.drop_last()) + bytes.last()
    }
}

/// The accumulator computes the seed minus the byte sum, modulo 256.
pub proof fn lemma_chk_closed_form(init: u8, bytes: Seq<u8>)
    ensures
        chk(init, bytes) == (init - byte_sum(bytes)) % 256,
        0 <= byte_sum(bytes) <= 255 * bytes.len(),
    decreases bytes.len(),
{
    if bytes.len() > 0 {
        lemma_chk_closed_form(init, bytes.drop_last());
    }
}

/// Consuming a concatenation is consuming the parts in order.
pub proof fn lemma_chk_concat(init: u8, s1: Seq<u8>, s2: Seq<u8>)
    ensures
        chk(init, s1 + s2) == chk(chk(init, s1), s2),
    decreases s2.len(),
{
    if s2.len() == 0 {
        assert(s1 + s2 =~= s1);
    } else {
        lemma_chk_concat(init, s1, s2.drop_last());
        assert((s1 + s2).drop_last() =~= s1 + s2.drop_last());
    }
}

/// A region followed by its own checksum accumulates to zero.
pub proof fn lemma_chk_self_zero(init: u8, bytes: Seq<u8>)
    ensures
        chk(init, bytes.push(chk(init, bytes))) == 0,
{
    let c = chk(init, bytes);
    assert(bytes.push(c).drop_last() =~= bytes);
    assert(bytes.push(c).last() == c);
}

/// A trait for the protocol's data-integrity checksum accumulators.
pub trait Algorithm: Sized {
    /// The current accumulator byte.
    spec fn state(&self) -> u8;

    /// Adds bytes to the checksum.
    fn write(&mut self, bytes: &[u8])
        ensures
            final(self).state() == chk(old(self).state(), bytes@),
    ;

    /// Returns the finished checksum over the bytes written so far.
    fn finish(&self) -> (r: u8)
        ensures
            r == self.state(),
    ;

    /// Returns whether the written data, checksum byte included, is intact.
    fn is_valid(&self) -> (r: bool)
        ensures
            r == (self.state() == 0),
    ;
}

/// 8 bit sum complement checksum with a configurable seed.
///
/// Used with seed 171 for header and combo slots and seed 181 for macro
/// slots of profile memory.
pub struct SumComplement8 {
    sum: u8,
}

impl SumComplement8 {
    /// A fresh accumulator seeded with `init`.
    pub fn new(init: u8) -> (r: Self)
        ensures
            r.state() == init,
    {
        SumComplement8 { sum: init }
    }
}

impl Algorithm for SumComplement8 {
    closed spec fn state(&self) -> u8 {
        self.sum
    }

    fn write(&mut self, bytes: &[u8])
        ensures
            final(self).state() == chk(old(self).state(), bytes@),
    {
        let mut i: usize = 0;
        while i < bytes.len()
            invariant
                i <= bytes@.len(),
                self.sum == chk(old(self).sum, bytes@.take(i as int)),
            decreases bytes@.len() - i,
        {
            proof {
                assert(bytes@.take(i + 1).drop_last() =~= bytes@.take(i as int));
            }
            self.sum = self.sum.wrapping_sub(bytes[i]);
            i = i + 1;
        }
        proof {
            assert(bytes@.take(bytes@.len() as int) =~= bytes@);
        }
    }

    fn finish(&self) -> (r: u8)
        ensures
            r == self.state(),
    {
        self.sum
    }

    fn is_valid(&self) -> (r: bool)
        ensures
            r == (self.state() == 0),
    {
        self.sum == 0
    }
}

/// The transport packet checksum: a sum complement accumulator seeded with
/// zero, covering the whole 17-byte report, report ID included.
pub struct Checksum {
    sum: u8,
}

impl Checksum {
    /// A fresh packet accumulator.
    pub fn new() -> (r: Self)
        ensures
            r.state() == 0,
    {
        Checksum { sum: 0 }
    }

    /// The current accumulator byte.
    pub fn checksum(&self) -> (r: u8)
        ensures
            r == self.state(),
    {
        self.sum
    }
}

impl Algorithm for Checksum {
    closed spec fn state(&self) -> u8 {
        self.sum
    }

    fn write(&mut self, bytes: &[u8])
        ensures
            final(self).state() == chk(old(self).state(), bytes@),
    {
        let mut i: usize = 0;
        while i < bytes.len()
            invariant
                i <= bytes@.len(),
                self.sum == chk(old(self).sum, bytes@.take(i as int)),
            decreases bytes@.len() - i,
        {
            proof {
                assert(bytes@.take(i + 1).drop_last() =~= bytes@.take(i as int));
            }
            self.sum = self.sum.wrapping_sub(bytes[i]);
            i = i + 1;
        }
        proof {
            assert(bytes@.take(bytes@.len() as int) =~= bytes@);
        }
    }

    fn finish(&self) -> (r: u8)
        ensures
            r == self.state(),
    {
        self.sum
    }

    fn is_valid(&self) -> (r: bool)
        ensures
            r == (self.state() == 0),
    {
        self.sum == 0
    }
}

/// The packet checksum of `buf`: zero minus the sum of its bytes, modulo 256.
pub fn compute_checksum(buf: &[u8]) -> (r: u8)
    ensures
        r == chk(0, buf@),
{
    let mut acc = Checksum::new();
    acc.write(buf);
    acc.finish()
}

} // verus!
