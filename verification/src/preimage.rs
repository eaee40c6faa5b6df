//! The fixed-layout 76-byte preimage that is hashed on every attempt:
//! index (4 bytes, big-endian) ‖ nonce (8 bytes, big-endian) ‖ entropy
//! (32 bytes) ‖ farmer address (32 bytes). Only the 8-byte nonce window
//! (bytes 4..12) changes between attempts.

use vstd::prelude::*;
use crate::encode::{u32_be_bytes, u64_be_bytes, push_u32_be, push_u64_be};

verus! {

/// Number of bytes in a preimage buffer.
pub open spec fn preimage_len() -> int {
    76
}

/// First byte of the nonce window.
pub open spec fn nonce_window_start() -> int {
    4
}

/// One past the last byte of the nonce window.
pub open spec fn nonce_window_end() -> int {
    12
}

/// The preimage bytes for the given fixed fields, with the nonce window
/// still zero.
pub open spec fn preimage_seq(index: u32, entropy: Seq<u8>, farmer: Seq<u8>) -> Seq<u8> {
    u32_be_bytes(index) + u64_be_bytes(0) + entropy + farmer
}

/// `s` with its nonce window overwritten by the big-endian encoding of
/// `nonce`; every byte outside the window is kept.
pub open spec fn with_nonce(s: Seq<u8>, nonce: u64) -> Seq<u8> {
    s.subrange(0, nonce_window_start()) + u64_be_bytes(nonce) + s.subrange(
        nonce_window_end(),
        s.len() as int,
    )
}

/// Two buffers that agree outside the nonce window yield the same bytes
/// once any nonce is written.
pub proof fn lemma_with_nonce_same_outside(s1: Seq<u8>, s2: Seq<u8>, n: u64)
    requires
        s1.len() == s2.len(),
        s1.len() >= nonce_window_end(),
        forall|i: int|
            0 <= i < s1.len() && !(nonce_window_start() <= i < nonce_window_end()) ==> s1[i]
                == s2[i],
    ensures
        with_nonce(s1, n) == with_nonce(s2, n),
{
    assert(with_nonce(s1, n) =~= with_nonce(s2, n));
}

/// Writing a nonce into a freshly built preimage gives the full canonical
/// layout: index ‖ nonce ‖ entropy ‖ farmer, each field big-endian.
pub proof fn lemma_with_nonce_preimage(index: u32, entropy: Seq<u8>, farmer: Seq<u8>, nonce: u64)
    requires
        entropy.len() == 32,
        farmer.len() == 32,
    ensures
        with_nonce(preimage_seq(index, entropy, farmer), nonce) == u32_be_bytes(index)
            + u64_be_bytes(nonce) + entropy + farmer,
{
    assert(with_nonce(preimage_seq(index, entropy, farmer), nonce) =~= u32_be_bytes(index)
        + u64_be_bytes(nonce) + entropy + farmer);
}

/// Mutating the nonce window never alters the bytes outside it.
pub proof fn lemma_nonce_isolation(s: Seq<u8>, nonce: u64)
    requires
        s.len() >= nonce_window_end(),
    ensures
        with_nonce(s, nonce).len() == s.len(),
        forall|i: int|
            0 <= i < s.len() && !(nonce_window_start() <= i < nonce_window_end()) ==> with_nonce(
                s,
                nonce,
            )[i] == s[i],
{
}

/// A worker-private preimage buffer. The view is the byte sequence held.
pub struct Preimage {
    buf: Vec<u8>,
}

impl View for Preimage {
    type V = Seq<u8>;

    closed spec fn view(&self) -> Seq<u8> {
        self.buf@
    }
}

impl Preimage {
    /// The buffer holds exactly one preimage.
    pub open spec fn wf(&self) -> bool {
        self@.len() == preimage_len()
    }

    /// Writes the three fixed fields once; the nonce window starts as zero.
    pub fn build(index: u32, entropy: &Vec<u8>, farmer: &Vec<u8>) -> (r: Preimage)
        requires
            entropy@.len() == 32,
            farmer@.len() == 32,
        ensures
            r.wf(),
            r@ == preimage_seq(index, entropy@, farmer@),
    {
        let mut buf: Vec<u8> = Vec::new();
        push_u32_be(&mut buf, index);
        push_u64_be(&mut buf, 0);
        let mut i: usize = 0;
        while i < 32
            invariant
                i <= 32,
                entropy@.len() == 32,
                buf@ == u32_be_bytes(index) + u64_be_bytes(0) + entropy@.subrange(0, i as int),
            decreases 32 - i,
        {
            buf.push(entropy[i]);
            proof {
                assert(buf@ =~= u32_be_bytes(index) + u64_be_bytes(0) + entropy@.subrange(
                    0,
                    i + 1,
                ));
            }
            i = i + 1;
        }
        proof {
            assert(entropy@.subrange(0, 32) =~= entropy@);
        }
        let mut j: usize = 0;
        while j < 32
            invariant
                j <= 32,
                farmer@.len() == 32,
                buf@ == u32_be_bytes(index) + u64_be_bytes(0) + entropy@ + farmer@.subrange(
                    0,
                    j as int,
                ),
            decreases 32 - j,
        {
            buf.push(farmer[j]);
            proof {
                assert(buf@ =~= u32_be_bytes(index) + u64_be_bytes(0) + entropy@
                    + farmer@.subrange(0, j + 1));
            }
            j = j + 1;
        }
        proof {
            assert(farmer@.subrange(0, 32) =~= farmer@);
        }
        Preimage { buf }
    }

    /// Overwrites the 8-byte nonce window with the big-endian encoding of
    /// `nonce`; no byte outside the window is touched.
    pub fn set_nonce(&mut self, nonce: u64)
        requires
            old(self).wf(),
        ensures
            final(self).wf(),
            final(self)@ == with_nonce(old(self)@, nonce),
    {
        self.buf[4] = (nonce >> 56) as u8;
        self.buf[5] = (nonce >> 48) as u8;
        self.buf[6] = (nonce >> 40) as u8;
        self.buf[7] = (nonce >> 32) as u8;
        self.buf[8] = (nonce >> 24) as u8;
        self.buf[9] = (nonce >> 16) as u8;
        self.buf[10] = (nonce >> 8) as u8;
        self.buf[11] = nonce as u8;
        proof {
            assert(self.buf@ =~= with_nonce(old(self)@, nonce));
        }
    }

    /// The bytes currently held, for hashing.
    pub fn as_bytes(&self) -> (r: &Vec<u8>)
        ensures
            r@ == self@,
    {
        &self.buf
    }
}

} // verus!
