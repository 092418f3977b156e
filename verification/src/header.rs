//! The serialized block header, kept as one fixed 240-byte buffer so that a
//! search can patch single fields in place instead of re-serializing the
//! whole header for every attempt, and the two-stage keyed mining hash
//! computed over it.
//!
//! Layout, all fields little-endian, offsets fixed for the buffer's life:
//! version(4) | previous hash(32) | merkle root(32) | witness root(32) |
//! tree root(32) | filter root(32) | reserved root(32) | time(8) | bits(4) |
//! nonce(32). The first 208 bytes are the pre-nonce region; the nonce fills
//! bytes 208..240.

use vstd::prelude::*;
use crate::le_bytes::{u32_le, u64_le, u32_to_le_bytes, u64_to_le_bytes, write_range, sub_bytes};
use crate::types::{Hash256, Uint256};
use crate::digest::{kmac256, blake2b256, kmac256_of, blake2b256_of};

verus! {

/// Total size of a serialized header.
pub const HEADER_SIZE: usize = 240;

/// Offset where the nonce begins; everything before it is the data the
/// derived hash key is bound to.
pub const NONCE_OFFSET: usize = 208;

/// The proof-of-work hash of a header split into its pre-nonce bytes and its
/// nonce bytes: a 256-bit key is derived by KMAC256 keyed with the nonce
/// over the data, and the result is the keyed BLAKE2b digest of the same
/// data under that key. Binding the nonce into the key forces a full,
/// independent computation per nonce.
pub open spec fn pow_hash(data: Seq<u8>, nonce: Seq<u8>) -> Seq<u8> {
    blake2b256_of(kmac256_of(nonce, data), data)
}

/// The mining hash is deterministic: one header content, one hash.
pub proof fn lemma_pow_hash_deterministic(d1: Seq<u8>, n1: Seq<u8>, d2: Seq<u8>, n2: Seq<u8>)
    requires
        d1 == d2,
        n1 == n2,
    ensures
        pow_hash(d1, n1) == pow_hash(d2, n2),
{
}

/// The pre-nonce region of a header built from the given fields, with the
/// four placeholder roots zero-filled.
pub open spec fn header_pre(
    version: u32,
    prev: Seq<u8>,
    merkle: Seq<u8>,
    time: u64,
    bits: u32,
) -> Seq<u8> {
    Seq::new(
        208,
        |i: int|
            if i < 4 {
                u32_le(version)[i]
            } else if i < 36 {
                prev[i - 4]
            } else if i < 68 {
                merkle[i - 36]
            } else if i < 196 {
                0u8
            } else if i < 204 {
                u64_le(time)[i - 196]
            } else {
                u32_le(bits)[i - 204]
            },
    )
}

/// A block header kept in serialized form, with field-level in-place
/// mutation of the merkle root, the placeholder roots, the time and the
/// nonce.
pub struct BlockHeaderBytes {
    data: Vec<u8>,
}

impl View for BlockHeaderBytes {
    type V = Seq<u8>;

    closed spec fn view(&self) -> Seq<u8> {
        self.data@
    }
}

impl BlockHeaderBytes {
    /// A header buffer holds exactly 240 bytes.
    pub open spec fn wf(&self) -> bool {
        self@.len() == 240
    }

    /// Build the serialized header once: version, previous hash and bits in
    /// place, all roots, the time and the nonce zero-filled.
    pub fn new(version: u32, previous_header_hash: &Hash256, bits: u32) -> (r: Self)
        requires
            previous_header_hash.wf(),
        ensures
            r.wf(),
            r@.subrange(0, 208) == header_pre(
                version,
                previous_header_hash@,
                crate::le_bytes::zero_bytes(32),
                0,
                bits,
            ),
            r@.subrange(208, 240) == crate::le_bytes::zero_bytes(32),
    {
        let mut data = u32_to_le_bytes(version);
        let mut prev = previous_header_hash.duplicate();
        data.append(&mut prev.bytes);
        let mut roots: Vec<u8> = vec![0u8; 160];
        data.append(&mut roots);
        let mut time_bytes = u64_to_le_bytes(0);
        data.append(&mut time_bytes);
        let mut bits_bytes = u32_to_le_bytes(bits);
        data.append(&mut bits_bytes);
        let mut nonce: Vec<u8> = vec![0u8; 32];
        data.append(&mut nonce);
        proof {
            assert(data@.subrange(0, 208) =~= header_pre(
                version,
                previous_header_hash@,
                crate::le_bytes::zero_bytes(32),
                0,
                bits,
            ));
            assert(data@.subrange(208, 240) =~= crate::le_bytes::zero_bytes(32));
        }
        BlockHeaderBytes { data }
    }

    /// Overwrite the merkle root field in place; every byte outside it is
    /// untouched.
    pub fn set_merkle_root_hash(&mut self, hash: &Hash256)
        requires
            old(self).wf(),
            hash.wf(),
        ensures
            final(self).wf(),
            final(self)@.subrange(36, 68) == hash@,
            forall|i: int|
                0 <= i < 240 && !(36 <= i < 68) ==> final(self)@[i] == old(self)@[i],
    {
        write_range(&mut self.data, 36, hash.as_bytes());
        proof {
            assert(self.data@.subrange(36, 68) =~= hash@);
        }
    }

    /// Overwrite the witness root field in place.
    pub fn set_witness_root_hash(&mut self, hash: &Hash256)
        requires
            old(self).wf(),
            hash.wf(),
        ensures
            final(self).wf(),
            final(self)@.subrange(68, 100) == hash@,
            forall|i: int|
                0 <= i < 240 && !(68 <= i < 100) ==> final(self)@[i] == old(self)@[i],
    {
        write_range(&mut self.data, 68, hash.as_bytes());
        proof {
            assert(self.data@.subrange(68, 100) =~= hash@);
        }
    }

    /// Overwrite the tree root field in place.
    pub fn set_tree_root_hash(&mut self, hash: &Hash256)
        requires
            old(self).wf(),
            hash.wf(),
        ensures
            final(self).wf(),
            final(self)@.subrange(100, 132) == hash@,
            forall|i: int|
                0 <= i < 240 && !(100 <= i < 132) ==> final(self)@[i] == old(self)@[i],
    {
        write_range(&mut self.data, 100, hash.as_bytes());
        proof {
            assert(self.data@.subrange(100, 132) =~= hash@);
        }
    }

    /// Overwrite the filter root field in place.
    pub fn set_filter_root_hash(&mut self, hash: &Hash256)
        requires
            old(self).wf(),
            hash.wf(),
        ensures
            final(self).wf(),
            final(self)@.subrange(132, 164) == hash@,
            forall|i: int|
                0 <= i < 240 && !(132 <= i < 164) ==> final(self)@[i] == old(self)@[i],
    {
        write_range(&mut self.data, 132, hash.as_bytes());
        proof {
            assert(self.data@.subrange(132, 164) =~= hash@);
        }
    }

    /// Overwrite the reserved root field in place.
    pub fn set_reserved_root_hash(&mut self, hash: &Hash256)
        requires
            old(self).wf(),
            hash.wf(),
        ensures
            final(self).wf(),
            final(self)@.subrange(164, 196) == hash@,
            forall|i: int|
                0 <= i < 240 && !(164 <= i < 196) ==> final(self)@[i] == old(self)@[i],
    {
        write_range(&mut self.data, 164, hash.as_bytes());
        proof {
            assert(self.data@.subrange(164, 196) =~= hash@);
        }
    }

    /// Overwrite the 8-byte little-endian time field in place.
    pub fn set_time(&mut self, time: u64)
        requires
            old(self).wf(),
        ensures
            final(self).wf(),
            final(self)@.subrange(196, 204) == u64_le(time),
            forall|i: int|
                0 <= i < 240 && !(196 <= i < 204) ==> final(self)@[i] == old(self)@[i],
    {
        let time_bytes = u64_to_le_bytes(time);
        write_range(&mut self.data, 196, &time_bytes);
        proof {
            assert(self.data@.subrange(196, 204) =~= u64_le(time));
        }
    }

    /// Overwrite the 32-byte little-endian nonce field in place.
    pub fn set_nonce(&mut self, nonce: &Uint256)
        requires
            old(self).wf(),
            nonce.wf(),
        ensures
            final(self).wf(),
            final(self)@.subrange(208, 240) == nonce@,
            forall|i: int| 0 <= i < 208 ==> final(self)@[i] == old(self)@[i],
    {
        write_range(&mut self.data, 208, &nonce.bytes);
        proof {
            assert(self.data@.subrange(208, 240) =~= nonce@);
        }
    }

    /// The proof-of-work hash of the buffer's current contents; the buffer
    /// itself is untouched.
    pub fn hash(&self) -> (r: Hash256)
        requires
            self.wf(),
        ensures
            r.wf(),
            r@ == pow_hash(self@.subrange(0, 208), self@.subrange(208, 240)),
    {
        let data = sub_bytes(&self.data, 0, 208);
        let nonce = sub_bytes(&self.data, 208, 240);
        let key = kmac256(&nonce, &data);
        let digest = blake2b256(&key, &data);
        Hash256::new(digest)
    }

    /// The serialized bytes, for callers that assemble or inspect a block.
    pub fn as_bytes(&self) -> (r: &Vec<u8>)
        ensures
            r@ == self@,
    {
        &self.data
    }
}

} // verus!
