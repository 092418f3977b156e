//! The fixed 32-byte value types of the mining core: an opaque 256-bit hash
//! and a 256-bit little-endian unsigned integer with zero, maximum and
//! increment operations.

use vstd::prelude::*;
use vstd::arithmetic::power::pow;
use vstd::pervasive::VecAdditionalExecFns;
use crate::le_bytes::{
    le_val, zero_bytes, copy_bytes, lemma_le_val_zero, lemma_le_val_ones, lemma_le_val_inj,
    lemma_le_val_split,
};

verus! {

/// The largest value a 256-bit unsigned integer can hold.
pub open spec fn u256_max() -> nat {
    (pow(256, 32) - 1) as nat
}

/// A 256-bit hash, kept as its 32 raw bytes.
#[derive(Debug)]
pub struct Hash256 {
    pub bytes: Vec<u8>,
}

impl View for Hash256 {
    type V = Seq<u8>;

    open spec fn view(&self) -> Seq<u8> {
        self.bytes@
    }
}

impl DeepView for Hash256 {
    type V = Seq<u8>;

    open spec fn deep_view(&self) -> Seq<u8> {
        self.bytes@
    }
}

impl Hash256 {
    /// A hash holds exactly 32 bytes.
    pub open spec fn wf(&self) -> bool {
        self.bytes@.len() == 32
    }

    pub fn new(bytes: Vec<u8>) -> (r: Self)
        requires
            bytes@.len() == 32,
        ensures
            r.wf(),
            r@ == bytes@,
    {
        Hash256 { bytes }
    }

    /// The all-zero hash.
    pub fn zero() -> (r: Self)
        ensures
            r.wf(),
            r@ == zero_bytes(32),
    {
        let bytes: Vec<u8> = vec![0u8; 32];
        proof {
            assert(bytes@ =~= zero_bytes(32));
        }
        Hash256 { bytes }
    }

    /// A second hash with the same bytes.
    pub fn duplicate(&self) -> (r: Self)
        ensures
            r@ == self@,
    {
        Hash256 { bytes: copy_bytes(&self.bytes) }
    }

    pub fn as_bytes(&self) -> (r: &Vec<u8>)
        ensures
            r@ == self@,
    {
        &self.bytes
    }
}

/// A 256-bit unsigned integer, kept as its 32 bytes in little-endian order.
#[derive(Debug)]
pub struct Uint256 {
    pub bytes: Vec<u8>,
}

impl View for Uint256 {
    type V = Seq<u8>;

    open spec fn view(&self) -> Seq<u8> {
        self.bytes@
    }
}

impl Uint256 {
    /// An integer holds exactly 32 bytes.
    pub open spec fn wf(&self) -> bool {
        self.bytes@.len() == 32
    }

    /// The numeric value of this integer.
    pub open spec fn value(&self) -> nat {
        le_val(self.bytes@)
    }

    pub fn zero() -> (r: Self)
        ensures
            r.wf(),
            r.value() == 0,
            r@ == zero_bytes(32),
    {
        let bytes: Vec<u8> = vec![0u8; 32];
        proof {
            assert(bytes@ =~= zero_bytes(32));
            lemma_le_val_zero(bytes@);
        }
        Uint256 { bytes }
    }

    pub fn max_value() -> (r: Self)
        ensures
            r.wf(),
            r.value() == u256_max(),
    {
        let bytes: Vec<u8> = vec![0xffu8; 32];
        proof {
            lemma_le_val_ones(bytes@);
        }
        Uint256 { bytes }
    }

    pub fn from_le_bytes(bytes: Vec<u8>) -> (r: Self)
        requires
            bytes@.len() == 32,
        ensures
            r.wf(),
            r@ == bytes@,
            r.value() == le_val(bytes@),
    {
        Uint256 { bytes }
    }

    /// The 32 little-endian bytes of this integer.
    pub fn to_le_bytes(&self) -> (r: Vec<u8>)
        ensures
            r@ == self@,
    {
        copy_bytes(&self.bytes)
    }

    /// Whether this integer holds the largest 256-bit value.
    pub fn is_max(&self) -> (r: bool)
        requires
            self.wf(),
        ensures
            r == (self.value() == u256_max()),
    {
        let mut i: usize = 0;
        while i < 32
            invariant
                i <= 32,
                self.wf(),
                forall|j: int| 0 <= j < i ==> self.bytes@[j] == 0xff,
            decreases 32 - i,
        {
            if self.bytes[i] != 0xff {
                proof {
                    let ones = Seq::new(32, |k: int| 0xffu8);
                    lemma_le_val_ones(ones);
                    if self.value() == u256_max() {
                        lemma_le_val_inj(self.bytes@, ones);
                        assert(false);
                    }
                }
                return false;
            }
            i += 1;
        }
        proof {
            let ones = Seq::new(32, |k: int| 0xffu8);
            lemma_le_val_ones(ones);
            assert(self.bytes@ =~= ones);
        }
        true
    }

    /// Add one to this integer.
    pub fn increment(&mut self)
        requires
            old(self).wf(),
            old(self).value() < u256_max(),
        ensures
            final(self).wf(),
            final(self).value() == old(self).value() + 1,
    {
        proof {
            let ones = Seq::new(32, |i: int| 0xffu8);
            lemma_le_val_ones(ones);
            if forall|j: int| 0 <= j < 32 ==> old(self).bytes@[j] == 0xff {
                assert(old(self).bytes@ =~= ones);
                assert(false);
            }
        }
        let mut i: usize = 0;
        while self.bytes[i] == 0xff
            invariant
                0 <= i < 32,
                self.wf(),
                old(self).wf(),
                forall|j: int| 0 <= j < i ==> self.bytes@[j] == 0,
                forall|j: int| 0 <= j < i ==> old(self).bytes@[j] == 0xff,
                forall|j: int| i <= j < 32 ==> self.bytes@[j] == old(self).bytes@[j],
                !(forall|j: int| 0 <= j < 32 ==> old(self).bytes@[j] == 0xff),
            decreases 32 - i,
        {
            self.bytes.set(i, 0);
            proof {
                if i == 31 {
                    assert(forall|j: int| 0 <= j < 32 ==> old(self).bytes@[j] == 0xff);
                    assert(false);
                }
            }
            i += 1;
        }
        let b = self.bytes[i];
        self.bytes.set(i, b + 1);
        proof {
            lemma_increment_value(old(self).bytes@, self.bytes@, i as int);
        }
    }
}

/// Carrying one into position `i` adds exactly one to the value: the bytes
/// below `i` go from all-0xff to all-zero, byte `i` rises by one, and the
/// rest are unchanged.
proof fn lemma_increment_value(before: Seq<u8>, after: Seq<u8>, i: int)
    requires
        before.len() == 32,
        after.len() == 32,
        0 <= i < 32,
        forall|j: int| 0 <= j < i ==> before[j] == 0xff,
        forall|j: int| 0 <= j < i ==> after[j] == 0,
        before[i] < 0xff,
        after[i] == before[i] + 1,
        forall|j: int| i < j < 32 ==> after[j] == before[j],
    ensures
        le_val(after) == le_val(before) + 1,
{
    lemma_le_val_split(before, i);
    lemma_le_val_split(after, i);
    lemma_le_val_ones(before.subrange(0, i));
    lemma_le_val_zero(after.subrange(0, i));
    let p = pow(256, i as nat);
    vstd::arithmetic::power::lemma_pow_positive(256, i as nat);
    let bs = before.subrange(i, 32);
    let as_ = after.subrange(i, 32);
    assert(bs.subrange(1, bs.len() as int) =~= before.subrange(i + 1, 32));
    assert(as_.subrange(1, as_.len() as int) =~= after.subrange(i + 1, 32));
    assert(before.subrange(i + 1, 32) =~= after.subrange(i + 1, 32));
    let r = le_val(before.subrange(i + 1, 32));
    assert(le_val(bs) == before[i] as nat + 256 * r);
    assert(le_val(as_) == (before[i] + 1) as nat + 256 * r);
    assert((p - 1) + p * (before[i] as nat + 256 * r) + 1 == p * ((before[i] + 1) as nat + 256
        * r)) by (nonlinear_arith)
        requires
            p >= 1,
            r >= 0,
    ;
}

} // verus!
