//! The merkle root builder: pairwise unkeyed BLAKE2b over an ordered list
//! of leaf hashes, the coinbase hash first. An odd node at the end of a
//! level is paired with itself; a single leaf is its own root.

use vstd::prelude::*;
use crate::types::Hash256;
use crate::digest::{blake2b256, blake2b256_of};
use crate::le_bytes::copy_bytes;

verus! {

/// The parent of two nodes: the unkeyed digest of their concatenation.
pub open spec fn merkle_parent(l: Seq<u8>, r: Seq<u8>) -> Seq<u8> {
    blake2b256_of(Seq::empty(), l + r)
}

/// One level up: nodes paired in order, a trailing odd node paired with
/// itself.
pub open spec fn merkle_level(level: Seq<Seq<u8>>) -> Seq<Seq<u8>> {
    Seq::new(
        (level.len() + 1) / 2,
        |i: int|
            if 2 * i + 1 < level.len() {
                merkle_parent(level[2 * i], level[2 * i + 1])
            } else {
                merkle_parent(level[2 * i], level[2 * i])
            },
    )
}

/// The root of an ordered, nonempty list of leaf hashes.
pub open spec fn merkle_root_spec(leaves: Seq<Seq<u8>>) -> Seq<u8>
    recommends
        leaves.len() >= 1,
    decreases leaves.len(),
{
    if leaves.len() <= 1 {
        if leaves.len() == 1 {
            leaves[0]
        } else {
            Seq::empty()
        }
    } else {
        merkle_root_spec(merkle_level(leaves))
    }
}

/// Combine the coinbase hash with the template's transaction hashes, in
/// template order, into the block's merkle root.
pub fn merkle_root(coinbase_hash: &Hash256, tx_hashes: &Vec<Hash256>) -> (r: Hash256)
    requires
        coinbase_hash.wf(),
        forall|i: int| 0 <= i < tx_hashes@.len() ==> (#[trigger] tx_hashes@[i]).wf(),
    ensures
        r.wf(),
        r@ == merkle_root_spec(seq![coinbase_hash@] + tx_hashes.deep_view()),
{
    let ghost leaves = seq![coinbase_hash@] + tx_hashes.deep_view();
    let mut level: Vec<Hash256> = Vec::new();
    level.push(coinbase_hash.duplicate());
    let mut k: usize = 0;
    while k < tx_hashes.len()
        invariant
            k <= tx_hashes@.len(),
            level.deep_view() == seq![coinbase_hash@] + tx_hashes.deep_view().take(k as int),
            forall|i: int| 0 <= i < level@.len() ==> (#[trigger] level@[i]).wf(),
            forall|i: int| 0 <= i < tx_hashes@.len() ==> (#[trigger] tx_hashes@[i]).wf(),
        decreases tx_hashes@.len() - k,
    {
        let ghost prev_dv = level.deep_view();
        proof {
            assert(prev_dv.len() == level@.len());
            assert(prev_dv.len() == k + 1);
        }
        let dup = tx_hashes[k].duplicate();
        level.push(dup);
        proof {
            let dvnew = level.deep_view();
            let rhs = seq![coinbase_hash@] + tx_hashes.deep_view().take(k + 1);
            assert(dvnew.len() == level@.len());
            assert(rhs.len() == k + 2);
            assert forall|i: int| 0 <= i < dvnew.len() implies dvnew[i] == rhs[i] by {
                if i < prev_dv.len() {
                    assert(dvnew[i] == prev_dv[i]);
                    assert(prev_dv[i] == (seq![coinbase_hash@]
                        + tx_hashes.deep_view().take(k as int))[i]);
                } else {
                    assert(dvnew[i] == dup@);
                }
            }
            assert(dvnew =~= rhs);
        }
        k += 1;
    }
    proof {
        assert(tx_hashes.deep_view().take(tx_hashes@.len() as int) =~~= tx_hashes.deep_view());
        assert(level.deep_view() == leaves);
    }
    while level.len() > 1
        invariant
            level@.len() >= 1,
            forall|i: int| 0 <= i < level@.len() ==> (#[trigger] level@[i]).wf(),
            merkle_root_spec(level.deep_view()) == merkle_root_spec(
                seq![coinbase_hash@] + tx_hashes.deep_view(),
            ),
        decreases level@.len(),
    {
        let ghost dv = level.deep_view();
        let n = level.len();
        let next_len = n / 2 + n % 2;
        let mut next: Vec<Hash256> = Vec::new();
        let mut j: usize = 0;
        while j < next_len
            invariant
                2 <= n == level@.len(),
                next_len == n / 2 + n % 2,
                forall|t: int| 0 <= t < level@.len() ==> (#[trigger] level@[t]).wf(),
                dv == level.deep_view(),
                j == next@.len() <= next_len,
                next.deep_view() == merkle_level(dv).take(j as int),
                forall|t: int| 0 <= t < next@.len() ==> (#[trigger] next@[t]).wf(),
            decreases next_len - j,
        {
            let ghost before = next.deep_view();
            let left = 2 * j;
            let mut cat = copy_bytes(&level[left].bytes);
            let mut right = if left + 1 < n {
                copy_bytes(&level[left + 1].bytes)
            } else {
                copy_bytes(&level[left].bytes)
            };
            cat.append(&mut right);
            let key: Vec<u8> = Vec::new();
            proof {
                assert(key@ =~= Seq::<u8>::empty());
            }
            let digest = blake2b256(&key, &cat);
            next.push(Hash256::new(digest));
            proof {
                assert(next.deep_view() =~~= before.push(digest@));
                if 2 * (j as int) + 1 < dv.len() {
                    assert(cat@ == dv[2 * (j as int)] + dv[2 * (j as int) + 1]);
                } else {
                    assert(cat@ == dv[2 * (j as int)] + dv[2 * (j as int)]);
                }
                assert(merkle_level(dv)[j as int] == digest@);
                assert(next.deep_view() =~~= merkle_level(dv).take(j + 1));
            }
            j += 1;
        }
        proof {
            assert(next.deep_view() =~~= merkle_level(dv));
            assert(merkle_root_spec(dv) == merkle_root_spec(merkle_level(dv)));
        }
        level = next;
    }
    let ghost last_dv = level.deep_view();
    let root = level.remove(0);
    proof {
        assert(root@ == last_dv[0]);
        assert(merkle_root_spec(last_dv) == last_dv[0]);
    }
    root
}

} // verus!
