//! The search driver: a reference CPU miner. It keeps the header serialized
//! in one buffer, walks the 256-bit nonce space in increasing order for each
//! extranonce value, recomputes the merkle root whenever the coinbase
//! changes, and returns the first accepted attempt or exhaustion.

use vstd::prelude::*;
use crate::le_bytes::{le_val, u32_to_le_bytes, lemma_le_val_bound, lemma_le_val_inj};
use crate::types::{Hash256, Uint256, u256_max};
use crate::header::{BlockHeaderBytes, header_pre, pow_hash};
use crate::difficulty::{pow_accepted, verify_pow};
use crate::le_bytes::u32_le;
use crate::merkle::{merkle_root, merkle_root_spec};
use crate::transaction::{Transaction, Input, Output, Outpoint, tx_hash};
use crate::block_template::BlockTemplate;

verus! {

/// Whether the header whose pre-nonce bytes are `pre`, tried with the given
/// nonce bytes, passes the proof-of-work test for `bits`.
pub open spec fn attempt_ok(pre: Seq<u8>, nonce: Seq<u8>, bits: u32) -> bool {
    pow_accepted(pow_hash(pre, nonce), bits)
}

/// The coinbase builder capability: a caller-supplied collaborator that
/// carries the coinbase transaction being mined. The driver only ever sets
/// its extra-nonce bytes, asks for its current hash, and finalizes it once.
pub trait CoinbaseTransactionBuilder: Sized {
    /// The coinbase transaction as built so far.
    spec fn coinbase(&self) -> Transaction;

    /// The hash the coinbase would have with the given extra-nonce bytes in
    /// place: a function of the builder's fixed parts alone, unchanged by
    /// setting an extranonce.
    spec fn coinbase_hash_with(&self, extranonce: Seq<u8>) -> Seq<u8>;

    /// Whether the builder is in a usable state; the other operations keep
    /// it so.
    spec fn wf(&self) -> bool;

    /// A usable builder's coinbase has its coinbase input in place.
    proof fn wf_coinbase_input(&self)
        requires
            self.wf(),
        ensures
            self.coinbase().inputs@.len() >= 1,
    ;

    /// Overwrite the coinbase's extra-nonce placeholder -- the witness
    /// stack of its coinbase input -- with the given bytes, leaving every
    /// other part of the transaction as it was.
    fn set_extranonce(&mut self, extranonce: &Vec<u8>)
        requires
            old(self).wf(),
        ensures
            final(self).wf(),
            forall|f: Seq<u8>| #[trigger] final(self).coinbase_hash_with(f) == old(
                self,
            ).coinbase_hash_with(f),
            crate::transaction::tx_hash(final(self).coinbase()) == old(
                self,
            ).coinbase_hash_with(extranonce@),
            final(self).coinbase().version == old(self).coinbase().version,
            final(self).coinbase().lock_time == old(self).coinbase().lock_time,
            final(self).coinbase().outputs == old(self).coinbase().outputs,
            final(self).coinbase().inputs@.len() == old(self).coinbase().inputs@.len(),
            old(self).coinbase().inputs@.len() >= 1 ==> {
                &&& final(self).coinbase().inputs@[0].witness.deep_view() =~~= seq![
                    extranonce@,
                ]
                &&& final(self).coinbase().inputs@[0].prevout.hash@
                    == old(self).coinbase().inputs@[0].prevout.hash@
                &&& final(self).coinbase().inputs@[0].prevout.index
                    == old(self).coinbase().inputs@[0].prevout.index
                &&& final(self).coinbase().inputs@[0].sequence
                    == old(self).coinbase().inputs@[0].sequence
                &&& forall|i: int|
                    1 <= i < final(self).coinbase().inputs@.len()
                        ==> final(self).coinbase().inputs@[i]
                        == old(self).coinbase().inputs@[i]
            },
    ;

    /// The current hash of the coinbase transaction; no side effects.
    fn hash(&self) -> (h: Hash256)
        requires
            self.wf(),
        ensures
            h.wf(),
            h@ == crate::transaction::tx_hash(self.coinbase()),
    ;

    /// Consume the builder and return the finalized, immutable coinbase
    /// transaction.
    fn finish(self) -> (t: Transaction)
        requires
            self.wf(),
        ensures
            t == self.coinbase(),
    ;
}

/// A found block: the winning nonce and extranonce, the header time, and
/// the finalized coinbase transaction.
pub struct Solution {
    /// Block header nonce.
    pub nonce: Uint256,
    /// Coinbase transaction extra nonce.
    pub extranonce: u32,
    /// Block header time.
    pub time: u64,
    /// Coinbase transaction, its extra nonce already set.
    pub coinbase_transaction: Transaction,
}

/// Walk the whole nonce space for the header's current pre-nonce contents,
/// in increasing order from zero: the first accepted nonce, or `None` after
/// the maximum nonce was tried and rejected. Only the nonce field of the
/// header is touched.
fn search_nonce(header: &mut BlockHeaderBytes, bits: u32) -> (r: Option<Uint256>)
    requires
        old(header).wf(),
    ensures
        final(header).wf(),
        final(header)@.subrange(0, 208) == old(header)@.subrange(0, 208),
        match r {
            Some(n) => {
                &&& n.wf()
                &&& attempt_ok(old(header)@.subrange(0, 208), n@, bits)
                &&& forall|s: Seq<u8>|
                    s.len() == 32 && le_val(s) < n.value() ==> !attempt_ok(
                        old(header)@.subrange(0, 208),
                        s,
                        bits,
                    )
            },
            None => forall|s: Seq<u8>|
                s.len() == 32 ==> !attempt_ok(old(header)@.subrange(0, 208), s, bits),
        },
{
    let mut nonce = Uint256::zero();
    loop
        invariant
            header.wf(),
            header@.subrange(0, 208) == old(header)@.subrange(0, 208),
            nonce.wf(),
            nonce.value() <= u256_max(),
            forall|s: Seq<u8>|
                s.len() == 32 && le_val(s) < nonce.value() ==> !attempt_ok(
                    old(header)@.subrange(0, 208),
                    s,
                    bits,
                ),
        decreases u256_max() - nonce.value(),
    {
        header.set_nonce(&nonce);
        let candidate = header.hash();
        if verify_pow(&candidate, bits) {
            proof {
                assert(header@.subrange(208, 240) == nonce@);
                assert(candidate@ == pow_hash(header@.subrange(0, 208), nonce@));
            }
            return Some(nonce);
        }
        proof {
            assert(!attempt_ok(old(header)@.subrange(0, 208), nonce@, bits));
        }
        if nonce.is_max() {
            proof {
                assert forall|s: Seq<u8>| s.len() == 32 implies !attempt_ok(
                    old(header)@.subrange(0, 208),
                    s,
                    bits,
                ) by {
                    lemma_le_val_bound(s);
                    if le_val(s) == nonce.value() {
                        lemma_le_val_inj(s, nonce@);
                    }
                }
            }
            return None;
        }
        let ghost prev = nonce@;
        nonce.increment();
        proof {
            assert forall|s: Seq<u8>|
                s.len() == 32 && le_val(s) < nonce.value() implies !attempt_ok(
                old(header)@.subrange(0, 208),
                s,
                bits,
            ) by {
                if le_val(s) == le_val(prev) {
                    lemma_le_val_inj(s, prev);
                }
            }
        }
    }
}

/// A coinbase builder that pays the block subsidy to a pay-to-script-hash
/// style output and keeps the extranonce in the coinbase input's witness
/// stack.
pub struct P2shCoinbaseTransactionBuilder {
    pub transaction: Transaction,
}

impl P2shCoinbaseTransactionBuilder {
    /// A coinbase paying `value` to the script derived from a 20-byte
    /// script hash, with one coinbase input whose witness stack will carry
    /// the extranonce.
    pub fn new(script_hash: &Vec<u8>, value: u64) -> (r: Self)
        requires
            script_hash@.len() == 20,
        ensures
            r.wf(),
            r.transaction.version == 0,
            r.transaction.lock_time == 0,
            r.transaction.inputs@.len() == 1,
            r.transaction.inputs@[0].prevout.hash@ == crate::le_bytes::zero_bytes(32),
            r.transaction.inputs@[0].prevout.index == 0xffff_ffffu32,
            r.transaction.inputs@[0].sequence == 0xffff_ffffu32,
            r.transaction.inputs@[0].witness@.len() == 0,
            r.transaction.outputs@.len() == 1,
            r.transaction.outputs@[0].value == value,
            r.transaction.outputs@[0].script_pubkey@ =~= seq![0xa9u8, 0x14u8] + script_hash@
                + seq![0x87u8],
    {
        let mut script_pubkey: Vec<u8> = Vec::new();
        script_pubkey.push(0xa9);
        script_pubkey.push(0x14);
        let mut hash_bytes = crate::le_bytes::copy_bytes(script_hash);
        script_pubkey.append(&mut hash_bytes);
        script_pubkey.push(0x87);
        let coinbase_input = Input {
            prevout: Outpoint { hash: Hash256::zero(), index: 0xffff_ffff },
            sequence: 0xffff_ffff,
            witness: Vec::new(),
        };
        let mut inputs: Vec<Input> = Vec::new();
        inputs.push(coinbase_input);
        let mut outputs: Vec<Output> = Vec::new();
        outputs.push(Output { value, script_pubkey });
        let transaction = Transaction { version: 0, inputs, outputs, lock_time: 0 };
        P2shCoinbaseTransactionBuilder { transaction }
    }

}

impl CoinbaseTransactionBuilder for P2shCoinbaseTransactionBuilder {
    open spec fn coinbase(&self) -> Transaction {
        self.transaction
    }

    open spec fn coinbase_hash_with(&self, extranonce: Seq<u8>) -> Seq<u8> {
        crate::transaction::tx_hash_with_extranonce(self.transaction, extranonce)
    }

    /// The builder holds exactly one well-formed coinbase input.
    open spec fn wf(&self) -> bool {
        self.transaction.inputs@.len() == 1 && self.transaction.wf()
    }

    proof fn wf_coinbase_input(&self) {
    }

    fn set_extranonce(&mut self, extranonce: &Vec<u8>) {
        let current = &self.transaction.inputs[0];
        let mut witness: Vec<Vec<u8>> = Vec::new();
        witness.push(crate::le_bytes::copy_bytes(extranonce));
        proof {
            assert(witness.deep_view() =~~= seq![extranonce@]);
        }
        let replacement = Input {
            prevout: Outpoint {
                hash: current.prevout.hash.duplicate(),
                index: current.prevout.index,
            },
            sequence: current.sequence,
            witness,
        };
        let mut inputs: Vec<Input> = Vec::new();
        inputs.push(replacement);
        self.transaction.inputs = inputs;
        proof {
            let oldt = old(self).transaction;
            let newt = self.transaction;
            // the extranonce form of the encoding reads nothing the update
            // touched, so the hash-with map is unchanged
            assert forall|f: Seq<u8>| #[trigger] crate::transaction::tx_enc_with_extranonce(
                newt,
                f,
            ) == crate::transaction::tx_enc_with_extranonce(oldt, f) by {
                assert(crate::transaction::input_enc(newt.inputs@[0])
                    =~= crate::transaction::input_enc(oldt.inputs@[0]));
                assert(newt.inputs@.subrange(1, 1) =~= oldt.inputs@.subrange(1, 1));
                assert(crate::transaction::tx_enc_with_extranonce(newt, f)
                    =~= crate::transaction::tx_enc_with_extranonce(oldt, f));
            }
            // with the new witness in place, the ordinary serialization is
            // exactly the extranonce form
            assert(newt.inputs@[0].witness.deep_view() == seq![extranonce@]);
            crate::transaction::lemma_tx_enc_with_extranonce(newt, extranonce@);
        }
    }

    fn hash(&self) -> (h: Hash256) {
        self.transaction.hash()
    }

    fn finish(self) -> (t: Transaction) {
        self.transaction
    }
}

/// The hashes of the template's transactions, in template order.
pub open spec fn template_tx_hashes(block: BlockTemplate) -> Seq<Seq<u8>> {
    block.transactions@.map_values(|t: Transaction| tx_hash(t))
}

/// The pre-nonce header bytes the driver mines on for a given finalized
/// coinbase: the template's fields around the merkle root built from the
/// coinbase hash followed by the template's transaction hashes.
pub open spec fn driver_pre(block: BlockTemplate, coinbase: Transaction) -> Seq<u8> {
    header_pre(
        block.version,
        block.previous_header_hash@,
        merkle_root_spec(seq![tx_hash(coinbase)] + template_tx_hashes(block)),
        block.time,
        block.bits,
    )
}

/// The pre-nonce header bytes the driver mines on at a given extranonce:
/// the template's fields around the merkle root built from the hash the
/// builder's coinbase takes with that extranonce's little-endian bytes.
pub open spec fn pre_at<T: CoinbaseTransactionBuilder>(
    block: BlockTemplate,
    builder: T,
    extranonce: u32,
) -> Seq<u8> {
    header_pre(
        block.version,
        block.previous_header_hash@,
        merkle_root_spec(
            seq![builder.coinbase_hash_with(u32_le(extranonce))] + template_tx_hashes(block),
        ),
        block.time,
        block.bits,
    )
}

/// Search for a block that satisfies the template's difficulty.
///
/// For each extranonce from zero up to (not including) `max_extranonce`,
/// the coinbase's extra-nonce bytes are set to the extranonce's four
/// little-endian bytes, the merkle root is rebuilt from the new coinbase
/// hash and the template's transaction hashes, and the whole nonce space is
/// walked in increasing order. The first accepted attempt is returned at
/// once; when every extranonce is exhausted the search reports `None`.
pub fn find_solution<T: CoinbaseTransactionBuilder>(
    block: &BlockTemplate,
    coinbase_transaction_builder: T,
    max_extranonce: u32,
) -> (r: Option<Solution>)
    requires
        block.wf(),
        coinbase_transaction_builder.wf(),
    ensures
        max_extranonce == 0 ==> r is None,
        r is None ==> forall|e: u32, s: Seq<u8>|
            e < max_extranonce && s.len() == 32 ==> !attempt_ok(
                pre_at(*block, coinbase_transaction_builder, e),
                s,
                block.bits,
            ),
        r matches Some(sol) ==> {
            &&& sol.nonce.wf()
            &&& sol.extranonce < max_extranonce
            &&& sol.time == block.time
            &&& sol.coinbase_transaction.inputs@.len() >= 1
            &&& sol.coinbase_transaction.inputs@[0].witness.deep_view() =~~= seq![
                u32_le(sol.extranonce),
            ]
            &&& driver_pre(*block, sol.coinbase_transaction) == pre_at(
                *block,
                coinbase_transaction_builder,
                sol.extranonce,
            )
            &&& attempt_ok(
                driver_pre(*block, sol.coinbase_transaction),
                sol.nonce@,
                block.bits,
            )
            &&& forall|s: Seq<u8>|
                s.len() == 32 && le_val(s) < sol.nonce.value() ==> !attempt_ok(
                    driver_pre(*block, sol.coinbase_transaction),
                    s,
                    block.bits,
                )
            &&& forall|e: u32, s: Seq<u8>|
                e < sol.extranonce && s.len() == 32 ==> !attempt_ok(
                    pre_at(*block, coinbase_transaction_builder, e),
                    s,
                    block.bits,
                )
        },
{
    let mut builder = coinbase_transaction_builder;
    let mut header_bytes = BlockHeaderBytes::new(
        block.version,
        &block.previous_header_hash,
        block.bits,
    );
    let ghost h_new = header_bytes@;
    header_bytes.set_time(block.time);
    proof {
        let pre0 = header_pre(
            block.version,
            block.previous_header_hash@,
            crate::le_bytes::zero_bytes(32),
            0,
            block.bits,
        );
        assert forall|i: int| 0 <= i < 208 && !(196 <= i < 204) implies header_bytes@[i]
            == pre0[i] by {
            assert(header_bytes@[i] == h_new[i]);
            assert(h_new[i] == h_new.subrange(0, 208)[i]);
        }
        assert forall|i: int| 0 <= i < 4 implies header_bytes@.subrange(0, 4)[i]
            == crate::le_bytes::u32_le(block.version)[i] by {
            assert(header_bytes@[i] == pre0[i]);
        }
        assert(header_bytes@.subrange(0, 4) =~= crate::le_bytes::u32_le(block.version));
        assert forall|i: int| 0 <= i < 32 implies header_bytes@.subrange(4, 36)[i]
            == block.previous_header_hash@[i] by {
            assert(header_bytes@[i + 4] == pre0[i + 4]);
        }
        assert(header_bytes@.subrange(4, 36) =~= block.previous_header_hash@);
        assert forall|i: int| 68 <= i < 196 implies header_bytes@[i] == 0 by {
            assert(header_bytes@[i] == pre0[i]);
        }
        assert forall|i: int| 0 <= i < 4 implies header_bytes@.subrange(204, 208)[i]
            == crate::le_bytes::u32_le(block.bits)[i] by {
            assert(header_bytes@[i + 204] == pre0[i + 204]);
        }
        assert(header_bytes@.subrange(204, 208) =~= crate::le_bytes::u32_le(block.bits));
    }
    // hashes of the template's transactions, fixed for the whole search
    let mut tx_hashes: Vec<Hash256> = Vec::new();
    let mut k: usize = 0;
    while k < block.transactions.len()
        invariant
            k <= block.transactions@.len(),
            block.wf(),
            forall|i: int| 0 <= i < tx_hashes@.len() ==> (#[trigger] tx_hashes@[i]).wf(),
            tx_hashes.deep_view() == template_tx_hashes(*block).take(k as int),
        decreases block.transactions@.len() - k,
    {
        let ghost prev_dv = tx_hashes.deep_view();
        proof {
            assert(prev_dv.len() == tx_hashes@.len());
        }
        let tx_digest = block.transactions[k].hash();
        tx_hashes.push(tx_digest);
        proof {
            let dvnew = tx_hashes.deep_view();
            let rhs = template_tx_hashes(*block).take(k + 1);
            assert(dvnew.len() == tx_hashes@.len());
            assert(rhs.len() == k + 1);
            assert forall|i: int| 0 <= i < dvnew.len() implies dvnew[i] == rhs[i] by {
                if i < prev_dv.len() {
                    assert(dvnew[i] == prev_dv[i]);
                    assert(prev_dv[i] == template_tx_hashes(*block).take(k as int)[i]);
                } else {
                    assert(dvnew[i] == tx_digest@);
                    assert(rhs[i] == tx_hash(block.transactions@[k as int]));
                }
            }
            assert(dvnew =~= rhs);
        }
        k += 1;
    }
    proof {
        assert(template_tx_hashes(*block).take(block.transactions@.len() as int)
            =~= template_tx_hashes(*block));
    }
    let mut extranonce: u32 = 0;
    while extranonce < max_extranonce
        invariant
            block.wf(),
            builder.wf(),
            header_bytes.wf(),
            extranonce <= max_extranonce,
            forall|i: int| 0 <= i < tx_hashes@.len() ==> (#[trigger] tx_hashes@[i]).wf(),
            tx_hashes.deep_view() == template_tx_hashes(*block),
            forall|f: Seq<u8>| #[trigger] builder.coinbase_hash_with(f)
                == coinbase_transaction_builder.coinbase_hash_with(f),
            forall|e: u32, s: Seq<u8>|
                e < extranonce && s.len() == 32 ==> !attempt_ok(
                    pre_at(*block, coinbase_transaction_builder, e),
                    s,
                    block.bits,
                ),
            header_bytes@.subrange(0, 4) == crate::le_bytes::u32_le(block.version),
            header_bytes@.subrange(4, 36) == block.previous_header_hash@,
            forall|i: int| 68 <= i < 196 ==> header_bytes@[i] == 0,
            header_bytes@.subrange(196, 204) == crate::le_bytes::u64_le(block.time),
            header_bytes@.subrange(204, 208) == crate::le_bytes::u32_le(block.bits),
        decreases max_extranonce - extranonce,
    {
        let ghost h_top = header_bytes@;
        let extranonce_bytes = u32_to_le_bytes(extranonce);
        proof {
            builder.wf_coinbase_input();
        }
        builder.set_extranonce(&extranonce_bytes);
        let ghost cb = builder.coinbase();
        proof {
            assert(tx_hash(cb) == coinbase_transaction_builder.coinbase_hash_with(
                u32_le(extranonce),
            ));
        }
        let coinbase_hash = builder.hash();
        let merkle_root_hash = merkle_root(&coinbase_hash, &tx_hashes);
        header_bytes.set_merkle_root_hash(&merkle_root_hash);
        proof {
            assert(seq![coinbase_hash@] + tx_hashes.deep_view() == seq![tx_hash(cb)]
                + template_tx_hashes(*block));
            assert(merkle_root_hash@ == merkle_root_spec(
                seq![tx_hash(cb)] + template_tx_hashes(*block),
            ));
            assert(header_bytes@.subrange(0, 208) =~= header_pre(
                block.version,
                block.previous_header_hash@,
                merkle_root_hash@,
                block.time,
                block.bits,
            ));
            assert(header_bytes@.subrange(0, 208) == driver_pre(*block, cb));
            assert(driver_pre(*block, cb) == pre_at(
                *block,
                coinbase_transaction_builder,
                extranonce,
            ));
        }
        let ghost h_m = header_bytes@;
        let found = search_nonce(&mut header_bytes, block.bits);
        proof {
            assert forall|i: int| 0 <= i < 208 implies header_bytes@[i] == h_m[i] by {
                assert(header_bytes@.subrange(0, 208)[i] == h_m.subrange(0, 208)[i]);
            }
            assert forall|i: int| 0 <= i < 208 && !(36 <= i < 68) implies header_bytes@[i]
                == h_top[i] by {
                assert(h_m[i] == h_top[i]);
            }
            assert forall|i: int| 0 <= i < 4 implies header_bytes@.subrange(0, 4)[i]
                == h_top.subrange(0, 4)[i] by {
                assert(header_bytes@[i] == h_top[i]);
            }
            assert(header_bytes@.subrange(0, 4) =~= h_top.subrange(0, 4));
            assert forall|i: int| 0 <= i < 32 implies header_bytes@.subrange(4, 36)[i]
                == h_top.subrange(4, 36)[i] by {
                assert(header_bytes@[i + 4] == h_top[i + 4]);
            }
            assert(header_bytes@.subrange(4, 36) =~= h_top.subrange(4, 36));
            assert forall|i: int| 68 <= i < 196 implies header_bytes@[i] == 0 by {
                assert(header_bytes@[i] == h_top[i]);
            }
            assert forall|i: int| 0 <= i < 8 implies header_bytes@.subrange(196, 204)[i]
                == h_top.subrange(196, 204)[i] by {
                assert(header_bytes@[i + 196] == h_top[i + 196]);
            }
            assert(header_bytes@.subrange(196, 204) =~= h_top.subrange(196, 204));
            assert forall|i: int| 0 <= i < 4 implies header_bytes@.subrange(204, 208)[i]
                == h_top.subrange(204, 208)[i] by {
                assert(header_bytes@[i + 204] == h_top[i + 204]);
            }
            assert(header_bytes@.subrange(204, 208) =~= h_top.subrange(204, 208));
        }
        match found {
            Some(nonce) => {
                proof {
                    assert(attempt_ok(driver_pre(*block, cb), nonce@, block.bits));
                    assert(cb.inputs@.len() >= 1);
                    assert(cb.inputs@[0].witness.deep_view() =~~= seq![u32_le(extranonce)]);
                }
                let solution = Solution {
                    nonce,
                    extranonce,
                    time: block.time,
                    coinbase_transaction: builder.finish(),
                };
                proof {
                    assert(solution.coinbase_transaction == cb);
                }
                return Some(solution);
            },
            None => {
                proof {
                    assert forall|e: u32, s: Seq<u8>|
                        e < extranonce + 1 && s.len() == 32 implies !attempt_ok(
                        pre_at(*block, coinbase_transaction_builder, e),
                        s,
                        block.bits,
                    ) by {
                        if e == extranonce {
                            assert(!attempt_ok(h_m.subrange(0, 208), s, block.bits));
                        }
                    }
                }
            },
        }
        extranonce = extranonce + 1;
    }
    None
}

} // verus!
