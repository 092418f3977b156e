//! The transaction data model the miner works over: outpoints, inputs with
//! their witness stacks, outputs, and whole transactions, each with an exact
//! binary encoding and a hash over it. The 40-byte input wire form carries
//! the outpoint and sequence only; witness data is serialized at the
//! transaction level.

use vstd::prelude::*;
use crate::le_bytes::{u32_le, u64_le, u32_to_le_bytes, u64_to_le_bytes, sub_bytes, copy_bytes};
use crate::types::Hash256;
use crate::digest::{blake2b256, blake2b256_of};

verus! {

/// A reference to a previous transaction output.
#[derive(Debug)]
pub struct Outpoint {
    pub hash: Hash256,
    pub index: u32,
}

/// A transaction input: the outpoint it spends, its sequence number, and
/// its witness stack. A coinbase input's first witness item is the miner's
/// extranonce placeholder.
#[derive(Debug)]
pub struct Input {
    pub prevout: Outpoint,
    pub sequence: u32,
    pub witness: Vec<Vec<u8>>,
}

/// A transaction output: a value in base units and the script that locks it.
#[derive(Debug)]
pub struct Output {
    pub value: u64,
    pub script_pubkey: Vec<u8>,
}

/// A transaction: version, inputs, outputs and lock time.
#[derive(Debug)]
pub struct Transaction {
    pub version: u32,
    pub inputs: Vec<Input>,
    pub outputs: Vec<Output>,
    pub lock_time: u32,
}

/// Why a decode failed.
#[derive(Debug, PartialEq, Eq, Structural)]
pub enum DecodeError {
    /// The buffer ends before the field being read.
    UnexpectedEnd,
}

/// The 36-byte wire form of an outpoint: hash, then index.
pub open spec fn outpoint_enc(o: Outpoint) -> Seq<u8> {
    o.hash@ + u32_le(o.index)
}

/// The 40-byte wire form of an input: outpoint, then sequence; the witness
/// stack is not part of it.
pub open spec fn input_enc(i: Input) -> Seq<u8> {
    outpoint_enc(i.prevout) + u32_le(i.sequence)
}

/// The serialized items of one witness stack: each item length-prefixed.
pub open spec fn witness_items_enc(w: Seq<Seq<u8>>) -> Seq<u8>
    decreases w.len(),
{
    if w.len() == 0 {
        Seq::empty()
    } else {
        witness_items_enc(w.drop_last()) + u64_le(w.last().len() as u64) + w.last()
    }
}

/// An input together with its witness stack: wire form, item count, items.
pub open spec fn input_full_enc(i: Input) -> Seq<u8> {
    input_enc(i) + u64_le(i.witness@.len() as u64) + witness_items_enc(i.witness.deep_view())
}

/// The serialized form of an output: value, script length, script.
pub open spec fn output_enc(o: Output) -> Seq<u8> {
    u64_le(o.value) + u64_le(o.script_pubkey@.len() as u64) + o.script_pubkey@
}

/// All inputs of a transaction in order, witness stacks included.
pub open spec fn inputs_enc(s: Seq<Input>) -> Seq<u8>
    decreases s.len(),
{
    if s.len() == 0 {
        Seq::empty()
    } else {
        inputs_enc(s.drop_last()) + input_full_enc(s.last())
    }
}

/// All outputs of a transaction in order.
pub open spec fn outputs_enc(s: Seq<Output>) -> Seq<u8>
    decreases s.len(),
{
    if s.len() == 0 {
        Seq::empty()
    } else {
        outputs_enc(s.drop_last()) + output_enc(s.last())
    }
}

/// The serialized form of a whole transaction: version, input count,
/// inputs, output count, outputs, lock time.
pub open spec fn tx_enc(t: Transaction) -> Seq<u8> {
    u32_le(t.version) + u64_le(t.inputs@.len() as u64) + inputs_enc(t.inputs@) + u64_le(
        t.outputs@.len() as u64,
    ) + outputs_enc(t.outputs@) + u32_le(t.lock_time)
}

/// The hash of a transaction: the unkeyed 256-bit BLAKE2b digest of its
/// serialized form.
pub open spec fn tx_hash(t: Transaction) -> Seq<u8> {
    blake2b256_of(Seq::empty(), tx_enc(t))
}

impl Outpoint {
    /// The outpoint's hash holds 32 bytes.
    pub open spec fn wf(&self) -> bool {
        self.hash.wf()
    }

    /// Serialize this outpoint into its 36-byte wire form.
    pub fn encode(&self) -> (r: Vec<u8>)
        ensures
            r@ == outpoint_enc(*self),
    {
        let mut r = copy_bytes(&self.hash.bytes);
        let mut idx = u32_to_le_bytes(self.index);
        r.append(&mut idx);
        r
    }
}

impl Input {
    /// The input's outpoint hash holds 32 bytes.
    pub open spec fn wf(&self) -> bool {
        self.prevout.wf()
    }

    /// The size of the input's wire form: outpoint (36) and sequence (4).
    pub fn size(&self) -> (r: u32)
        ensures
            r == 40,
            self.wf() ==> input_enc(*self).len() == r,
    {
        40
    }

    /// Serialize this input into its wire form, without its witness stack.
    pub fn encode(&self) -> (r: Vec<u8>)
        ensures
            r@ == input_enc(*self),
    {
        let mut r = self.prevout.encode();
        let mut seq_bytes = u32_to_le_bytes(self.sequence);
        r.append(&mut seq_bytes);
        r
    }

    /// Read an input's wire form from `data` at `offset`: the input with an
    /// empty witness stack and the offset just past it, or an error when
    /// fewer than 40 bytes remain.
    pub fn decode(data: &Vec<u8>, offset: usize) -> (r: Result<(Input, usize), DecodeError>)
        ensures
            r is Ok <==> offset + 40 <= data@.len(),
            r matches Ok((inp, next)) ==> {
                &&& next == offset + 40
                &&& inp.wf()
                &&& inp.prevout.hash@ == data@.subrange(offset as int, offset + 32)
                &&& u32_le(inp.prevout.index) == data@.subrange(offset + 32, offset + 36)
                &&& u32_le(inp.sequence) == data@.subrange(offset + 36, offset + 40)
                &&& inp.witness@.len() == 0
            },
            r matches Err(e) ==> e == DecodeError::UnexpectedEnd,
    {
        if data.len() < 40 || offset > data.len() - 40 {
            return Err(DecodeError::UnexpectedEnd);
        }
        let hash_bytes = sub_bytes(data, offset, offset + 32);
        let index = read_u32_le(data, offset + 32);
        let sequence = read_u32_le(data, offset + 36);
        let inp = Input {
            prevout: Outpoint { hash: Hash256::new(hash_bytes), index },
            sequence,
            witness: Vec::new(),
        };
        Ok((inp, offset + 40))
    }
}


/// The serialized form of an input carrying a single-item witness stack
/// holding `f`: its wire form, the item count one, and the item.
pub open spec fn coinbase_input_enc(i: Input, f: Seq<u8>) -> Seq<u8> {
    input_enc(i) + u64_le(1) + u64_le(f.len() as u64) + f
}

/// The serialized form of `t` with its first input's witness stack replaced
/// by the single extra-nonce item `f`; everything the witness does not
/// cover is read from `t` itself.
pub open spec fn tx_enc_with_extranonce(t: Transaction, f: Seq<u8>) -> Seq<u8>
    recommends
        t.inputs@.len() >= 1,
{
    u32_le(t.version) + u64_le(t.inputs@.len() as u64) + coinbase_input_enc(t.inputs@[0], f)
        + inputs_enc(t.inputs@.subrange(1, t.inputs@.len() as int)) + u64_le(
        t.outputs@.len() as u64,
    ) + outputs_enc(t.outputs@) + u32_le(t.lock_time)
}

/// The hash `t` would have with the extra-nonce item `f` in its first
/// input's witness stack.
pub open spec fn tx_hash_with_extranonce(t: Transaction, f: Seq<u8>) -> Seq<u8> {
    blake2b256_of(Seq::empty(), tx_enc_with_extranonce(t, f))
}

/// The serialized inputs split as the first input followed by the rest.
pub proof fn lemma_inputs_enc_head(s: Seq<Input>)
    requires
        s.len() >= 1,
    ensures
        inputs_enc(s) == input_full_enc(s[0]) + inputs_enc(s.subrange(1, s.len() as int)),
    decreases s.len(),
{
    if s.len() == 1 {
        assert(s.drop_last().len() == 0);
        assert(inputs_enc(s.drop_last()) =~= Seq::<u8>::empty());
        assert(s.subrange(1, 1).len() == 0);
        assert(inputs_enc(s.subrange(1, 1)) =~= Seq::<u8>::empty());
        assert(s.last() == s[0]);
        assert(inputs_enc(s) == inputs_enc(s.drop_last()) + input_full_enc(s.last()));
        assert(inputs_enc(s) =~= input_full_enc(s[0]) + inputs_enc(s.subrange(1, 1)));
    } else {
        let d = s.drop_last();
        lemma_inputs_enc_head(d);
        let tail = s.subrange(1, s.len() as int);
        assert(d[0] == s[0]);
        assert(d.subrange(1, d.len() as int) =~= tail.drop_last());
        assert(tail.last() == s.last());
        assert(inputs_enc(s) == inputs_enc(d) + input_full_enc(s.last()));
        assert(inputs_enc(d) == input_full_enc(s[0]) + inputs_enc(tail.drop_last()));
        assert(tail.len() >= 1);
        assert(inputs_enc(tail) == inputs_enc(tail.drop_last()) + input_full_enc(tail.last()));
        assert(inputs_enc(s) =~= input_full_enc(s[0]) + inputs_enc(tail));
    }
}

/// When the first input's witness stack holds exactly the item `f`, the
/// ordinary serialization equals the extranonce form.
pub proof fn lemma_tx_enc_with_extranonce(t: Transaction, f: Seq<u8>)
    requires
        t.inputs@.len() >= 1,
        t.inputs@[0].witness.deep_view() == seq![f],
    ensures
        tx_enc(t) == tx_enc_with_extranonce(t, f),
{
    lemma_inputs_enc_head(t.inputs@);
    let i0 = t.inputs@[0];
    let w = i0.witness.deep_view();
    assert(i0.witness@.len() == w.len());
    assert(w.len() == 1);
    assert(w.drop_last().len() == 0);
    assert(witness_items_enc(w.drop_last()) =~= Seq::<u8>::empty());
    assert(w.last() == f);
    assert(witness_items_enc(w) == witness_items_enc(w.drop_last()) + u64_le(
        w.last().len() as u64,
    ) + w.last());
    assert(witness_items_enc(w) =~= u64_le(f.len() as u64) + f);
    assert(input_full_enc(i0) =~= coinbase_input_enc(i0, f));
    assert(tx_enc(t) =~= tx_enc_with_extranonce(t, f));
}

/// Read four little-endian bytes at `pos` as a `u32`.
pub fn read_u32_le(data: &Vec<u8>, pos: usize) -> (r: u32)
    requires
        pos + 4 <= data@.len(),
    ensures
        u32_le(r) == data@.subrange(pos as int, pos + 4),
{
    let n = data.len();
    assert(pos + 4 <= n);
    let b0 = data[pos];
    let b1 = data[pos + 1];
    let b2 = data[pos + 2];
    let b3 = data[pos + 3];
    let r = (b0 as u32) | ((b1 as u32) << 8) | ((b2 as u32) << 16) | ((b3 as u32) << 24);
    proof {
        assert(r & 0xff == b0 && (r >> 8) & 0xff == b1 && (r >> 16) & 0xff == b2 && (r >> 24)
            & 0xff == b3) by (bit_vector)
            requires
                r == (b0 as u32) | ((b1 as u32) << 8) | ((b2 as u32) << 16) | ((b3 as u32)
                    << 24),
        ;
        assert(u32_le(r) =~= data@.subrange(pos as int, pos + 4));
    }
    r
}

/// Serialize one witness stack: item count, then each item with its length.
fn encode_witness(w: &Vec<Vec<u8>>) -> (r: Vec<u8>)
    ensures
        r@ == u64_le(w@.len() as u64) + witness_items_enc(w.deep_view()),
{
    let mut r = u64_to_le_bytes(w.len() as u64);
    let ghost prefix = r@;
    let mut j: usize = 0;
    while j < w.len()
        invariant
            j <= w@.len(),
            r@ == prefix + witness_items_enc(w.deep_view().take(j as int)),
        decreases w@.len() - j,
    {
        let item = &w[j];
        let mut len_bytes = u64_to_le_bytes(item.len() as u64);
        r.append(&mut len_bytes);
        let mut item_bytes = copy_bytes(item);
        r.append(&mut item_bytes);
        proof {
            let dv = w.deep_view();
            assert(dv.take(j + 1).drop_last() =~= dv.take(j as int));
            assert(dv.take(j + 1).last() == dv[j as int]);
            assert(dv[j as int] == w@[j as int]@);
        }
        j += 1;
    }
    proof {
        assert(w.deep_view().take(w@.len() as int) =~= w.deep_view());
    }
    r
}

/// Serialize an input together with its witness stack.
fn encode_input_full(i: &Input) -> (r: Vec<u8>)
    ensures
        r@ == input_full_enc(*i),
{
    let mut r = i.encode();
    let mut wit = encode_witness(&i.witness);
    r.append(&mut wit);
    r
}

impl Output {
    /// Serialize this output: value, script length, script.
    pub fn encode(&self) -> (r: Vec<u8>)
        ensures
            r@ == output_enc(*self),
    {
        let mut r = u64_to_le_bytes(self.value);
        let mut len_bytes = u64_to_le_bytes(self.script_pubkey.len() as u64);
        r.append(&mut len_bytes);
        let mut script = copy_bytes(&self.script_pubkey);
        r.append(&mut script);
        r
    }
}

impl Transaction {
    /// Every input's outpoint hash holds 32 bytes.
    pub open spec fn wf(&self) -> bool {
        forall|i: int| 0 <= i < self.inputs@.len() ==> self.inputs@[i].wf()
    }

    /// Serialize this transaction: version, input count, inputs with their
    /// witness stacks, output count, outputs, lock time.
    pub fn encode(&self) -> (r: Vec<u8>)
        ensures
            r@ == tx_enc(*self),
    {
        let mut r = u32_to_le_bytes(self.version);
        let mut in_count = u64_to_le_bytes(self.inputs.len() as u64);
        r.append(&mut in_count);
        let ghost prefix_in = r@;
        let mut i: usize = 0;
        while i < self.inputs.len()
            invariant
                i <= self.inputs@.len(),
                r@ == prefix_in + inputs_enc(self.inputs@.take(i as int)),
            decreases self.inputs@.len() - i,
        {
            let mut one = encode_input_full(&self.inputs[i]);
            r.append(&mut one);
            proof {
                assert(self.inputs@.take(i + 1).drop_last() =~= self.inputs@.take(i as int));
                assert(self.inputs@.take(i + 1).last() == self.inputs@[i as int]);
            }
            i += 1;
        }
        proof {
            assert(self.inputs@.take(self.inputs@.len() as int) =~= self.inputs@);
        }
        let mut out_count = u64_to_le_bytes(self.outputs.len() as u64);
        r.append(&mut out_count);
        let ghost prefix_out = r@;
        let mut j: usize = 0;
        while j < self.outputs.len()
            invariant
                j <= self.outputs@.len(),
                r@ == prefix_out + outputs_enc(self.outputs@.take(j as int)),
            decreases self.outputs@.len() - j,
        {
            let mut one = self.outputs[j].encode();
            r.append(&mut one);
            proof {
                assert(self.outputs@.take(j + 1).drop_last() =~= self.outputs@.take(j as int));
                assert(self.outputs@.take(j + 1).last() == self.outputs@[j as int]);
            }
            j += 1;
        }
        proof {
            assert(self.outputs@.take(self.outputs@.len() as int) =~= self.outputs@);
        }
        let mut lock_bytes = u32_to_le_bytes(self.lock_time);
        r.append(&mut lock_bytes);
        proof {
            assert(r@ =~= tx_enc(*self));
        }
        r
    }

    /// The transaction's hash: the unkeyed BLAKE2b digest of its serialized
    /// form.
    pub fn hash(&self) -> (r: Hash256)
        ensures
            r.wf(),
            r@ == tx_hash(*self),
    {
        let enc = self.encode();
        let key: Vec<u8> = Vec::new();
        let digest = blake2b256(&key, &enc);
        Hash256::new(digest)
    }
}

} // verus!
