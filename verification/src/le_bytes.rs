//! Little-endian byte strings read as unsigned integers: the value function,
//! the lemmas that comparison, increment and codec proofs rest on, and small
//! executable helpers over byte vectors.

use vstd::prelude::*;
use vstd::arithmetic::power::{pow, lemma_pow_positive, lemma_pow0, lemma_pow1, lemma_pow_adds};
use vstd::pervasive::VecAdditionalExecFns;

verus! {

/// The value of `s` read as a little-endian unsigned integer.
pub open spec fn le_val(s: Seq<u8>) -> nat
    decreases s.len(),
{
    if s.len() == 0 {
        0
    } else {
        s[0] as nat + 256 * le_val(s.subrange(1, s.len() as int))
    }
}

/// A sequence of `n` zero bytes.
pub open spec fn zero_bytes(n: nat) -> Seq<u8> {
    Seq::new(n, |i: int| 0u8)
}

/// The four bytes of `x`, least significant first.
pub open spec fn u32_le(x: u32) -> Seq<u8> {
    seq![
        (x & 0xff) as u8,
        ((x >> 8) & 0xff) as u8,
        ((x >> 16) & 0xff) as u8,
        ((x >> 24) & 0xff) as u8,
    ]
}

/// The eight bytes of `x`, least significant first.
pub open spec fn u64_le(x: u64) -> Seq<u8> {
    seq![
        (x & 0xff) as u8,
        ((x >> 8) & 0xff) as u8,
        ((x >> 16) & 0xff) as u8,
        ((x >> 24) & 0xff) as u8,
        ((x >> 32) & 0xff) as u8,
        ((x >> 40) & 0xff) as u8,
        ((x >> 48) & 0xff) as u8,
        ((x >> 56) & 0xff) as u8,
    ]
}

/// A value is bounded by 256 to the power of its length.
pub proof fn lemma_le_val_bound(s: Seq<u8>)
    ensures
        le_val(s) < pow(256, s.len()),
    decreases s.len(),
{
    if s.len() == 0 {
        lemma_pow0(256);
    } else {
        let t = s.subrange(1, s.len() as int);
        lemma_le_val_bound(t);
        lemma_pow_positive(256, t.len());
        lemma_pow1(256);
        lemma_pow_adds(256, 1, t.len());
        assert(pow(256, s.len()) == 256 * pow(256, t.len()));
        assert(s[0] as nat + 256 * le_val(t) < 256 * pow(256, t.len())) by (nonlinear_arith)
            requires
                le_val(t) < pow(256, t.len()),
                s[0] < 256,
                pow(256, t.len()) >= 1,
        ;
    }
}

/// An all-zero string has value zero.
pub proof fn lemma_le_val_zero(s: Seq<u8>)
    requires
        forall|i: int| 0 <= i < s.len() ==> s[i] == 0,
    ensures
        le_val(s) == 0,
    decreases s.len(),
{
    if s.len() > 0 {
        lemma_le_val_zero(s.subrange(1, s.len() as int));
    }
}

/// An all-0xff string has the largest value of its length.
pub proof fn lemma_le_val_ones(s: Seq<u8>)
    requires
        forall|i: int| 0 <= i < s.len() ==> s[i] == 0xff,
    ensures
        le_val(s) == pow(256, s.len()) - 1,
    decreases s.len(),
{
    if s.len() == 0 {
        lemma_pow0(256);
    } else {
        let t = s.subrange(1, s.len() as int);
        lemma_le_val_ones(t);
        lemma_pow_positive(256, t.len());
        lemma_pow1(256);
        lemma_pow_adds(256, 1, t.len());
        assert(pow(256, s.len()) == 256 * pow(256, t.len()));
    }
}

/// The value splits at any cut: low bytes plus a shifted high part.
pub proof fn lemma_le_val_split(s: Seq<u8>, k: int)
    requires
        0 <= k <= s.len(),
    ensures
        le_val(s) == le_val(s.subrange(0, k)) + pow(256, k as nat) * le_val(
            s.subrange(k, s.len() as int),
        ),
    decreases k,
{
    if k == 0 {
        assert(s.subrange(0, s.len() as int) =~= s);
        lemma_pow0(256);
    } else {
        let t = s.subrange(1, s.len() as int);
        lemma_le_val_split(t, k - 1);
        let a = s.subrange(0, k);
        assert(a.subrange(1, k) =~= t.subrange(0, k - 1));
        assert(t.subrange(k - 1, t.len() as int) =~= s.subrange(k, s.len() as int));
        let lo = le_val(t.subrange(0, k - 1));
        let hi = le_val(s.subrange(k, s.len() as int));
        let p = pow(256, (k - 1) as nat);
        assert(le_val(a) == a[0] as nat + 256 * le_val(a.subrange(1, k)));
        assert(le_val(t) == lo + p * hi);
        lemma_pow1(256);
        lemma_pow_adds(256, 1, (k - 1) as nat);
        assert(pow(256, k as nat) == 256 * p);
        assert(s[0] as nat + 256 * (lo + p * hi) == (s[0] as nat + 256 * lo) + (256 * p) * hi)
            by (nonlinear_arith);
    }
}

/// Strings of one length with one value are equal.
pub proof fn lemma_le_val_inj(s: Seq<u8>, t: Seq<u8>)
    requires
        s.len() == t.len(),
        le_val(s) == le_val(t),
    ensures
        s =~= t,
    decreases s.len(),
{
    if s.len() > 0 {
        let s1 = s.subrange(1, s.len() as int);
        let t1 = t.subrange(1, t.len() as int);
        assert(s[0] as nat + 256 * le_val(s1) == t[0] as nat + 256 * le_val(t1));
        assert(s[0] == t[0] && le_val(s1) == le_val(t1)) by (nonlinear_arith)
            requires
                s[0] as nat + 256 * le_val(s1) == t[0] as nat + 256 * le_val(t1),
                s[0] < 256,
                t[0] < 256,
        ;
        lemma_le_val_inj(s1, t1);
        assert(s1 == t1);
        assert forall|i: int| 0 <= i < s.len() implies s[i] == t[i] by {
            if i > 0 {
                assert(s1[i - 1] == s[i]);
                assert(t1[i - 1] == t[i]);
            }
        }
        assert(s =~= t);
    }
}

/// If two equal-length strings agree above position `i` and differ there,
/// the one with the smaller byte at `i` has the smaller value.
pub proof fn lemma_le_val_suffix_lt(s: Seq<u8>, t: Seq<u8>, i: int)
    requires
        s.len() == t.len(),
        0 <= i < s.len(),
        s.subrange(i + 1, s.len() as int) =~= t.subrange(i + 1, t.len() as int),
        s[i] < t[i],
    ensures
        le_val(s) < le_val(t),
{
    let n = s.len() as int;
    lemma_le_val_split(s, i);
    lemma_le_val_split(t, i);
    let p = pow(256, i as nat);
    lemma_pow_positive(256, i as nat);
    let ss = s.subrange(i, n);
    let ts = t.subrange(i, n);
    assert(ss.subrange(1, ss.len() as int) =~= s.subrange(i + 1, n));
    assert(ts.subrange(1, ts.len() as int) =~= t.subrange(i + 1, n));
    let r = le_val(s.subrange(i + 1, n));
    assert(le_val(ss) == ss[0] as nat + 256 * r);
    assert(le_val(ts) == ts[0] as nat + 256 * r);
    lemma_le_val_bound(s.subrange(0, i));
    lemma_le_val_bound(t.subrange(0, i));
    let alo = le_val(s.subrange(0, i));
    let blo = le_val(t.subrange(0, i));
    assert(alo + p * (s[i] as nat + 256 * r) < blo + p * (t[i] as nat + 256 * r))
        by (nonlinear_arith)
        requires
            alo < p,
            p >= 1,
            blo >= 0,
            s[i] < t[i],
            r >= 0,
    ;
}

/// A string that is zero outside an up-to-three-byte window at `p` has the
/// window's value shifted by `p` bytes; window bytes that fall outside the
/// string must be zero.
pub proof fn lemma_le_val_window(s: Seq<u8>, p: int, b0: u8, b1: u8, b2: u8)
    requires
        0 <= p < s.len(),
        s[p] == b0,
        if p + 1 < s.len() { s[p + 1] == b1 } else { b1 == 0 },
        if p + 2 < s.len() { s[p + 2] == b2 } else { b2 == 0 },
        forall|j: int| 0 <= j < s.len() && j != p && j != p + 1 && j != p + 2 ==> s[j] == 0,
    ensures
        le_val(s) == (b0 as nat + 256 * (b1 as nat) + 65536 * (b2 as nat)) * pow(256, p as nat),
{
    let n = s.len() as int;
    lemma_le_val_split(s, p);
    lemma_le_val_zero(s.subrange(0, p));
    let t = s.subrange(p, n);
    let t1 = t.subrange(1, t.len() as int);
    assert(le_val(t) == t[0] as nat + 256 * le_val(t1));
    if t1.len() == 0 {
        assert(le_val(t) == b0 as nat + 256 * (b1 as nat) + 65536 * (b2 as nat));
    } else {
        assert(t1[0] == s[p + 1]);
        let t2 = t1.subrange(1, t1.len() as int);
        assert(le_val(t1) == t1[0] as nat + 256 * le_val(t2));
        if t2.len() == 0 {
            assert(le_val(t) == b0 as nat + 256 * (b1 as nat) + 65536 * (b2 as nat));
        } else {
            assert(t2[0] == t1[1] == s[p + 2]);
            let t3 = t2.subrange(1, t2.len() as int);
            assert(forall|j: int| 0 <= j < t3.len() ==> t3[j] == s[p + 3 + j]);
            lemma_le_val_zero(t3);
            assert(le_val(t) == b0 as nat + 256 * (b1 as nat) + 65536 * (b2 as nat));
        }
    }
    lemma_pow_positive(256, p as nat);
    assert(0 + pow(256, p as nat) * le_val(t) == le_val(t) * pow(256, p as nat))
        by (nonlinear_arith);
}

/// Copy of a byte vector.
pub fn copy_bytes(v: &Vec<u8>) -> (r: Vec<u8>)
    ensures
        r@ == v@,
{
    let mut r: Vec<u8> = Vec::new();
    let mut i: usize = 0;
    while i < v.len()
        invariant
            i <= v@.len(),
            r@ == v@.subrange(0, i as int),
        decreases v@.len() - i,
    {
        r.push(v[i]);
        assert(v@.subrange(0, i + 1) =~= v@.subrange(0, i as int).push(v@[i as int]));
        i += 1;
    }
    assert(v@.subrange(0, v@.len() as int) =~= v@);
    r
}

/// The bytes of `v` from `a` (included) to `b` (excluded).
pub fn sub_bytes(v: &Vec<u8>, a: usize, b: usize) -> (r: Vec<u8>)
    requires
        a <= b <= v@.len(),
    ensures
        r@ == v@.subrange(a as int, b as int),
{
    let mut r: Vec<u8> = Vec::new();
    let mut i: usize = a;
    while i < b
        invariant
            a <= i <= b <= v@.len(),
            r@ == v@.subrange(a as int, i as int),
        decreases b - i,
    {
        r.push(v[i]);
        assert(v@.subrange(a as int, i + 1) =~= v@.subrange(a as int, i as int).push(
            v@[i as int],
        ));
        i += 1;
    }
    r
}

/// Overwrite `dst[off .. off + src.len()]` with `src`, leaving every other
/// byte unchanged.
pub fn write_range(dst: &mut Vec<u8>, off: usize, src: &Vec<u8>)
    requires
        off + src@.len() <= old(dst)@.len(),
    ensures
        final(dst)@.len() == old(dst)@.len(),
        forall|j: int| 0 <= j < src@.len() ==> final(dst)@[off + j] == src@[j],
        forall|j: int|
            0 <= j < old(dst)@.len() && !(off <= j < off + src@.len()) ==> final(dst)@[j] == old(
                dst,
            )@[j],
{
    let dlen: usize = dst.len();
    let mut i: usize = 0;
    while i < src.len()
        invariant
            i <= src@.len(),
            dst@.len() == dlen,
            off + src@.len() <= dst@.len(),
            dst@.len() == old(dst)@.len(),
            forall|j: int| 0 <= j < i ==> dst@[off + j] == src@[j],
            forall|j: int|
                0 <= j < old(dst)@.len() && !(off <= j < off + src@.len()) ==> dst@[j] == old(
                    dst,
                )@[j],
        decreases src@.len() - i,
    {
        dst.set(off + i, src[i]);
        i += 1;
    }
}

/// Compare two equal-length strings as little-endian integers.
pub fn le_bytes_le(a: &Vec<u8>, b: &Vec<u8>) -> (r: bool)
    requires
        a@.len() == b@.len(),
    ensures
        r == (le_val(a@) <= le_val(b@)),
{
    let n = a.len();
    let mut i: usize = n;
    while i > 0
        invariant
            i <= n,
            n == a@.len() == b@.len(),
            forall|j: int| i <= j < n ==> a@[j] == b@[j],
        decreases i,
    {
        i = i - 1;
        if a[i] < b[i] {
            proof {
                assert(a@.subrange(i + 1, n as int) =~= b@.subrange(i + 1, n as int));
                lemma_le_val_suffix_lt(a@, b@, i as int);
            }
            return true;
        }
        if a[i] > b[i] {
            proof {
                assert(b@.subrange(i + 1, n as int) =~= a@.subrange(i + 1, n as int));
                lemma_le_val_suffix_lt(b@, a@, i as int);
            }
            return false;
        }
    }
    proof {
        assert(a@ =~= b@);
    }
    true
}

/// The four little-endian bytes of `x`.
pub fn u32_to_le_bytes(x: u32) -> (r: Vec<u8>)
    ensures
        r@ == u32_le(x),
{
    let mut r: Vec<u8> = Vec::new();
    r.push((x & 0xff) as u8);
    r.push(((x >> 8) & 0xff) as u8);
    r.push(((x >> 16) & 0xff) as u8);
    r.push(((x >> 24) & 0xff) as u8);
    proof {
        assert(r@ =~= u32_le(x));
    }
    r
}

/// The eight little-endian bytes of `x`.
pub fn u64_to_le_bytes(x: u64) -> (r: Vec<u8>)
    ensures
        r@ == u64_le(x),
{
    let mut r: Vec<u8> = Vec::new();
    r.push((x & 0xff) as u8);
    r.push(((x >> 8) & 0xff) as u8);
    r.push(((x >> 16) & 0xff) as u8);
    r.push(((x >> 24) & 0xff) as u8);
    r.push(((x >> 32) & 0xff) as u8);
    r.push(((x >> 40) & 0xff) as u8);
    r.push(((x >> 48) & 0xff) as u8);
    r.push(((x >> 56) & 0xff) as u8);
    proof {
        assert(r@ =~= u64_le(x));
    }
    r
}

} // verus!
