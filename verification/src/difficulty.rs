//! The compact difficulty codec and the proof-of-work acceptance predicate:
//! a 32-bit `bits` value packs a target as an 8-bit exponent and a 24-bit
//! mantissa; a header hash, read as a little-endian 256-bit integer, is
//! accepted when it does not exceed the decoded target.

use vstd::prelude::*;
use vstd::arithmetic::power::{
    pow, lemma_pow0, lemma_pow1, lemma_pow_adds, lemma_pow_positive, lemma_pow_increases,
};
use vstd::pervasive::VecAdditionalExecFns;
use crate::le_bytes::{
    le_val, lemma_le_val_bound, lemma_le_val_window, lemma_le_val_inj, le_bytes_le,
};
use crate::types::{Hash256, Uint256, u256_max};

verus! {

/// The 8-bit exponent packed into a compact difficulty value.
pub open spec fn bits_exponent(bits: u32) -> u32 {
    bits >> 24
}

/// The 24-bit mantissa packed into a compact difficulty value.
pub open spec fn bits_mantissa(bits: u32) -> u32 {
    bits & 0x00ff_ffff
}

/// The target a compact value denotes: the mantissa scaled by 256 to the
/// exponent less three, so that an exponent of three places the mantissa in
/// the lowest bytes.
pub open spec fn target_value(bits: u32) -> nat {
    let e = bits_exponent(bits);
    let m = bits_mantissa(bits);
    if e >= 3 {
        (m * pow(256, (e - 3) as nat)) as nat
    } else {
        (m as nat) / (pow(256, (3 - e) as nat) as nat)
    }
}

/// A compact value is valid when its sign bit is clear and it denotes a
/// nonzero target that fits in 256 bits.
pub open spec fn valid_bits(bits: u32) -> bool {
    &&& bits_mantissa(bits) & 0x0080_0000 == 0
    &&& target_value(bits) != 0
    &&& target_value(bits) <= u256_max()
}

/// Whether a candidate hash, read as a little-endian 256-bit integer, meets
/// the target that `bits` encodes; an undecodable `bits` accepts nothing.
pub open spec fn pow_accepted(hash: Seq<u8>, bits: u32) -> bool {
    valid_bits(bits) && le_val(hash) <= target_value(bits)
}

/// 256 to the powers that fit a mantissa window.
proof fn lemma_pow256_small()
    ensures
        pow(256, 0) == 1,
        pow(256, 1) == 256,
        pow(256, 2) == 65536,
        pow(256, 3) == 0x100_0000,
{
    lemma_pow0(256);
    lemma_pow1(256);
    lemma_pow_adds(256, 1, 1);
    lemma_pow_adds(256, 1, 2);
}

/// Decode a compact difficulty value into its 256-bit target: the mantissa
/// bytes stand at offset exponent-minus-three, little-endian. Values whose
/// sign bit is set, whose target is zero, or whose target overflows 256
/// bits do not decode.
pub fn bits_to_target(bits: u32) -> (r: Option<Uint256>)
    ensures
        r is Some <==> valid_bits(bits),
        r matches Some(t) ==> t.wf() && t.value() == target_value(bits),
{
    let exp = bits >> 24;
    let mantissa = bits & 0x00ff_ffff;
    if mantissa & 0x0080_0000 != 0 {
        return None;
    }
    proof {
        lemma_pow256_small();
    }
    if exp >= 3 {
        if mantissa == 0 {
            proof {
                assert(0 * pow(256, (exp - 3) as nat) == 0) by (nonlinear_arith);
            }
            return None;
        }
        if exp > 34 || (exp == 34 && mantissa > 0xff) || (exp == 33 && mantissa > 0xffff) {
            proof {
                lemma_target_overflows(bits);
            }
            return None;
        }
        let p = (exp - 3) as usize;
        let m0 = (mantissa & 0xff) as u8;
        let m1 = ((mantissa >> 8) & 0xff) as u8;
        let m2 = ((mantissa >> 16) & 0xff) as u8;
        let mut tb: Vec<u8> = vec![0u8; 32];
        tb.set(p, m0);
        if p + 1 < 32 {
            tb.set(p + 1, m1);
        }
        if p + 2 < 32 {
            tb.set(p + 2, m2);
        }
        proof {
            assert(p + 1 < 32 || m1 == 0) by (bit_vector)
                requires
                    p == ((bits >> 24) - 3) as usize,
                    m1 == (((bits & 0x00ff_ffff) >> 8) & 0xff) as u8,
                    (bits >> 24) >= 3,
                    !((bits >> 24) > 34 || ((bits >> 24) == 34 && (bits & 0x00ff_ffff) > 0xff)
                        || ((bits >> 24) == 33 && (bits & 0x00ff_ffff) > 0xffff)),
            ;
            assert(p + 2 < 32 || m2 == 0) by (bit_vector)
                requires
                    p == ((bits >> 24) - 3) as usize,
                    m2 == (((bits & 0x00ff_ffff) >> 16) & 0xff) as u8,
                    (bits >> 24) >= 3,
                    !((bits >> 24) > 34 || ((bits >> 24) == 34 && (bits & 0x00ff_ffff) > 0xff)
                        || ((bits >> 24) == 33 && (bits & 0x00ff_ffff) > 0xffff)),
            ;
            lemma_le_val_window(tb@, p as int, m0, m1, m2);
            assert(mantissa == m0 as nat + 256 * (m1 as nat) + 65536 * (m2 as nat))
                by (bit_vector)
                requires
                    mantissa == bits & 0x00ff_ffff,
                    m0 == (mantissa & 0xff) as u8,
                    m1 == ((mantissa >> 8) & 0xff) as u8,
                    m2 == ((mantissa >> 16) & 0xff) as u8,
            ;
            lemma_le_val_bound(tb@);
            lemma_pow_positive(256, (exp - 3) as nat);
            assert(mantissa * pow(256, (exp - 3) as nat) >= 1) by (nonlinear_arith)
                requires
                    mantissa >= 1,
                    pow(256, (exp - 3) as nat) >= 1,
            ;
        }
        Some(Uint256::from_le_bytes(tb))
    } else {
        let shifted: u32 = if exp == 2 {
            proof {
                assert((bits & 0x00ff_ffff) >> 8 == (bits & 0x00ff_ffff) / 256 && (bits
                    & 0x00ff_ffff) >> 8 <= 0x00ff_ffff) by (bit_vector);
            }
            mantissa >> 8
        } else if exp == 1 {
            proof {
                assert((bits & 0x00ff_ffff) >> 16 == (bits & 0x00ff_ffff) / 65536 && (bits
                    & 0x00ff_ffff) >> 16 <= 0x00ff_ffff) by (bit_vector);
            }
            mantissa >> 16
        } else {
            proof {
                assert((bits & 0x00ff_ffff) >> 24 == (bits & 0x00ff_ffff) / 0x100_0000 && (bits
                    & 0x00ff_ffff) >> 24 <= 0x00ff_ffff) by (bit_vector);
            }
            mantissa >> 24
        };
        if shifted == 0 {
            return None;
        }
        let s0 = (shifted & 0xff) as u8;
        let s1 = ((shifted >> 8) & 0xff) as u8;
        let s2 = ((shifted >> 16) & 0xff) as u8;
        let mut tb: Vec<u8> = vec![0u8; 32];
        tb.set(0, s0);
        tb.set(1, s1);
        tb.set(2, s2);
        proof {
            lemma_le_val_window(tb@, 0, s0, s1, s2);
            assert(shifted == s0 as nat + 256 * (s1 as nat) + 65536 * (s2 as nat))
                by (bit_vector)
                requires
                    shifted <= 0x00ff_ffff,
                    s0 == (shifted & 0xff) as u8,
                    s1 == ((shifted >> 8) & 0xff) as u8,
                    s2 == ((shifted >> 16) & 0xff) as u8,
            ;
            lemma_le_val_bound(tb@);
        }
        Some(Uint256::from_le_bytes(tb))
    }
}

/// A compact value caught by the overflow test denotes a target above the
/// 256-bit range.
proof fn lemma_target_overflows(bits: u32)
    requires
        bits_exponent(bits) >= 3,
        bits_mantissa(bits) >= 1,
        bits_exponent(bits) > 34 || (bits_exponent(bits) == 34 && bits_mantissa(bits) > 0xff)
            || (bits_exponent(bits) == 33 && bits_mantissa(bits) > 0xffff),
    ensures
        target_value(bits) > u256_max(),
{
    let e = (bits_exponent(bits) - 3) as nat;
    let m = bits_mantissa(bits) as nat;
    lemma_pow256_small();
    lemma_pow_positive(256, e);
    lemma_pow_positive(256, 32);
    assert(target_value(bits) == m * pow(256, e));
    if bits_exponent(bits) > 34 {
        lemma_pow_increases(256, 32, e);
        assert(m * pow(256, e) >= 1 * pow(256, e)) by (nonlinear_arith)
            requires
                m >= 1,
                pow(256, e) >= 1,
        ;
        assert(m * pow(256, e) >= pow(256, 32));
    } else if bits_exponent(bits) == 34 {
        lemma_pow_adds(256, 1, 31);
        assert(m * pow(256, 31) >= 256 * pow(256, 31)) by (nonlinear_arith)
            requires
                m >= 256,
                pow(256, 31) >= 1,
        ;
        assert(256 * pow(256, 31) == pow(256, 32));
        assert(m * pow(256, e) >= pow(256, 32));
    } else {
        lemma_pow_adds(256, 2, 30);
        assert(m * pow(256, 30) >= 65536 * pow(256, 30)) by (nonlinear_arith)
            requires
                m >= 65536,
                pow(256, 30) >= 1,
        ;
        assert(65536 * pow(256, 30) == pow(256, 32));
        assert(m * pow(256, e) >= pow(256, 32));
    }
    assert(u256_max() < pow(256, 32));
}

/// The proof-of-work acceptance test: true exactly when `bits` decodes and
/// the hash, as a little-endian integer, is at most the target. The single
/// source of truth for acceptance, shared by mining and block validation.
pub fn verify_pow(hash: &Hash256, bits: u32) -> (r: bool)
    requires
        hash.wf(),
    ensures
        r == pow_accepted(hash@, bits),
{
    match bits_to_target(bits) {
        Some(target) => le_bytes_le(&hash.bytes, &target.bytes),
        None => false,
    }
}

/// The 32-byte string holding a below-2^24 value `c` at byte offset `p`,
/// zero elsewhere.
pub open spec fn window_bytes(c: u32, p: int) -> Seq<u8> {
    Seq::new(
        32,
        |i: int|
            if i == p {
                (c & 0xff) as u8
            } else if i == p + 1 {
                ((c >> 8) & 0xff) as u8
            } else if i == p + 2 {
                ((c >> 16) & 0xff) as u8
            } else {
                0u8
            },
    )
}

/// A window value placed at byte offset `p` that stays inside 256 bits sits
/// inside the 32 bytes, and the string's value is the shifted window value.
proof fn lemma_window_value(c: u32, p: int)
    requires
        0 <= p,
        1 <= c < 0x100_0000,
        (c as nat) * pow(256, p as nat) <= u256_max(),
    ensures
        p < 32,
        le_val(window_bytes(c, p)) == (c as nat) * pow(256, p as nat),
        p + 1 >= 32 ==> ((c >> 8) & 0xff == 0 && (c >> 16) & 0xff == 0),
        p + 2 >= 32 ==> (c >> 16) & 0xff == 0,
{
    lemma_pow256_small();
    lemma_pow_positive(256, p as nat);
    lemma_pow_positive(256, 32);
    assert(p < 32) by {
        if p >= 32 {
            lemma_pow_increases(256, 32, p as nat);
            assert(c as nat * pow(256, p as nat) >= 1 * pow(256, p as nat)) by (nonlinear_arith)
                requires
                    c >= 1,
                    pow(256, p as nat) >= 1,
            ;
            assert(false);
        }
    }
    let b0 = (c & 0xff) as u8;
    let b1 = ((c >> 8) & 0xff) as u8;
    let b2 = ((c >> 16) & 0xff) as u8;
    assert(c == b0 as nat + 256 * (b1 as nat) + 65536 * (b2 as nat)) by (bit_vector)
        requires
            c < 0x100_0000,
            b0 == (c & 0xff) as u8,
            b1 == ((c >> 8) & 0xff) as u8,
            b2 == ((c >> 16) & 0xff) as u8,
    ;
    // window bytes that would fall outside the 32 bytes are zero, because
    // the placed value stays inside 256 bits
    if p + 1 >= 32 {
        lemma_pow_adds(256, 1, 31);
        if b1 != 0 || b2 != 0 {
            assert(c >= 256) by (bit_vector)
                requires
                    b1 == ((c >> 8) & 0xff) as u8,
                    b2 == ((c >> 16) & 0xff) as u8,
                    b1 != 0 || b2 != 0,
            ;
            assert(c as nat * pow(256, 31) >= 256 * pow(256, 31)) by (nonlinear_arith)
                requires
                    c >= 256,
                    pow(256, 31) >= 1,
            ;
            lemma_pow_positive(256, 31);
            assert(false);
        }
        assert((c >> 8) & 0xff == 0 && (c >> 16) & 0xff == 0) by (bit_vector)
            requires
                ((c >> 8) & 0xff) as u8 == 0,
                ((c >> 16) & 0xff) as u8 == 0,
        ;
    } else if p + 2 >= 32 {
        lemma_pow_adds(256, 2, 30);
        if b2 != 0 {
            assert(c >= 65536) by (bit_vector)
                requires
                    b2 == ((c >> 16) & 0xff) as u8,
                    b2 != 0,
            ;
            assert(c as nat * pow(256, 30) >= 65536 * pow(256, 30)) by (nonlinear_arith)
                requires
                    c >= 65536,
                    pow(256, 30) >= 1,
            ;
            lemma_pow_positive(256, 30);
            assert(false);
        }
        assert((c >> 16) & 0xff == 0) by (bit_vector)
            requires
                ((c >> 16) & 0xff) as u8 == 0,
        ;
    }
    let h = window_bytes(c, p);
    lemma_le_val_window(h, p, b0, if p + 1 < 32 { b1 } else { 0 }, if p + 2 < 32 { b2 } else { 0 });
}

/// Every valid compact value's target is the value of some 32-byte string.
proof fn lemma_target_has_bytes(bits: u32)
    requires
        valid_bits(bits),
    ensures
        exists|h: Seq<u8>| h.len() == 32 && le_val(h) == target_value(bits),
{
    lemma_pow256_small();
    let e = bits_exponent(bits);
    let m = bits_mantissa(bits);
    assert(m < 0x100_0000) by (bit_vector)
        requires
            m == bits & 0x00ff_ffff,
    ;
    if e >= 3 {
        lemma_pow_positive(256, (e - 3) as nat);
        assert(m >= 1) by {
            if m == 0 {
                assert(0 * pow(256, (e - 3) as nat) == 0) by (nonlinear_arith);
            }
        }
        assert(target_value(bits) == (m as nat) * pow(256, (e - 3) as nat));
        lemma_window_value(m, e - 3);
        assert(window_bytes(m, e - 3).len() == 32 && le_val(window_bytes(m, e - 3))
            == target_value(bits));
    } else {
        let d = pow(256, (3 - e) as nat) as nat;
        assert(d >= 1);
        let tv = target_value(bits);
        assert(tv == (m as nat) / d);
        assert((m as nat) / d <= m as nat) by (nonlinear_arith)
            requires
                d >= 1,
        ;
        assert(tv >= 1);
        let c = tv as u32;
        assert((c as nat) * pow(256, 0) == tv);
        lemma_window_value(c, 0);
        assert(window_bytes(c, 0).len() == 32 && le_val(window_bytes(c, 0)) == tv);
    }
}

/// Acceptance is monotone in the decoded target: every hash accepted under
/// the smaller target is accepted under the larger one, and some hash --
/// the larger target's own bytes -- is accepted only under the larger.
pub proof fn lemma_difficulty_monotonicity(b1: u32, b2: u32)
    requires
        valid_bits(b1),
        valid_bits(b2),
        target_value(b1) < target_value(b2),
    ensures
        forall|h: Seq<u8>| #[trigger] pow_accepted(h, b1) ==> pow_accepted(h, b2),
        exists|h: Seq<u8>| h.len() == 32 && #[trigger] pow_accepted(h, b2) && !pow_accepted(
            h,
            b1,
        ),
{
    lemma_target_has_bytes(b2);
    let h = choose|h: Seq<u8>| h.len() == 32 && le_val(h) == target_value(b2);
    assert(pow_accepted(h, b2) && !pow_accepted(h, b1));
}

/// The index of the highest nonzero byte of a string, or -1 when every byte
/// is zero.
pub open spec fn hi_index(s: Seq<u8>) -> int
    decreases s.len(),
{
    if s.len() == 0 {
        -1
    } else if s[s.len() - 1] != 0 {
        s.len() - 1
    } else {
        hi_index(s.drop_last())
    }
}

proof fn lemma_hi_index_at(s: Seq<u8>, i: int)
    requires
        0 <= i < s.len(),
        s[i] != 0,
        forall|j: int| i < j < s.len() ==> s[j] == 0,
    ensures
        hi_index(s) == i,
    decreases s.len(),
{
    if i < s.len() - 1 {
        lemma_hi_index_at(s.drop_last(), i);
    }
}

proof fn lemma_hi_index_none(s: Seq<u8>)
    requires
        forall|j: int| 0 <= j < s.len() ==> s[j] == 0,
    ensures
        hi_index(s) == -1,
    decreases s.len(),
{
    if s.len() > 0 {
        lemma_hi_index_none(s.drop_last());
    }
}

/// The compact encoding of a target given by its 32 bytes: the exponent
/// counts the significant bytes and the mantissa holds the top three, with
/// one zero byte of padding pushed in when the top byte would collide with
/// the sign bit. The all-zero target encodes as zero.
pub open spec fn compact_of(s: Seq<u8>) -> u32 {
    let h = hi_index(s);
    if h < 0 {
        0u32
    } else {
        let b2 = s[h] as u32;
        let b1 = if h >= 1 {
            s[h - 1] as u32
        } else {
            0u32
        };
        let b0 = if h >= 2 {
            s[h - 2] as u32
        } else {
            0u32
        };
        if b2 < 0x80 {
            (((h + 1) as u32) << 24) | (b2 << 16) | (b1 << 8) | b0
        } else {
            (((h + 2) as u32) << 24) | (b2 << 8) | b1
        }
    }
}

/// Encode a 256-bit target back into compact form.
pub fn target_to_bits(target: &Uint256) -> (r: u32)
    requires
        target.wf(),
    ensures
        r == compact_of(target@),
{
    let mut i: usize = 32;
    while i > 0
        invariant
            i <= 32,
            target.wf(),
            forall|j: int| i <= j < 32 ==> target@[j] == 0,
        decreases i,
    {
        if target.bytes[i - 1] != 0 {
            let h = i - 1;
            proof {
                lemma_hi_index_at(target@, h as int);
            }
            let b2 = target.bytes[h] as u32;
            let b1 = if h >= 1 {
                target.bytes[h - 1] as u32
            } else {
                0
            };
            let b0 = if h >= 2 {
                target.bytes[h - 2] as u32
            } else {
                0
            };
            if b2 < 0x80 {
                return (((h + 1) as u32) << 24) | (b2 << 16) | (b1 << 8) | b0;
            } else {
                return (((h + 2) as u32) << 24) | (b2 << 8) | b1;
            }
        }
        i -= 1;
    }
    proof {
        lemma_hi_index_none(target@);
    }
    0
}

/// A compact value in the shape the encoder produces: valid, with a
/// mantissa whose top byte is significant (or whose middle byte carries the
/// sign-padding form), and with no dropped nonzero bytes at exponents below
/// three.
pub open spec fn canonical_bits(bits: u32) -> bool {
    let e = bits_exponent(bits);
    let m2 = (bits >> 16) & 0xff;
    let m1 = (bits >> 8) & 0xff;
    let m0 = bits & 0xff;
    &&& valid_bits(bits)
    &&& (m2 >= 1 || m1 >= 0x80)
    &&& (e == 2 ==> m0 == 0)
    &&& (e == 1 ==> m1 == 0 && m0 == 0)
}

/// Decoding a canonical compact value and re-encoding the target gives the
/// original back: `t` is any 32-byte string holding the decoded target.
pub proof fn lemma_compact_round_trip(bits: u32, t: Seq<u8>)
    requires
        canonical_bits(bits),
        t.len() == 32,
        le_val(t) == target_value(bits),
    ensures
        compact_of(t) == bits,
{
    lemma_pow256_small();
    let e = bits_exponent(bits);
    let m = bits_mantissa(bits);
    let m2 = (bits >> 16) & 0xff;
    let m1 = (bits >> 8) & 0xff;
    let m0 = bits & 0xff;
    assert(m < 0x100_0000 && m2 < 0x80 && m1 < 0x100 && m0 < 0x100 && m2 == (m >> 16) & 0xff
        && m1 == (m >> 8) & 0xff && m0 == m & 0xff) by (bit_vector)
        requires
            m == bits & 0x00ff_ffff,
            m2 == (bits >> 16) & 0xff,
            m1 == (bits >> 8) & 0xff,
            m0 == bits & 0xff,
            m & 0x0080_0000 == 0,
    ;
    if e >= 3 {
        let p: int = e - 3;
        lemma_pow_positive(256, (e - 3) as nat);
        assert(m >= 1) by {
            if m == 0 {
                assert(0 * pow(256, (e - 3) as nat) == 0) by (nonlinear_arith);
            }
        }
        assert(target_value(bits) == (m as nat) * pow(256, p as nat));
        lemma_window_value(m, p);
        let w = window_bytes(m, p);
        lemma_le_val_inj(t, w);
        if m2 >= 1 {
            assert(p + 2 < 32) by {
                if p + 2 >= 32 {
                    assert((m >> 16) & 0xff == 0);
                }
            }
            lemma_hi_index_at(w, p + 2);
            assert(w[p + 2] == ((m >> 16) & 0xff) as u8);
            assert(w[p + 1] == ((m >> 8) & 0xff) as u8);
            assert(w[p] == (m & 0xff) as u8);
            assert((w[p + 2] as u32) < 0x80);
            assert(compact_of(w) == (((p + 3) as u32) << 24) | ((w[p + 2] as u32) << 16) | ((w[p
                + 1] as u32) << 8) | (w[p] as u32));
            assert((((bits >> 24) as u32) << 24) | (((((m >> 16) & 0xff) as u8) as u32) << 16)
                | (((((m >> 8) & 0xff) as u8) as u32) << 8) | (((m & 0xff) as u8) as u32)
                == bits) by (bit_vector)
                requires
                    m == bits & 0x00ff_ffff,
            ;
            assert(((p + 3) as u32) == bits >> 24);
        } else {
            // sign-padding form: the mantissa's middle byte is the top
            // significant byte
            assert(m1 >= 0x80);
            assert(p + 1 < 32) by {
                if p + 1 >= 32 {
                    assert((m >> 8) & 0xff == 0);
                }
            }
            assert(w[p + 1] == ((m >> 8) & 0xff) as u8);
            assert((((m >> 8) & 0xff) as u8) != 0) by (bit_vector)
                requires
                    (m >> 8) & 0xff >= 0x80,
            ;
            assert(w[p + 1] != 0);
            assert forall|j: int| p + 1 < j < 32 implies w[j] == 0 by {
                if j == p + 2 {
                    assert(w[j] == ((m >> 16) & 0xff) as u8);
                    assert((m >> 16) & 0xff == 0);
                }
            }
            lemma_hi_index_at(w, p + 1);
            assert(w[p] == (m & 0xff) as u8);
            assert(((((m >> 8) & 0xff) as u8) as u32) >= 0x80) by (bit_vector)
                requires
                    (m >> 8) & 0xff >= 0x80,
            ;
            assert((w[p + 1] as u32) >= 0x80);
            assert(compact_of(w) == (((p + 3) as u32) << 24) | ((w[p + 1] as u32) << 8) | (w[p]
                as u32));
            assert((((bits >> 24) as u32) << 24) | (((((m >> 8) & 0xff) as u8) as u32) << 8) | (
            ((m & 0xff) as u8) as u32) == bits) by (bit_vector)
                requires
                    m == bits & 0x00ff_ffff,
                    (m >> 16) & 0xff == 0,
            ;
            assert(((p + 3) as u32) == bits >> 24);
        }
    } else {
        let d = pow(256, (3 - e) as nat) as nat;
        let tv = target_value(bits);
        assert(tv == (m as nat) / d);
        assert((m as nat) / d <= m as nat) by (nonlinear_arith)
            requires
                d >= 1,
        ;
        assert(tv >= 1);
        let c = tv as u32;
        assert((c as nat) * pow(256, 0) == tv);
        lemma_window_value(c, 0);
        let w = window_bytes(c, 0);
        lemma_le_val_inj(t, w);
        if e == 2 {
            assert(c == m >> 8) by (bit_vector)
                requires
                    c == ((m as nat) / 256) as u32,
                    m < 0x100_0000,
            ;
            assert(c & 0xff == m1 && (c >> 8) & 0xff == m2 && (c >> 16) & 0xff == 0)
                by (bit_vector)
                requires
                    c == m >> 8,
                    m < 0x100_0000,
                    m1 == (m >> 8) & 0xff,
                    m2 == (m >> 16) & 0xff,
            ;
            if m2 >= 1 {
                assert(w[1] == (m2 as u8));
                assert((m2 as u8) != 0 && ((m2 as u8) as u32) < 0x80) by (bit_vector)
                    requires
                        1 <= m2 < 0x80,
                ;
                assert(w[1] != 0 && (w[1] as u32) < 0x80);
                lemma_hi_index_at(w, 1);
                assert(compact_of(w) == ((2u32) << 24) | ((w[1] as u32) << 16) | ((w[0] as u32)
                    << 8) | 0);
                assert(((2u32) << 24) | (((m2 as u8) as u32) << 16) | (((m1 as u8) as u32) << 8)
                    | 0 == bits) by (bit_vector)
                    requires
                        m2 == (bits >> 16) & 0xff,
                        m1 == (bits >> 8) & 0xff,
                        bits & 0xff == 0,
                        bits >> 24 == 2,
                ;
            } else {
                assert(m1 >= 0x80);
                assert(c == m1 && c & 0xff == m1 && (c >> 8) & 0xff == 0) by (bit_vector)
                    requires
                        c == m >> 8,
                        m < 0x100_0000,
                        m1 == (m >> 8) & 0xff,
                        (m >> 16) & 0xff == 0,
                ;
                assert(w[0] == m1 as u8);
                assert((m1 as u8) != 0 && ((m1 as u8) as u32) >= 0x80) by (bit_vector)
                    requires
                        0x80 <= m1 < 0x100,
                ;
                assert(w[0] != 0 && (w[0] as u32) >= 0x80);
                lemma_hi_index_at(w, 0);
                assert(compact_of(w) == ((2u32) << 24) | ((w[0] as u32) << 8) | 0);
                assert(((2u32) << 24) | (((m1 as u8) as u32) << 8) | 0 == bits) by (bit_vector)
                    requires
                        m1 == (bits >> 8) & 0xff,
                        (bits >> 16) & 0xff == 0,
                        bits & 0xff == 0,
                        bits >> 24 == 2,
                ;
            }
        } else {
            assert(e == 1) by {
                if e == 0 {
                    assert((m as nat) / 0x100_0000 == 0) by (nonlinear_arith)
                        requires
                            m < 0x100_0000,
                    ;
                }
            }
            assert(c == m >> 16) by (bit_vector)
                requires
                    c == ((m as nat) / 65536) as u32,
                    m < 0x100_0000,
            ;
            assert(c == m2 && c & 0xff == m2 && (c >> 8) & 0xff == 0 && (c >> 16) & 0xff == 0)
                by (bit_vector)
                requires
                    c == m >> 16,
                    m < 0x100_0000,
                    m2 == (m >> 16) & 0xff,
            ;
            assert(w[0] == m2 as u8);
            assert((m2 as u8) != 0 && ((m2 as u8) as u32) < 0x80) by (bit_vector)
                requires
                    1 <= m2 < 0x80,
            ;
            assert(w[0] != 0 && (w[0] as u32) < 0x80);
            lemma_hi_index_at(w, 0);
            assert(compact_of(w) == ((1u32) << 24) | ((w[0] as u32) << 16) | ((0u32) << 8)
                | 0u32);
            assert(((1u32) << 24) | (((m2 as u8) as u32) << 16) | ((0u32) << 8) | 0u32 == bits)
                by (bit_vector)
                requires
                    m2 == (bits >> 16) & 0xff,
                    (bits >> 8) & 0xff == 0,
                    bits & 0xff == 0,
                    bits >> 24 == 1,
            ;
        }
    }
}

} // verus!
