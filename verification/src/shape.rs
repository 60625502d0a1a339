//! Byte-level shape validation of gnark-encoded proofs and keys.
//!
//! The proof and verifying-key byte formats are a compatibility surface of
//! the backing verification-math crate and are not redefined here, but every
//! structural property — lengths, counts, offsets, and the decodability of
//! every point slot — is checked by verified code before any pairing work,
//! so that malformed input is reported as an error instead of reaching the
//! algebraic backend, which aborts on bytes it cannot load.

use ark_ff::PrimeField;
use ark_serialize::CanonicalDeserialize;
use vstd::pervasive::VecAdditionalExecFns;
use vstd::prelude::*;

verus! {

/// Whether a compressed G1 x-coordinate (32 big-endian bytes, flag bits
/// already cleared, reduced into the base field) has a matching y on the
/// curve, as the backing curve library decides it.
pub uninterp spec fn g1_x_decodes(xb: Seq<u8>) -> bool;

/// Whether 64 little-endian bytes with flag bits in the last byte decode to
/// a G2 point: canonical coordinates, on the twisted curve, in the
/// prime-order subgroup, as the backing curve library decides it.
pub uninterp spec fn g2_compressed_decodes(b: Seq<u8>) -> bool;

/// Whether 64 big-endian bytes (x then y, each reduced into the base field)
/// satisfy the G1 curve equation, as the backing curve library decides it.
pub uninterp spec fn g1_uncompressed_on_curve(b: Seq<u8>) -> bool;

/// Relies on `ark_bn254::Fq::from_be_bytes_mod_order` and
/// `ark_bn254::G1Affine::get_ys_from_x_unchecked`: the result says whether
/// the x-coordinate in the 32 bytes has a square root for x^3 + 3, that is,
/// whether a compressed G1 slot with this payload decodes. The result is a
/// function of the bytes alone.
#[verifier::external_body]
fn g1_x_decodes_check(xb: &Vec<u8>) -> (r: bool)
    requires
        xb@.len() == 32,
    ensures
        r == g1_x_decodes(xb@),
{
    let x = ark_bn254::Fq::from_be_bytes_mod_order(xb);
    ark_bn254::G1Affine::get_ys_from_x_unchecked(x).is_some()
}

/// Relies on `ark_bn254::G2Affine::deserialize_compressed`: the result says
/// whether the 64 bytes (little-endian, flags in the last byte) decode to a
/// canonical G2 point of the prime-order subgroup. The result is a function
/// of the bytes alone.
#[verifier::external_body]
fn g2_compressed_decodes_check(b: &Vec<u8>) -> (r: bool)
    requires
        b@.len() == 64,
    ensures
        r == g2_compressed_decodes(b@),
{
    ark_bn254::G2Affine::deserialize_compressed(b.as_slice()).is_ok()
}

/// Relies on `ark_bn254::Fq::from_be_bytes_mod_order`,
/// `ark_bn254::G1Affine::new_unchecked` and `is_on_curve`: the result says
/// whether the two 32-byte big-endian coordinates, reduced into the base
/// field, satisfy the curve equation. The result is a function of the bytes
/// alone.
#[verifier::external_body]
fn g1_uncompressed_check(b: &Vec<u8>) -> (r: bool)
    requires
        b@.len() == 64,
    ensures
        r == g1_uncompressed_on_curve(b@),
{
    let x = ark_bn254::Fq::from_be_bytes_mod_order(&b[..32]);
    let y = ark_bn254::Fq::from_be_bytes_mod_order(&b[32..]);
    ark_bn254::G1Affine::new_unchecked(x, y).is_on_curve()
}

/// The flag bits of a gnark-compressed slot: the two top bits of its first
/// byte.
pub open spec fn gnark_flag(b: Seq<u8>) -> u8 {
    b[0] & 0xc0
}

/// One 32-byte gnark-compressed G1 slot decodes: either the infinity flag
/// with an all-zero payload, or a sign flag with an x-coordinate that has a
/// matching y.
pub open spec fn g1c_ok(b: Seq<u8>) -> bool
    recommends
        b.len() == 32,
{
    if gnark_flag(b) == 0x40 {
        b[0] & 0x3f == 0 && (forall|i: int| 1 <= i < 32 ==> b[i] == 0)
    } else if gnark_flag(b) == 0x80 || gnark_flag(b) == 0xc0 {
        g1_x_decodes(b.update(0, (b[0] & 0x3f) as u8))
    } else {
        false
    }
}

/// A compressed G1 slot that decodes to a point other than the identity.
pub open spec fn g1c_ok_finite(b: Seq<u8>) -> bool
    recommends
        b.len() == 32,
{
    g1c_ok(b) && gnark_flag(b) != 0x40
}

/// The first byte of the ark encoding for a gnark-compressed G2 slot: the
/// gnark flag is translated to the ark flag convention.
pub open spec fn ark_flagged(x: u8) -> u8 {
    if x & 0xc0 == 0x80 {
        x & 0x3f
    } else if x & 0xc0 == 0xc0 {
        (x & 0x3f) | 0x80
    } else {
        (x & 0x3f) | 0x40
    }
}

/// The ark-convention little-endian bytes for a gnark-compressed G2 slot:
/// the flag byte is translated and the buffer reversed.
pub open spec fn ark_g2_bytes(b: Seq<u8>) -> Seq<u8>
    recommends
        b.len() == 64,
{
    b.update(0, ark_flagged(b[0])).reverse()
}

/// One 64-byte gnark-compressed G2 slot decodes: a recognized flag, and the
/// translated bytes decode to a subgroup point.
pub open spec fn g2c_ok(b: Seq<u8>) -> bool
    recommends
        b.len() == 64,
{
    gnark_flag(b) != 0 && g2_compressed_decodes(ark_g2_bytes(b))
}

/// Copy the window `[off, off + n)` of a buffer into a fresh vector.
fn copy_window(b: &Vec<u8>, off: usize, n: usize) -> (r: Vec<u8>)
    requires
        off + n <= b.len(),
    ensures
        r@ =~= b@.subrange(off as int, off as int + n as int),
{
    let mut out: Vec<u8> = Vec::new();
    let mut k: usize = 0;
    while k < n
        invariant
            off + n <= b.len(),
            0 <= k <= n,
            out@ =~= b@.subrange(off as int, off as int + k as int),
        decreases n - k,
    {
        out.push(b[off + k]);
        proof {
            assert(out@ =~= b@.subrange(off as int, off as int + k as int + 1));
        }
        k += 1;
    }
    out
}

/// Check one gnark-compressed G1 slot at the given offset.
fn g1c_check(b: &Vec<u8>, off: usize) -> (r: bool)
    requires
        off + 32 <= b.len(),
    ensures
        r == g1c_ok(b@.subrange(off as int, off as int + 32)),
{
    let ghost w = b@.subrange(off as int, off as int + 32);
    let m = b[off] & 0xc0;
    assert(m == gnark_flag(w));
    if m == 0x40 {
        if b[off] & 0x3f != 0 {
            return false;
        }
        let mut k: usize = 1;
        while k < 32
            invariant
                off + 32 <= b.len(),
                1 <= k <= 32,
                gnark_flag(b@.subrange(off as int, off as int + 32)) == 0x40,
                b@.subrange(off as int, off as int + 32)[0] & 0x3f == 0,
                forall|i: int| 1 <= i < k ==> #[trigger] b@.subrange(off as int, off as int + 32)[i]
                    == 0,
            decreases 32 - k,
        {
            if b[off + k] != 0 {
                assert(b@.subrange(off as int, off as int + 32)[k as int] != 0);
                return false;
            }
            k += 1;
        }
        true
    } else if m == 0x80 || m == 0xc0 {
        let mut masked = copy_window(b, off, 32);
        let first = masked[0] & 0x3f;
        masked.set(0, first);
        proof {
            assert(masked@ =~= w.update(0, (w[0] & 0x3f) as u8));
        }
        g1_x_decodes_check(&masked)
    } else {
        false
    }
}

/// Check one gnark-compressed G2 slot at the given offset.
fn g2c_check(b: &Vec<u8>, off: usize) -> (r: bool)
    requires
        off + 64 <= b.len(),
    ensures
        r == g2c_ok(b@.subrange(off as int, off as int + 64)),
{
    let ghost w = b@.subrange(off as int, off as int + 64);
    let m = b[off] & 0xc0;
    assert(m == gnark_flag(w));
    if m == 0 {
        return false;
    }
    let flag_byte = if m == 0x80 {
        b[off] & 0x3f
    } else if m == 0xc0 {
        (b[off] & 0x3f) | 0x80
    } else {
        (b[off] & 0x3f) | 0x40
    };
    assert(flag_byte == ark_flagged(w[0]));
    let mut out: Vec<u8> = Vec::new();
    let mut k: usize = 0;
    while k < 63
        invariant
            off + 64 <= b.len(),
            0 <= k <= 63,
            out@.len() == k,
            forall|j: int| 0 <= j < k ==> out@[j] == b@[off + 63 - j],
        decreases 63 - k,
    {
        out.push(b[off + 63 - k]);
        k += 1;
    }
    out.push(flag_byte);
    proof {
        let u = w.update(0, ark_flagged(w[0]));
        assert forall|j: int| 0 <= j < 64 implies out@[j] == u.reverse()[j] by {
            assert(u.reverse()[j] == u[63 - j]);
            if j < 63 {
                assert(u[63 - j] == w[63 - j]);
                assert(out@[j] == b@[off + 63 - j]);
                assert(w[63 - j] == b@[off + 63 - j]);
            }
        }
        assert(out@ =~= ark_g2_bytes(w));
    }
    g2_compressed_decodes_check(&out)
}

/// Check one uncompressed G1 slot (64 bytes) at the given offset.
fn g1u_check(b: &Vec<u8>, off: usize) -> (r: bool)
    requires
        off + 64 <= b.len(),
    ensures
        r == g1_uncompressed_on_curve(b@.subrange(off as int, off as int + 64)),
{
    let w = copy_window(b, off, 64);
    g1_uncompressed_check(&w)
}

/// Read four big-endian bytes at the given offset as an integer.
pub(crate) fn read_be_u32(b: &Vec<u8>, off: usize) -> (r: u32)
    requires
        off + 4 <= b.len(),
    ensures
        r == crate::u252::be_val(b@.subrange(off as int, off as int + 4)),
{
    proof {
        lemma_be_val_expand(b@, off as int, 4);
        lemma_be_val_expand(b@, off as int, 3);
        lemma_be_val_expand(b@, off as int, 2);
        lemma_be_val_expand(b@, off as int, 1);
        lemma_be_val_expand(b@, off as int, 0);
    }
    (b[off] as u32) * 0x100_0000 + (b[off + 1] as u32) * 0x1_0000 + (b[off + 2] as u32) * 0x100 + (
    b[off + 3] as u32)
}

/// Read eight big-endian bytes at the given offset as an integer.
pub(crate) fn read_be_u64(b: &Vec<u8>, off: usize) -> (r: u64)
    requires
        off + 8 <= b.len(),
    ensures
        r == crate::u252::be_val(b@.subrange(off as int, off as int + 8)),
{
    proof {
        lemma_be_val_expand(b@, off as int, 8);
        lemma_be_val_expand(b@, off as int, 7);
        lemma_be_val_expand(b@, off as int, 6);
        lemma_be_val_expand(b@, off as int, 5);
        lemma_be_val_expand(b@, off as int, 4);
        lemma_be_val_expand(b@, off as int, 3);
        lemma_be_val_expand(b@, off as int, 2);
        lemma_be_val_expand(b@, off as int, 1);
        lemma_be_val_expand(b@, off as int, 0);
    }
    (b[off] as u64) * 0x100_0000_0000_0000 + (b[off + 1] as u64) * 0x1_0000_0000_0000 + (b[off
        + 2] as u64) * 0x100_0000_0000 + (b[off + 3] as u64) * 0x1_0000_0000 + (b[off + 4] as u64)
        * 0x100_0000 + (b[off + 5] as u64) * 0x1_0000 + (b[off + 6] as u64) * 0x100 + (b[off
        + 7] as u64)
}

/// The exclusive upper bound on the value of a big-endian byte string of
/// the given length.
pub open spec fn be_cap(n: nat) -> nat
    decreases n,
{
    if n == 0 {
        1
    } else {
        256 * be_cap((n - 1) as nat)
    }
}

/// A big-endian byte string stays below 256 to the power of its length.
proof fn lemma_be_val_cap(s: Seq<u8>)
    ensures
        crate::u252::be_val(s) < be_cap(s.len()),
    decreases s.len(),
{
    if s.len() > 0 {
        lemma_be_val_cap(s.drop_last());
        let v = crate::u252::be_val(s.drop_last());
        let c = be_cap((s.len() - 1) as nat);
        assert(v * 256 + 255 < 256 * c) by (nonlinear_arith)
            requires
                v < c,
        ;
    }
}

/// The value of a short big-endian window, written out as a sum over its
/// bytes.
proof fn lemma_be_val_expand(b: Seq<u8>, off: int, n: int)
    requires
        0 <= off,
        0 <= n <= 8,
        off + n <= b.len(),
    ensures
        crate::u252::be_val(b.subrange(off, off + n)) == if n == 0 {
            0
        } else {
            crate::u252::be_val(b.subrange(off, off + n - 1)) * 256 + b[off + n - 1]
        },
        crate::u252::be_val(b.subrange(off, off + n)) < 0x1_0000_0000_0000_0000,
    decreases n,
{
    assert(be_cap(0) == 1);
    assert(be_cap(1) == 256);
    assert(be_cap(2) == 0x1_0000);
    assert(be_cap(3) == 0x100_0000);
    assert(be_cap(4) == 0x1_0000_0000);
    assert(be_cap(5) == 0x100_0000_0000);
    assert(be_cap(6) == 0x1_0000_0000_0000);
    assert(be_cap(7) == 0x100_0000_0000_0000);
    assert(be_cap(8) == 0x1_0000_0000_0000_0000);
    lemma_be_val_cap(b.subrange(off, off + n));
    if n == 0 {
        assert(b.subrange(off, off) =~= Seq::<u8>::empty());
    } else {
        lemma_be_val_expand(b, off, n - 1);
        assert(b.subrange(off, off + n).drop_last() =~= b.subrange(off, off + n - 1));
    }
}

/// Every 32-byte compressed G1 slot in a run of `n` decodes.
pub open spec fn all_g1c(b: Seq<u8>, start: int, n: int) -> bool {
    forall|i: int|
        0 <= i < n ==> g1c_ok(#[trigger] b.subrange(start + 32 * i, start + 32 * i + 32))
}

/// Every 32-byte compressed G1 slot in a run of `n` decodes to a point
/// other than the identity.
pub open spec fn all_g1c_finite(b: Seq<u8>, start: int, n: int) -> bool {
    forall|i: int|
        0 <= i < n ==> g1c_ok_finite(#[trigger] b.subrange(start + 32 * i, start + 32 * i + 32))
}

/// Every 64-byte uncompressed G1 slot in a run of `n` is on the curve.
pub open spec fn all_g1u(b: Seq<u8>, start: int, n: int) -> bool {
    forall|i: int|
        0 <= i < n ==> g1_uncompressed_on_curve(
            #[trigger] b.subrange(start + 64 * i, start + 64 * i + 64),
        )
}

/// The structural fault of a gnark-encoded Groth16 proof, if any: three
/// compressed point slots of 32, 64 and 32 bytes.
pub open spec fn groth16_proof_err(b: Seq<u8>) -> Option<crate::error::VerifyError> {
    if b.len() < 128 {
        Some(crate::error::VerifyError::SchemaError)
    } else if !(g1c_ok(b.subrange(0, 32)) && g2c_ok(b.subrange(32, 96)) && g1c_ok(
        b.subrange(96, 128),
    )) {
        Some(crate::error::VerifyError::InvalidPoint)
    } else {
        None
    }
}

/// Check the shape of a gnark-encoded Groth16 proof.
pub fn check_groth16_proof(b: &Vec<u8>) -> (r: Option<crate::error::VerifyError>)
    ensures
        r == groth16_proof_err(b@),
{
    if b.len() < 128 {
        return Some(crate::error::VerifyError::SchemaError);
    }
    if !g1c_check(b, 0) || !g2c_check(b, 32) || !g1c_check(b, 96) {
        return Some(crate::error::VerifyError::InvalidPoint);
    }
    None
}

/// The offset after the public-and-commitment-committed tables of a
/// gnark-encoded Groth16 verifying key, or `None` when a table length lies
/// out of bounds.
pub open spec fn vk_arrays_end(b: Seq<u8>, off: int, n: int) -> Option<int>
    decreases n,
{
    if n <= 0 {
        Some(off)
    } else if off + 4 > b.len() {
        None
    } else {
        vk_arrays_end(b, off + 4 + 4 * crate::u252::be_val(b.subrange(off, off + 4)) as int, n - 1)
    }
}

/// The number of input-commitment points a gnark-encoded Groth16 verifying
/// key declares.
pub open spec fn groth16_vk_num_k(b: Seq<u8>) -> nat {
    crate::u252::be_val(b.subrange(288, 292))
}

/// The structural fault of a gnark-encoded Groth16 verifying key, if any:
/// six fixed point slots, the input-commitment points, the committed-index
/// tables, and two trailing G2 slots.
pub open spec fn groth16_vk_err(b: Seq<u8>) -> Option<crate::error::VerifyError> {
    if b.len() < 292 {
        Some(crate::error::VerifyError::SchemaError)
    } else if !(g1c_ok(b.subrange(0, 32)) && g1c_ok(b.subrange(32, 64)) && g2c_ok(
        b.subrange(64, 128),
    ) && g2c_ok(b.subrange(128, 192)) && g1c_ok(b.subrange(192, 224)) && g2c_ok(
        b.subrange(224, 288),
    )) {
        Some(crate::error::VerifyError::InvalidPoint)
    } else {
        let nk = groth16_vk_num_k(b) as int;
        if b.len() < 292 + 32 * nk {
            Some(crate::error::VerifyError::SchemaError)
        } else if !all_g1c(b, 292, nk) {
            Some(crate::error::VerifyError::InvalidPoint)
        } else {
            let off1 = 292 + 32 * nk;
            if b.len() < off1 + 4 {
                Some(crate::error::VerifyError::SchemaError)
            } else {
                let na = crate::u252::be_val(b.subrange(off1, off1 + 4)) as int;
                match vk_arrays_end(b, off1 + 4, na) {
                    None => Some(crate::error::VerifyError::SchemaError),
                    Some(off2) => {
                        if b.len() < off2 + 128 {
                            Some(crate::error::VerifyError::SchemaError)
                        } else if !(g2c_ok(b.subrange(off2, off2 + 64)) && g2c_ok(
                            b.subrange(off2 + 64, off2 + 128),
                        )) {
                            Some(crate::error::VerifyError::InvalidPoint)
                        } else {
                            None
                        }
                    },
                }
            }
        }
    }
}

/// Check the shape of a gnark-encoded Groth16 verifying key.
#[verifier::loop_isolation(false)]
pub fn check_groth16_vk(b: &Vec<u8>) -> (r: Option<crate::error::VerifyError>)
    ensures
        r == groth16_vk_err(b@),
{
    if b.len() < 292 {
        return Some(crate::error::VerifyError::SchemaError);
    }
    if !g1c_check(b, 0) || !g1c_check(b, 32) || !g2c_check(b, 64) || !g2c_check(b, 128)
        || !g1c_check(b, 192) || !g2c_check(b, 224) {
        return Some(crate::error::VerifyError::InvalidPoint);
    }
    let nk = read_be_u32(b, 288);
    let need: u64 = 292 + 32 * (nk as u64);
    if (b.len() as u64) < need {
        return Some(crate::error::VerifyError::SchemaError);
    }
    let mut i: usize = 0;
    while i < nk as usize
        invariant
            0 <= i <= nk,
            all_g1c(b@, 292, i as int),
        decreases nk as int - i,
    {
        if !g1c_check(b, 292 + 32 * i) {
            return Some(crate::error::VerifyError::InvalidPoint);
        }
        i += 1;
    }
    let off1: usize = 292 + 32 * (nk as usize);
    if b.len() - off1 < 4 {
        return Some(crate::error::VerifyError::SchemaError);
    }
    let na = read_be_u32(b, off1);
    let ghost start = off1 as int + 4;
    let mut off: u128 = off1 as u128 + 4;
    let mut j: u32 = 0;
    while j < na
        invariant
            0 <= j <= na,
            off <= b@.len() + 4 + 4 * 0xffff_ffff,
            vk_arrays_end(b@, start, na as int) == vk_arrays_end(
                b@,
                off as int,
                na as int - j as int,
            ),
        decreases na as int - j,
    {
        if off + 4 > b.len() as u128 {
            return Some(crate::error::VerifyError::SchemaError);
        }
        let m = read_be_u32(b, off as usize);
        off = off + 4 + 4 * (m as u128);
        j += 1;
    }
    let ghost off2 = off as int;
    assert(vk_arrays_end(b@, start, na as int) == Some(off2));
    if off + 128 > b.len() as u128 {
        return Some(crate::error::VerifyError::SchemaError);
    }
    let offu = off as usize;
    if !g2c_check(b, offu) || !g2c_check(b, offu + 64) {
        return Some(crate::error::VerifyError::InvalidPoint);
    }
    None
}


/// The number of claimed evaluations a gnark-encoded PLONK proof declares.
pub open spec fn plonk_proof_claimed_count(b: Seq<u8>) -> nat {
    crate::u252::be_val(b.subrange(512, 516))
}

/// The number of custom-gate commitments a gnark-encoded PLONK proof
/// carries.
pub open spec fn plonk_proof_bsb22_count(b: Seq<u8>) -> nat {
    let off = 516 + 32 * plonk_proof_claimed_count(b) as int;
    crate::u252::be_val(b.subrange(off + 96, off + 100))
}

/// The structural fault of a gnark-encoded PLONK proof, if any: eight
/// uncompressed commitment slots, at least six claimed evaluations, the
/// shifted opening, and the custom-gate commitments.
pub open spec fn plonk_proof_err(b: Seq<u8>) -> Option<crate::error::VerifyError> {
    if b.len() < 516 {
        Some(crate::error::VerifyError::SchemaError)
    } else if !all_g1u(b, 0, 8) {
        Some(crate::error::VerifyError::InvalidPoint)
    } else {
        let nc = plonk_proof_claimed_count(b) as int;
        if nc < 6 {
            Some(crate::error::VerifyError::SchemaError)
        } else if b.len() < 516 + 32 * nc + 100 {
            Some(crate::error::VerifyError::SchemaError)
        } else {
            let off = 516 + 32 * nc;
            if !g1_uncompressed_on_curve(b.subrange(off, off + 64)) {
                Some(crate::error::VerifyError::InvalidPoint)
            } else {
                let nb = plonk_proof_bsb22_count(b) as int;
                if b.len() < off + 100 + 64 * nb {
                    Some(crate::error::VerifyError::SchemaError)
                } else if !all_g1u(b, off + 100, nb) {
                    Some(crate::error::VerifyError::InvalidPoint)
                } else {
                    None
                }
            }
        }
    }
}

/// Check the shape of a gnark-encoded PLONK proof.
#[verifier::loop_isolation(false)]
pub fn check_plonk_proof(b: &Vec<u8>) -> (r: Option<crate::error::VerifyError>)
    ensures
        r == plonk_proof_err(b@),
{
    if b.len() < 516 {
        return Some(crate::error::VerifyError::SchemaError);
    }
    let mut i: usize = 0;
    while i < 8
        invariant
            0 <= i <= 8,
            all_g1u(b@, 0, i as int),
        decreases 8 - i,
    {
        if !g1u_check(b, 64 * i) {
            assert(!g1_uncompressed_on_curve(
                b@.subrange(0 + 64 * (i as int), 0 + 64 * (i as int) + 64),
            ));
            return Some(crate::error::VerifyError::InvalidPoint);
        }
        assert(g1_uncompressed_on_curve(
            b@.subrange(0 + 64 * (i as int), 0 + 64 * (i as int) + 64),
        ));
        i += 1;
    }
    let nc = read_be_u32(b, 512);
    if nc < 6 {
        return Some(crate::error::VerifyError::SchemaError);
    }
    let need: u64 = 516 + 32 * (nc as u64) + 100;
    if (b.len() as u64) < need {
        return Some(crate::error::VerifyError::SchemaError);
    }
    let off: usize = 516 + 32 * (nc as usize);
    if !g1u_check(b, off) {
        return Some(crate::error::VerifyError::InvalidPoint);
    }
    let nb = read_be_u32(b, off + 96);
    let need2: u64 = (off as u64) + 100 + 64 * (nb as u64);
    if (b.len() as u64) < need2 {
        return Some(crate::error::VerifyError::SchemaError);
    }
    let mut j: usize = 0;
    while j < nb as usize
        invariant
            0 <= j <= nb,
            all_g1u(b@, off as int + 100, j as int),
        decreases nb as int - j,
    {
        if !g1u_check(b, off + 100 + 64 * j) {
            assert(!g1_uncompressed_on_curve(
                b@.subrange((off as int + 100) + 64 * (j as int), (off as int + 100) + 64 * (
                j as int) + 64),
            ));
            return Some(crate::error::VerifyError::InvalidPoint);
        }
        assert(g1_uncompressed_on_curve(
            b@.subrange((off as int + 100) + 64 * (j as int), (off as int + 100) + 64 * (j as int)
                + 64),
        ));
        j += 1;
    }
    None
}

/// The number of custom-gate commitment digests a gnark-encoded PLONK
/// verifying key declares.
pub open spec fn plonk_vk_qcp_count(b: Seq<u8>) -> nat {
    crate::u252::be_val(b.subrange(368, 372))
}

/// The number of public inputs a gnark-encoded PLONK verifying key expects.
pub open spec fn plonk_vk_public_count(b: Seq<u8>) -> nat {
    crate::u252::be_val(b.subrange(72, 80))
}

/// The structural fault of a gnark-encoded PLONK verifying key, if any:
/// the eight bound commitment slots (never the identity, which the backend
/// cannot serialize into its transcript), the custom-gate commitments, the
/// setup point slots, and the commitment-constraint index table.
pub open spec fn plonk_vk_err(b: Seq<u8>) -> Option<crate::error::VerifyError> {
    if b.len() < 372 {
        Some(crate::error::VerifyError::SchemaError)
    } else if !all_g1c_finite(b, 112, 8) {
        Some(crate::error::VerifyError::InvalidPoint)
    } else {
        let nq = plonk_vk_qcp_count(b) as int;
        if b.len() < 372 + 32 * nq {
            Some(crate::error::VerifyError::SchemaError)
        } else if !all_g1c_finite(b, 372, nq) {
            Some(crate::error::VerifyError::InvalidPoint)
        } else {
            let off = 372 + 32 * nq;
            if b.len() < off + 160 {
                Some(crate::error::VerifyError::SchemaError)
            } else if !(g1c_ok(b.subrange(off, off + 32)) && g2c_ok(b.subrange(off + 32, off + 96))
                && g2c_ok(b.subrange(off + 96, off + 160))) {
                Some(crate::error::VerifyError::InvalidPoint)
            } else {
                let off2 = off + 33948;
                if b.len() < off2 + 8 {
                    Some(crate::error::VerifyError::SchemaError)
                } else {
                    let ncci = crate::u252::be_val(b.subrange(off2, off2 + 8)) as int;
                    if b.len() < off2 + 8 + 8 * ncci {
                        Some(crate::error::VerifyError::SchemaError)
                    } else if ncci > nq {
                        Some(crate::error::VerifyError::SchemaError)
                    } else {
                        None
                    }
                }
            }
        }
    }
}

/// Check the shape of a gnark-encoded PLONK verifying key.
#[verifier::loop_isolation(false)]
pub fn check_plonk_vk(b: &Vec<u8>) -> (r: Option<crate::error::VerifyError>)
    ensures
        r == plonk_vk_err(b@),
{
    if b.len() < 372 {
        return Some(crate::error::VerifyError::SchemaError);
    }
    let mut i: usize = 0;
    while i < 8
        invariant
            0 <= i <= 8,
            all_g1c_finite(b@, 112, i as int),
        decreases 8 - i,
    {
        let off = 112 + 32 * i;
        if !g1c_check(b, off) || b[off] & 0xc0 == 0x40 {
            assert(!g1c_ok_finite(b@.subrange(off as int, off as int + 32)));
            return Some(crate::error::VerifyError::InvalidPoint);
        }
        i += 1;
    }
    let nq = read_be_u32(b, 368);
    let need: u64 = 372 + 32 * (nq as u64);
    if (b.len() as u64) < need {
        return Some(crate::error::VerifyError::SchemaError);
    }
    let mut j: usize = 0;
    while j < nq as usize
        invariant
            0 <= j <= nq,
            all_g1c_finite(b@, 372, j as int),
        decreases nq as int - j,
    {
        let off = 372 + 32 * j;
        if !g1c_check(b, off) || b[off] & 0xc0 == 0x40 {
            assert(!g1c_ok_finite(b@.subrange(off as int, off as int + 32)));
            return Some(crate::error::VerifyError::InvalidPoint);
        }
        j += 1;
    }
    let off: usize = 372 + 32 * (nq as usize);
    if (b.len() as u64) < (off as u64) + 160 {
        return Some(crate::error::VerifyError::SchemaError);
    }
    if !g1c_check(b, off) || !g2c_check(b, off + 32) || !g2c_check(b, off + 96) {
        return Some(crate::error::VerifyError::InvalidPoint);
    }
    if (b.len() as u64) < (off as u64) + 33948 + 8 {
        return Some(crate::error::VerifyError::SchemaError);
    }
    let off2: usize = off + 33948;
    let ncci = read_be_u64(b, off2);
    if ((b.len() as u128)) < (off2 as u128) + 8 + 8 * (ncci as u128) {
        return Some(crate::error::VerifyError::SchemaError);
    }
    if ncci > nq as u64 {
        return Some(crate::error::VerifyError::SchemaError);
    }
    None
}

} // verus!
