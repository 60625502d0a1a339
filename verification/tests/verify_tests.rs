use ark_bn254::{Bn254, Fr, G1Affine, G2Affine};
use ark_ec::AffineRepr;
use ark_ff::{BigInteger, PrimeField};
use ark_groth16::Groth16;
use ark_relations::r1cs::{
    ConstraintSynthesizer, ConstraintSystemRef, LinearCombination, SynthesisError, Variable,
};
use ark_serialize::CanonicalSerialize;
use ark_std::test_rng;

use bn254_verify::codec::FieldElement;
use bn254_verify::dispatch::{verify, ProvingSystem};
use bn254_verify::error::VerifyError;

/// One multiplicative constraint over two public inputs: a * b = 7.
struct MulCircuit {
    a: Option<Fr>,
    b: Option<Fr>,
}

impl ConstraintSynthesizer<Fr> for MulCircuit {
    fn generate_constraints(self, cs: ConstraintSystemRef<Fr>) -> Result<(), SynthesisError> {
        let a = cs.new_input_variable(|| self.a.ok_or(SynthesisError::AssignmentMissing))?;
        let b = cs.new_input_variable(|| self.b.ok_or(SynthesisError::AssignmentMissing))?;
        cs.enforce_constraint(
            LinearCombination(vec![(Fr::from(1u64), a)]),
            LinearCombination(vec![(Fr::from(1u64), b)]),
            LinearCombination(vec![(Fr::from(7u64), Variable::One)]),
        )?;
        Ok(())
    }
}

/// The gnark compressed encoding of a G1 point: big-endian x with the sign
/// of y in the two top bits of the first byte.
fn g1_gnark(p: &G1Affine) -> Vec<u8> {
    if p.infinity {
        let mut out = vec![0u8; 32];
        out[0] = 0x40;
        return out;
    }
    let mut out = p.x.into_bigint().to_bytes_be();
    assert_eq!(out.len(), 32);
    let neg_y = -p.y;
    let flag = if p.y > neg_y { 0xc0 } else { 0x80 };
    out[0] |= flag;
    out
}

/// The gnark compressed encoding of a G2 point: the ark little-endian
/// encoding reversed, with the flag convention translated.
fn g2_gnark(p: &G2Affine) -> Vec<u8> {
    let mut out = Vec::new();
    p.serialize_compressed(&mut out).unwrap();
    assert_eq!(out.len(), 64);
    out.reverse();
    let ark_flag = out[0] & 0xc0;
    let gnark_flag = if ark_flag == 0x00 {
        0x80
    } else if ark_flag == 0x80 {
        0xc0
    } else {
        0x40
    };
    out[0] = (out[0] & 0x3f) | gnark_flag;
    out
}

fn push_u32(out: &mut Vec<u8>, v: u32) {
    for b in v.to_be_bytes() {
        out.push(b);
    }
}

/// A known-good Groth16 fixture in the gnark byte layout: the proof bytes
/// and the verifying-key bytes for `MulCircuit` with public inputs [1, 7].
fn groth16_fixture() -> (Vec<u8>, Vec<u8>) {
    let mut rng = test_rng();
    let circuit = MulCircuit { a: Some(Fr::from(1u64)), b: Some(Fr::from(7u64)) };
    let pk = Groth16::<Bn254>::generate_random_parameters_with_reduction(
        MulCircuit { a: None, b: None },
        &mut rng,
    )
    .unwrap();
    let proof = Groth16::<Bn254>::create_random_proof_with_reduction(circuit, &pk, &mut rng)
        .unwrap();

    let mut proof_bytes = Vec::new();
    proof_bytes.extend_from_slice(&g1_gnark(&proof.a));
    proof_bytes.extend_from_slice(&g2_gnark(&proof.b));
    proof_bytes.extend_from_slice(&g1_gnark(&proof.c));

    let vk = &pk.vk;
    let mut vk_bytes = Vec::new();
    vk_bytes.extend_from_slice(&g1_gnark(&vk.alpha_g1));
    // The g1 slots for beta and delta are read but unused by the check:
    // any valid point satisfies the layout.
    vk_bytes.extend_from_slice(&g1_gnark(&G1Affine::generator()));
    vk_bytes.extend_from_slice(&g2_gnark(&vk.beta_g2));
    vk_bytes.extend_from_slice(&g2_gnark(&vk.gamma_g2));
    vk_bytes.extend_from_slice(&g1_gnark(&G1Affine::generator()));
    vk_bytes.extend_from_slice(&g2_gnark(&vk.delta_g2));
    push_u32(&mut vk_bytes, vk.gamma_abc_g1.len() as u32);
    for p in &vk.gamma_abc_g1 {
        vk_bytes.extend_from_slice(&g1_gnark(p));
    }
    push_u32(&mut vk_bytes, 0);
    vk_bytes.extend_from_slice(&g2_gnark(&G2Affine::generator()));
    vk_bytes.extend_from_slice(&g2_gnark(&G2Affine::generator()));
    (proof_bytes, vk_bytes)
}

fn fe(s: &str) -> FieldElement {
    FieldElement::parse(s).unwrap()
}

#[test]
fn valid_groth16_proof_verifies() {
    let (proof, vk) = groth16_fixture();
    let inputs = vec![fe("1"), fe("7")];
    assert_eq!(verify(&proof, &vk, &inputs, ProvingSystem::Groth16), Ok(true));
}

#[test]
fn wrong_public_inputs_are_rejected() {
    let (proof, vk) = groth16_fixture();
    assert_eq!(verify(&proof, &vk, &vec![fe("1"), fe("8")], ProvingSystem::Groth16), Ok(false));
    assert_eq!(verify(&proof, &vk, &vec![fe("2"), fe("7")], ProvingSystem::Groth16), Ok(false));
    assert_eq!(verify(&proof, &vk, &vec![fe("7"), fe("1")], ProvingSystem::Groth16), Ok(false));
}

#[test]
fn wrong_arity_is_an_input_length_error() {
    let (proof, vk) = groth16_fixture();
    assert_eq!(
        verify(&proof, &vk, &vec![fe("1")], ProvingSystem::Groth16),
        Err(VerifyError::InputLengthError)
    );
    assert_eq!(
        verify(&proof, &vk, &vec![fe("1"), fe("7"), fe("0")], ProvingSystem::Groth16),
        Err(VerifyError::InputLengthError)
    );
}

#[test]
fn bit_flips_in_the_proof_never_verify() {
    let (proof, vk) = groth16_fixture();
    let inputs = vec![fe("1"), fe("7")];
    // A sample of bit positions across all three proof points.
    let positions = vec![0usize, 7, 100, 255, 256, 400, 511, 600, 767, 800, 1023];
    for pos in positions {
        let mut tampered = proof.clone();
        tampered[pos / 8] ^= 1u8 << (pos % 8);
        let r = verify(&tampered, &vk, &inputs, ProvingSystem::Groth16);
        assert!(r != Ok(true), "bit {} flipped and the proof still verified", pos);
    }
}

#[test]
fn truncated_proof_is_a_schema_error() {
    let (proof, vk) = groth16_fixture();
    let inputs = vec![fe("1"), fe("7")];
    let short = proof[..127].to_vec();
    assert_eq!(verify(&short, &vk, &inputs, ProvingSystem::Groth16), Err(VerifyError::SchemaError));
    assert_eq!(
        verify(&Vec::new(), &vk, &inputs, ProvingSystem::Groth16),
        Err(VerifyError::SchemaError)
    );
}

#[test]
fn garbage_bytes_are_rejected_before_pairing() {
    // An all-zero flag byte is not a valid compression flag.
    let zeros = vec![0u8; 128];
    assert_eq!(
        verify(&zeros, &vec![0u8; 300], &Vec::new(), ProvingSystem::Groth16),
        Err(VerifyError::InvalidPoint)
    );
    let (proof, _) = groth16_fixture();
    assert_eq!(
        verify(&proof, &vec![0u8; 300], &Vec::new(), ProvingSystem::Groth16),
        Err(VerifyError::InvalidPoint)
    );
    assert_eq!(
        verify(&proof, &Vec::new(), &Vec::new(), ProvingSystem::Groth16),
        Err(VerifyError::SchemaError)
    );
}

#[test]
fn plonk_structural_faults_are_rejected() {
    assert_eq!(
        verify(&Vec::new(), &Vec::new(), &Vec::new(), ProvingSystem::Plonk),
        Err(VerifyError::SchemaError)
    );
    // Uncompressed (0, 0) coordinates are not on the curve.
    assert_eq!(
        verify(&vec![0u8; 616], &vec![0u8; 400], &Vec::new(), ProvingSystem::Plonk),
        Err(VerifyError::InvalidPoint)
    );
}

/// A structurally well-formed PLONK proof and key built from generator
/// points and zero scalars: the shape passes every check, and the opening
/// equation then fails, so verification reports an invalid proof rather
/// than an error.
fn plonk_shaped_input() -> (Vec<u8>, Vec<u8>) {
    let g1 = G1Affine::generator();
    let g1u = {
        let mut out = g1.x.into_bigint().to_bytes_be();
        out.extend_from_slice(&g1.y.into_bigint().to_bytes_be());
        out
    };
    let g1c = g1_gnark(&g1);
    let g2c = g2_gnark(&G2Affine::generator());

    let mut proof = vec![0u8; 808];
    for i in 0..8 {
        proof[i * 64..i * 64 + 64].copy_from_slice(&g1u);
    }
    // Six claimed evaluations, all zero.
    proof[515] = 6;
    // The shifted opening point.
    proof[708..772].copy_from_slice(&g1u);

    let mut vk = vec![0u8; 34328];
    // Domain size eight.
    vk[7] = 8;
    // The eight bound commitment slots.
    for i in 0..8 {
        vk[112 + 32 * i..112 + 32 * i + 32].copy_from_slice(&g1c);
    }
    // The setup points of the opening check.
    vk[372..404].copy_from_slice(&g1c);
    vk[404..468].copy_from_slice(&g2c);
    vk[468..532].copy_from_slice(&g2c);
    (proof, vk)
}

#[test]
fn shaped_plonk_input_is_checked_and_found_invalid() {
    let (proof, vk) = plonk_shaped_input();
    assert_eq!(verify(&proof, &vk, &Vec::new(), ProvingSystem::Plonk), Ok(false));
}

#[test]
fn plonk_arity_mismatch_is_an_input_length_error() {
    let (proof, vk) = plonk_shaped_input();
    assert_eq!(
        verify(&proof, &vk, &vec![fe("1")], ProvingSystem::Plonk),
        Err(VerifyError::InputLengthError)
    );
}

