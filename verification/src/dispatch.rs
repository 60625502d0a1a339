//! The verification entry point.
//!
//! `verify` consumes one proof, one verifying key and one public-input
//! vector, selects the algorithm by the proving-system tag, rejects
//! malformed input with a structural error before any pairing work, and
//! hands well-formed bytes to the pairing backend. A well-formed but false
//! proof is the boolean `false`, never an error.

use ark_ff::PrimeField;
use vstd::prelude::*;

use crate::codec::FieldElement;
use crate::error::VerifyError;
use crate::shape::{
    check_groth16_proof, check_groth16_vk, check_plonk_proof, check_plonk_vk, groth16_proof_err,
    groth16_vk_err, groth16_vk_num_k, plonk_proof_bsb22_count, plonk_proof_claimed_count,
    plonk_proof_err, plonk_vk_err, plonk_vk_public_count, plonk_vk_qcp_count, read_be_u32,
    read_be_u64,
};
use crate::u252::{be_val, fr_modulus};

verus! {

/// The proving system whose key and proof shapes apply.
#[derive(Clone, Copy, Debug, PartialEq, Eq, Structural)]
pub enum ProvingSystem {
    Groth16,
    Plonk,
}

/// The verdict of the Groth16 pairing-product equation on byte-encoded
/// inputs, as the backing pairing library computes it: a deterministic
/// function of the proof bytes, the key bytes and the public-input values.
pub uninterp spec fn groth16_accepts(proof: Seq<u8>, vk: Seq<u8>, inputs: Seq<nat>) -> bool;

/// Relies on `gnark_bn254_verifier::verify` with the Groth16 system: on
/// byte inputs whose shape has been validated the call returns the verdict
/// of the pairing-product equation (on malformed bytes it would abort),
/// and that verdict is a deterministic function of the arguments.
#[verifier::external_body]
fn gnark_groth16_verify(proof: &Vec<u8>, vk: &Vec<u8>, inputs: &Vec<Vec<u8>>) -> (r: bool)
    requires
        groth16_proof_err(proof@) is None,
        groth16_vk_err(vk@) is None,
        forall|i: int|
            0 <= i < inputs@.len() ==> (#[trigger] inputs@[i])@.len() == 32 && be_val(inputs@[i]@)
                < fr_modulus(),
    ensures
        r == groth16_accepts(proof@, vk@, inputs@.map_values(|v: Vec<u8>| be_val(v@))),
{
    let frs: Vec<gnark_bn254_verifier::Fr> = inputs.iter().map(
        |v| ark_bn254::Fr::from_be_bytes_mod_order(v),
    ).collect();
    gnark_bn254_verifier::verify(proof, vk, &frs, gnark_bn254_verifier::ProvingSystem::Groth16)
}

/// Relies on `gnark_bn254_verifier::verify` with the Plonk system: on byte
/// inputs whose shape has been validated and whose custom-gate commitment
/// counts agree, the call returns a boolean verdict. The batched opening
/// check there folds its pairings with fresh operating-system randomness,
/// so the verdict is not a function of the arguments: an invalid opening
/// escapes with probability about one over the scalar-field order per
/// folded term, and nothing is promised of the boolean here.
#[verifier::external_body]
fn gnark_plonk_verify(proof: &Vec<u8>, vk: &Vec<u8>, inputs: &Vec<Vec<u8>>) -> (r: bool)
    requires
        plonk_proof_err(proof@) is None,
        plonk_vk_err(vk@) is None,
        plonk_proof_bsb22_count(proof@) == plonk_vk_qcp_count(vk@),
        forall|i: int|
            0 <= i < inputs@.len() ==> (#[trigger] inputs@[i])@.len() == 32 && be_val(inputs@[i]@)
                < fr_modulus(),
{
    let frs: Vec<gnark_bn254_verifier::Fr> = inputs.iter().map(
        |v| ark_bn254::Fr::from_be_bytes_mod_order(v),
    ).collect();
    gnark_bn254_verifier::verify(proof, vk, &frs, gnark_bn254_verifier::ProvingSystem::Plonk)
}

/// The outcome of Groth16 verification on byte-encoded inputs: structural
/// faults of the proof, then of the key, then the public-input arity, and
/// for well-formed input the verdict of the pairing equation.
pub open spec fn groth16_outcome(proof: Seq<u8>, vk: Seq<u8>, inputs: Seq<nat>) -> Result<
    bool,
    VerifyError,
> {
    match groth16_proof_err(proof) {
        Some(e) => Err(e),
        None => match groth16_vk_err(vk) {
            Some(e) => Err(e),
            None => {
                if inputs.len() + 1 != groth16_vk_num_k(vk) {
                    Err(VerifyError::InputLengthError)
                } else {
                    Ok(groth16_accepts(proof, vk, inputs))
                }
            },
        },
    }
}

/// The structural fault of a PLONK verification call, if any: faults of
/// the proof, then of the key, then a custom-gate commitment count
/// mismatch, then the public-input arity.
pub open spec fn plonk_structural_err(proof: Seq<u8>, vk: Seq<u8>, arity: nat) -> Option<
    VerifyError,
> {
    match plonk_proof_err(proof) {
        Some(e) => Some(e),
        None => match plonk_vk_err(vk) {
            Some(e) => Some(e),
            None => {
                if plonk_proof_bsb22_count(proof) != plonk_vk_qcp_count(vk) {
                    Some(VerifyError::SchemaError)
                } else if arity != plonk_vk_public_count(vk) {
                    Some(VerifyError::InputLengthError)
                } else {
                    None
                }
            },
        },
    }
}

/// Encode each field element as its 32 big-endian bytes.
fn inputs_to_bytes(inputs: &Vec<FieldElement>) -> (r: Vec<Vec<u8>>)
    ensures
        r@.len() == inputs@.len(),
        forall|i: int|
            0 <= i < r@.len() ==> (#[trigger] r@[i])@.len() == 32 && be_val(r@[i]@)
                == inputs@[i].value(),
{
    let mut out: Vec<Vec<u8>> = Vec::new();
    let mut i: usize = 0;
    while i < inputs.len()
        invariant
            0 <= i <= inputs@.len(),
            out@.len() == i,
            forall|k: int|
                0 <= k < i ==> (#[trigger] out@[k])@.len() == 32 && be_val(out@[k]@)
                    == inputs@[k].value(),
        decreases inputs@.len() - i,
    {
        out.push(inputs[i].u.to_be_bytes());
        i += 1;
    }
    out
}

/// Verify one zero-knowledge proof against one verifying key and one
/// public-input vector, selecting the algorithm by the proving-system tag.
///
/// Structural faults (a malformed byte layout, an undecodable point slot,
/// a commitment-count mismatch, a public-input arity mismatch) surface as
/// errors before any pairing work. On well-formed input the call returns
/// `Ok` carrying the outcome of the pairing check, and a false proof gives
/// `Ok(false)`, never an error.
pub fn verify(
    proof: &Vec<u8>,
    vk: &Vec<u8>,
    public_inputs: &Vec<FieldElement>,
    system: ProvingSystem,
) -> (r: Result<bool, VerifyError>)
    requires
        forall|i: int| 0 <= i < public_inputs@.len() ==> (#[trigger] public_inputs@[i]).wf(),
    ensures
        system == ProvingSystem::Groth16 ==> r == groth16_outcome(
            proof@,
            vk@,
            public_inputs@.map_values(|fe: FieldElement| fe.value()),
        ),
        system == ProvingSystem::Plonk ==> match plonk_structural_err(
            proof@,
            vk@,
            public_inputs@.len(),
        ) {
            Some(e) => r == Err::<bool, VerifyError>(e),
            None => r is Ok,
        },
{
    match system {
        ProvingSystem::Groth16 => {
            if let Some(e) = check_groth16_proof(proof) {
                return Err(e);
            }
            if let Some(e) = check_groth16_vk(vk) {
                return Err(e);
            }
            let nk = read_be_u32(vk, 288);
            if (public_inputs.len() as u128) + 1 != nk as u128 {
                return Err(VerifyError::InputLengthError);
            }
            let bytes = inputs_to_bytes(public_inputs);
            let b = gnark_groth16_verify(proof, vk, &bytes);
            proof {
                assert(bytes@.map_values(|v: Vec<u8>| be_val(v@)) =~= public_inputs@.map_values(
                    |fe: FieldElement| fe.value(),
                ));
            }
            Ok(b)
        },
        ProvingSystem::Plonk => {
            if let Some(e) = check_plonk_proof(proof) {
                return Err(e);
            }
            if let Some(e) = check_plonk_vk(vk) {
                return Err(e);
            }
            let nc = read_be_u32(proof, 512);
            proof {
                assert(proof@.len() == proof.len());
                assert(proof@.len() >= 516 + 32 * (plonk_proof_claimed_count(proof@) as int)
                    + 100);
            }
            let off64: u64 = 516 + 32 * (nc as u64);
            let off: usize = off64 as usize;
            let nb = read_be_u32(proof, off + 96);
            let nq = read_be_u32(vk, 368);
            if nb != nq {
                return Err(VerifyError::SchemaError);
            }
            let npub = read_be_u64(vk, 72);
            if (public_inputs.len() as u64) != npub {
                return Err(VerifyError::InputLengthError);
            }
            let bytes = inputs_to_bytes(public_inputs);
            Ok(gnark_plonk_verify(proof, vk, &bytes))
        },
    }
}

} // verus!
