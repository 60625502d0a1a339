//! Affine curve points with validated construction.
//!
//! A `G1Point` is an affine point of the BN254 curve over the base field,
//! or the identity under an explicit flag, so that the identity is never
//! confused with the coordinate pair (0, 0). A `G2Point` is an affine point
//! of the twisted curve over the quadratic extension of the base field; for
//! G2 the prime-order subgroup check is mandatory, since a point of a small
//! subgroup would silently break soundness.

use ark_ff::PrimeField;
use vstd::prelude::*;

use crate::error::VerifyError;
use crate::u252::{be_val, fq_modulus, U252};

verus! {

/// Whether the coordinates satisfy the G1 curve equation, as the backing
/// curve library decides it.
pub uninterp spec fn g1_on_curve(x: nat, y: nat) -> bool;

/// Whether the coordinates lie on the twisted curve and in the prime-order
/// G2 subgroup, as the backing curve library decides it.
pub uninterp spec fn g2_in_group(x0: nat, x1: nat, y0: nat, y1: nat) -> bool;

/// Relies on `ark_bn254::G1Affine::new_unchecked` and `is_on_curve`: the
/// result says whether the big-endian coordinates, both canonical below the
/// base-field modulus, satisfy the curve equation. The result is a function
/// of the coordinate values alone.
#[verifier::external_body]
fn g1_on_curve_check(xb: &Vec<u8>, yb: &Vec<u8>) -> (r: bool)
    requires
        xb@.len() == 32,
        yb@.len() == 32,
        be_val(xb@) < fq_modulus(),
        be_val(yb@) < fq_modulus(),
    ensures
        r == g1_on_curve(be_val(xb@), be_val(yb@)),
{
    let x = ark_bn254::Fq::from_be_bytes_mod_order(xb);
    let y = ark_bn254::Fq::from_be_bytes_mod_order(yb);
    ark_bn254::G1Affine::new_unchecked(x, y).is_on_curve()
}

/// Relies on `ark_bn254::G2Affine::new_unchecked`, `is_on_curve` and
/// `is_in_correct_subgroup_assuming_on_curve`: the result says whether the
/// big-endian coordinates, all canonical below the base-field modulus, form
/// a point on the twisted curve that lies in the prime-order subgroup. The
/// result is a function of the coordinate values alone.
#[verifier::external_body]
fn g2_in_group_check(x0b: &Vec<u8>, x1b: &Vec<u8>, y0b: &Vec<u8>, y1b: &Vec<u8>) -> (r: bool)
    requires
        x0b@.len() == 32,
        x1b@.len() == 32,
        y0b@.len() == 32,
        y1b@.len() == 32,
        be_val(x0b@) < fq_modulus(),
        be_val(x1b@) < fq_modulus(),
        be_val(y0b@) < fq_modulus(),
        be_val(y1b@) < fq_modulus(),
    ensures
        r == g2_in_group(be_val(x0b@), be_val(x1b@), be_val(y0b@), be_val(y1b@)),
{
    let x = ark_bn254::Fq2::new(
        ark_bn254::Fq::from_be_bytes_mod_order(x0b),
        ark_bn254::Fq::from_be_bytes_mod_order(x1b),
    );
    let y = ark_bn254::Fq2::new(
        ark_bn254::Fq::from_be_bytes_mod_order(y0b),
        ark_bn254::Fq::from_be_bytes_mod_order(y1b),
    );
    let p = ark_bn254::G2Affine::new_unchecked(x, y);
    p.is_on_curve() && p.is_in_correct_subgroup_assuming_on_curve()
}

/// An affine G1 point, or the identity under an explicit flag.
#[derive(Clone, Copy, Debug, PartialEq, Eq, Structural)]
pub struct G1Point {
    pub x: U252,
    pub y: U252,
    pub infinity: bool,
}

impl G1Point {
    /// The structural invariant: the identity carries zero coordinates, and
    /// every other point has canonical coordinates on the curve.
    pub open spec fn wf(self) -> bool {
        if self.infinity {
            self.x.value() == 0 && self.y.value() == 0
        } else {
            self.x.value() < fq_modulus() && self.y.value() < fq_modulus() && g1_on_curve(
                self.x.value(),
                self.y.value(),
            )
        }
    }

    /// The identity (point at infinity).
    pub fn identity() -> (r: G1Point)
        ensures
            r.wf(),
            r.infinity,
    {
        G1Point { x: U252::zero(), y: U252::zero(), infinity: true }
    }

    /// Validate the coordinates and build a non-identity point.
    ///
    /// Fails with `RangeError` when a coordinate is not canonical below the
    /// base-field modulus, and with `InvalidPoint` when the coordinates do
    /// not satisfy the curve equation.
    pub fn build(x: U252, y: U252) -> (r: Result<G1Point, VerifyError>)
        ensures
            (x.value() >= fq_modulus() || y.value() >= fq_modulus()) ==> r == Err::<
                G1Point,
                VerifyError,
            >(VerifyError::RangeError),
            x.value() < fq_modulus() && y.value() < fq_modulus() && !g1_on_curve(
                x.value(),
                y.value(),
            ) ==> r == Err::<G1Point, VerifyError>(VerifyError::InvalidPoint),
            x.value() < fq_modulus() && y.value() < fq_modulus() && g1_on_curve(
                x.value(),
                y.value(),
            ) ==> r == Ok::<G1Point, VerifyError>(G1Point { x, y, infinity: false }),
            r matches Ok(p) ==> p.wf(),
    {
        let q = U252::fq_modulus_val();
        if !x.lt(&q) || !y.lt(&q) {
            return Err(VerifyError::RangeError);
        }
        let xb = x.to_be_bytes();
        let yb = y.to_be_bytes();
        if g1_on_curve_check(&xb, &yb) {
            Ok(G1Point { x, y, infinity: false })
        } else {
            Err(VerifyError::InvalidPoint)
        }
    }
}

/// An affine G2 point over the quadratic extension, or the identity under
/// an explicit flag. The coordinate pairs are (c0, c1) with the value
/// c0 + c1 * u.
#[derive(Clone, Copy, Debug, PartialEq, Eq, Structural)]
pub struct G2Point {
    pub x_c0: U252,
    pub x_c1: U252,
    pub y_c0: U252,
    pub y_c1: U252,
    pub infinity: bool,
}

impl G2Point {
    /// The structural invariant: the identity carries zero coordinates, and
    /// every other point has canonical coordinates on the twisted curve and
    /// in the prime-order subgroup.
    pub open spec fn wf(self) -> bool {
        if self.infinity {
            self.x_c0.value() == 0 && self.x_c1.value() == 0 && self.y_c0.value() == 0
                && self.y_c1.value() == 0
        } else {
            self.x_c0.value() < fq_modulus() && self.x_c1.value() < fq_modulus()
                && self.y_c0.value() < fq_modulus() && self.y_c1.value() < fq_modulus()
                && g2_in_group(
                self.x_c0.value(),
                self.x_c1.value(),
                self.y_c0.value(),
                self.y_c1.value(),
            )
        }
    }

    /// The identity (point at infinity).
    pub fn identity() -> (r: G2Point)
        ensures
            r.wf(),
            r.infinity,
    {
        G2Point {
            x_c0: U252::zero(),
            x_c1: U252::zero(),
            y_c0: U252::zero(),
            y_c1: U252::zero(),
            infinity: true,
        }
    }

    /// Validate the coordinates and build a non-identity point.
    ///
    /// Fails with `RangeError` when a coordinate is not canonical below the
    /// base-field modulus, and with `InvalidPoint` when the point is not on
    /// the twisted curve or not in the prime-order subgroup.
    pub fn build(x_c0: U252, x_c1: U252, y_c0: U252, y_c1: U252) -> (r: Result<
        G2Point,
        VerifyError,
    >)
        ensures
            (x_c0.value() >= fq_modulus() || x_c1.value() >= fq_modulus() || y_c0.value()
                >= fq_modulus() || y_c1.value() >= fq_modulus()) ==> r == Err::<
                G2Point,
                VerifyError,
            >(VerifyError::RangeError),
            x_c0.value() < fq_modulus() && x_c1.value() < fq_modulus() && y_c0.value()
                < fq_modulus() && y_c1.value() < fq_modulus() && !g2_in_group(
                x_c0.value(),
                x_c1.value(),
                y_c0.value(),
                y_c1.value(),
            ) ==> r == Err::<G2Point, VerifyError>(VerifyError::InvalidPoint),
            x_c0.value() < fq_modulus() && x_c1.value() < fq_modulus() && y_c0.value()
                < fq_modulus() && y_c1.value() < fq_modulus() && g2_in_group(
                x_c0.value(),
                x_c1.value(),
                y_c0.value(),
                y_c1.value(),
            ) ==> r == Ok::<G2Point, VerifyError>(G2Point { x_c0, x_c1, y_c0, y_c1, infinity: false }),
            r matches Ok(p) ==> p.wf(),
    {
        let q = U252::fq_modulus_val();
        if !x_c0.lt(&q) || !x_c1.lt(&q) || !y_c0.lt(&q) || !y_c1.lt(&q) {
            return Err(VerifyError::RangeError);
        }
        let x0b = x_c0.to_be_bytes();
        let x1b = x_c1.to_be_bytes();
        let y0b = y_c0.to_be_bytes();
        let y1b = y_c1.to_be_bytes();
        if g2_in_group_check(&x0b, &x1b, &y0b, &y1b) {
            Ok(G2Point { x_c0, x_c1, y_c0, y_c1, infinity: false })
        } else {
            Err(VerifyError::InvalidPoint)
        }
    }
}

} // verus!
