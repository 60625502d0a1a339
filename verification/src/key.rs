//! The verification-key loader.
//!
//! A key arrives from a collaborator as an already-decoded structure:
//! protocol and curve tags, and every coordinate a base-10 decimal string.
//! The loader validates the tags first — an unrecognized protocol fails
//! with `SchemaError` before any point parsing — then parses and validates
//! every point, and produces an immutable typed key.

use vstd::prelude::*;
use vstd::string::StrSliceExecFns;

use crate::codec::{canonical_decimal, decimal_value, parse_decimal};
use crate::error::VerifyError;
use crate::points::{g1_on_curve, g2_in_group, G1Point, G2Point};
use crate::u252::{fq_modulus, U252};

verus! {

/// The protocol tag a key may carry.
#[derive(Clone, Copy, Debug, PartialEq, Eq, Structural)]
pub enum Protocol {
    Groth16,
}

/// The curve tag a key may carry.
#[derive(Clone, Copy, Debug, PartialEq, Eq, Structural)]
pub enum Curve {
    Bn128,
}

/// Character-wise string equality.
pub fn str_eq(s: &str, t: &str) -> (r: bool)
    ensures
        r == (s@ == t@),
{
    let n = s.unicode_len();
    if n != t.unicode_len() {
        return false;
    }
    let mut i: usize = 0;
    while i < n
        invariant
            n == s@.len(),
            n == t@.len(),
            0 <= i <= n,
            forall|k: int| 0 <= k < i ==> s@[k] == t@[k],
        decreases n - i,
    {
        if s.get_char(i) != t.get_char(i) {
            return false;
        }
        i += 1;
    }
    proof {
        assert(s@ =~= t@);
    }
    true
}

/// A raw G1 point: two decimal coordinate strings.
pub struct RawG1 {
    pub x: String,
    pub y: String,
}

/// A raw G2 point: four decimal coordinate strings, the quadratic-extension
/// pairs (x_c0, x_c1) and (y_c0, y_c1).
pub struct RawG2 {
    pub x_c0: String,
    pub x_c1: String,
    pub y_c0: String,
    pub y_c1: String,
}

/// A raw verification key as a collaborator decodes it: tags and points,
/// every coordinate a base-10 decimal string.
pub struct RawVerificationKey {
    pub protocol: String,
    pub curve: String,
    pub vk_alpha_1: RawG1,
    pub vk_beta_2: RawG2,
    pub vk_gamma_2: RawG2,
    pub vk_delta_2: RawG2,
    pub ic: Vec<RawG1>,
}

/// The fault of one decimal base-field coordinate, if any.
pub open spec fn coord_err(s: Seq<char>) -> Option<VerifyError> {
    if !canonical_decimal(s) {
        Some(VerifyError::ParseError)
    } else if decimal_value(s) >= fq_modulus() {
        Some(VerifyError::RangeError)
    } else {
        None
    }
}

/// The fault of one raw G1 point, if any: coordinates in order, then the
/// curve equation.
pub open spec fn raw_g1_err(g: RawG1) -> Option<VerifyError> {
    if coord_err(g.x@) is Some {
        coord_err(g.x@)
    } else if coord_err(g.y@) is Some {
        coord_err(g.y@)
    } else if !g1_on_curve(decimal_value(g.x@), decimal_value(g.y@)) {
        Some(VerifyError::InvalidPoint)
    } else {
        None
    }
}

/// The fault of one raw G2 point, if any: coordinates in order, then the
/// curve and subgroup membership.
pub open spec fn raw_g2_err(g: RawG2) -> Option<VerifyError> {
    if coord_err(g.x_c0@) is Some {
        coord_err(g.x_c0@)
    } else if coord_err(g.x_c1@) is Some {
        coord_err(g.x_c1@)
    } else if coord_err(g.y_c0@) is Some {
        coord_err(g.y_c0@)
    } else if coord_err(g.y_c1@) is Some {
        coord_err(g.y_c1@)
    } else if !g2_in_group(
        decimal_value(g.x_c0@),
        decimal_value(g.x_c1@),
        decimal_value(g.y_c0@),
        decimal_value(g.y_c1@),
    ) {
        Some(VerifyError::InvalidPoint)
    } else {
        None
    }
}

/// The first fault among the input-commitment points from index `i` on.
pub open spec fn ic_first_err(s: Seq<RawG1>, i: int) -> Option<VerifyError>
    decreases s.len() - i,
{
    if i < 0 || i >= s.len() {
        None
    } else if raw_g1_err(s[i]) is Some {
        raw_g1_err(s[i])
    } else {
        ic_first_err(s, i + 1)
    }
}

/// The fault of a whole raw verification key, if any: tags first, then the
/// arity of the input-commitment list, then every point in order.
pub open spec fn raw_vk_err(raw: RawVerificationKey) -> Option<VerifyError> {
    if raw.protocol@ != "groth16"@ {
        Some(VerifyError::SchemaError)
    } else if raw.curve@ != "bn128"@ {
        Some(VerifyError::SchemaError)
    } else if raw.ic.len() == 0 {
        Some(VerifyError::SchemaError)
    } else if raw_g1_err(raw.vk_alpha_1) is Some {
        raw_g1_err(raw.vk_alpha_1)
    } else if raw_g2_err(raw.vk_beta_2) is Some {
        raw_g2_err(raw.vk_beta_2)
    } else if raw_g2_err(raw.vk_gamma_2) is Some {
        raw_g2_err(raw.vk_gamma_2)
    } else if raw_g2_err(raw.vk_delta_2) is Some {
        raw_g2_err(raw.vk_delta_2)
    } else {
        ic_first_err(raw.ic@, 0)
    }
}

/// Parse one decimal base-field coordinate.
fn parse_fq(s: &str) -> (r: Result<U252, VerifyError>)
    ensures
        match coord_err(s@) {
            Some(e) => r == Err::<U252, VerifyError>(e),
            None => (r matches Ok(u) && u.value() == decimal_value(s@) && u.value() < fq_modulus()),
        },
{
    match parse_decimal(s) {
        Err(e) => Err(e),
        Ok(u) => {
            if u.lt(&U252::fq_modulus_val()) {
                Ok(u)
            } else {
                Err(VerifyError::RangeError)
            }
        },
    }
}

/// Parse and validate one raw G1 point.
pub fn build_g1(g: &RawG1) -> (r: Result<G1Point, VerifyError>)
    ensures
        match raw_g1_err(*g) {
            Some(e) => r == Err::<G1Point, VerifyError>(e),
            None => (r matches Ok(p) && p.wf() && !p.infinity && p.x.value() == decimal_value(g.x@)
                && p.y.value() == decimal_value(g.y@)),
        },
{
    let x = match parse_fq(g.x.as_str()) {
        Ok(x) => x,
        Err(e) => {
            return Err(e);
        },
    };
    let y = match parse_fq(g.y.as_str()) {
        Ok(y) => y,
        Err(e) => {
            return Err(e);
        },
    };
    G1Point::build(x, y)
}

/// Parse and validate one raw G2 point, subgroup check included.
pub fn build_g2(g: &RawG2) -> (r: Result<G2Point, VerifyError>)
    ensures
        match raw_g2_err(*g) {
            Some(e) => r == Err::<G2Point, VerifyError>(e),
            None => (r matches Ok(p) && p.wf() && !p.infinity && p.x_c0.value() == decimal_value(
                g.x_c0@,
            ) && p.x_c1.value() == decimal_value(g.x_c1@) && p.y_c0.value() == decimal_value(
                g.y_c0@,
            ) && p.y_c1.value() == decimal_value(g.y_c1@)),
        },
{
    let x_c0 = match parse_fq(g.x_c0.as_str()) {
        Ok(v) => v,
        Err(e) => {
            return Err(e);
        },
    };
    let x_c1 = match parse_fq(g.x_c1.as_str()) {
        Ok(v) => v,
        Err(e) => {
            return Err(e);
        },
    };
    let y_c0 = match parse_fq(g.y_c0.as_str()) {
        Ok(v) => v,
        Err(e) => {
            return Err(e);
        },
    };
    let y_c1 = match parse_fq(g.y_c1.as_str()) {
        Ok(v) => v,
        Err(e) => {
            return Err(e);
        },
    };
    G2Point::build(x_c0, x_c1, y_c0, y_c1)
}

/// A validated verification key: tags, the fixed group elements of the
/// pairing equation, and the input-commitment points that fold the public
/// inputs. Immutable once built.
#[derive(Debug, PartialEq, Eq)]
pub struct VerificationKey {
    pub protocol: Protocol,
    pub curve: Curve,
    pub vk_alpha_1: G1Point,
    pub vk_beta_2: G2Point,
    pub vk_gamma_2: G2Point,
    pub vk_delta_2: G2Point,
    pub ic: Vec<G1Point>,
}

impl VerificationKey {
    /// The structural invariant: every point is valid and the
    /// input-commitment list is non-empty.
    pub open spec fn wf(self) -> bool {
        &&& self.vk_alpha_1.wf()
        &&& !self.vk_alpha_1.infinity
        &&& self.vk_beta_2.wf()
        &&& self.vk_gamma_2.wf()
        &&& self.vk_delta_2.wf()
        &&& self.ic.len() >= 1
        &&& forall|i: int| 0 <= i < self.ic.len() ==> (#[trigger] self.ic@[i]).wf()
    }

    /// The number of public inputs the key expects: one less than the
    /// number of input-commitment points, whose first entry is the
    /// constant term.
    pub open spec fn input_count(self) -> nat {
        (self.ic.len() - 1) as nat
    }

    /// Validate a raw key.
    ///
    /// An unrecognized protocol or curve tag, or an empty input-commitment
    /// list, fails with `SchemaError` before any point parsing; a
    /// malformed or out-of-range coordinate fails with `ParseError` or
    /// `RangeError`; a point off the curve, or a G2 point outside the
    /// prime-order subgroup, fails with `InvalidPoint`.
    #[verifier::loop_isolation(false)]
    pub fn build(raw: &RawVerificationKey) -> (r: Result<VerificationKey, VerifyError>)
        ensures
            match raw_vk_err(*raw) {
                Some(e) => r == Err::<VerificationKey, VerifyError>(e),
                None => (r matches Ok(k) && k.wf() && k.protocol == Protocol::Groth16 && k.curve
                    == Curve::Bn128 && k.ic@.len() == raw.ic@.len() && k.input_count() + 1
                    == raw.ic@.len() && k.vk_alpha_1.x.value() == decimal_value(raw.vk_alpha_1.x@)
                    && k.vk_alpha_1.y.value() == decimal_value(raw.vk_alpha_1.y@) && (forall|i: int|
                    0 <= i < k.ic@.len() ==> (#[trigger] k.ic@[i]).x.value() == decimal_value(
                        raw.ic@[i].x@,
                    ) && k.ic@[i].y.value() == decimal_value(raw.ic@[i].y@))),
            },
    {
        if !str_eq(raw.protocol.as_str(), "groth16") {
            return Err(VerifyError::SchemaError);
        }
        if !str_eq(raw.curve.as_str(), "bn128") {
            return Err(VerifyError::SchemaError);
        }
        if raw.ic.len() == 0 {
            return Err(VerifyError::SchemaError);
        }
        let vk_alpha_1 = match build_g1(&raw.vk_alpha_1) {
            Ok(p) => p,
            Err(e) => {
                return Err(e);
            },
        };
        let vk_beta_2 = match build_g2(&raw.vk_beta_2) {
            Ok(p) => p,
            Err(e) => {
                return Err(e);
            },
        };
        let vk_gamma_2 = match build_g2(&raw.vk_gamma_2) {
            Ok(p) => p,
            Err(e) => {
                return Err(e);
            },
        };
        let vk_delta_2 = match build_g2(&raw.vk_delta_2) {
            Ok(p) => p,
            Err(e) => {
                return Err(e);
            },
        };
        let mut ic: Vec<G1Point> = Vec::new();
        let mut i: usize = 0;
        while i < raw.ic.len()
            invariant
                0 <= i <= raw.ic@.len(),
                ic@.len() == i,
                ic_first_err(raw.ic@, 0) == ic_first_err(raw.ic@, i as int),
                forall|k: int|
                    0 <= k < i ==> (#[trigger] ic@[k]).wf() && ic@[k].x.value() == decimal_value(
                        raw.ic@[k].x@,
                    ) && ic@[k].y.value() == decimal_value(raw.ic@[k].y@),
            decreases raw.ic@.len() - i,
        {
            match build_g1(&raw.ic[i]) {
                Ok(p) => {
                    ic.push(p);
                },
                Err(e) => {
                    return Err(e);
                },
            }
            i += 1;
        }
        Ok(VerificationKey { protocol: Protocol::Groth16, curve: Curve::Bn128, vk_alpha_1, vk_beta_2, vk_gamma_2, vk_delta_2, ic })
    }
}

} // verus!
