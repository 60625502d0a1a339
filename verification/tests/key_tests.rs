use ark_ff::PrimeField;

use bn254_verify::error::VerifyError;
use bn254_verify::key::{Curve, Protocol, RawG1, RawG2, RawVerificationKey, VerificationKey};
use bn254_verify::points::{G1Point, G2Point};
use bn254_verify::u252::U252;

const G2_X0: &str =
    "10857046999023057135944570762232829481370756359578518086990519993285655852781";
const G2_X1: &str =
    "11559732032986387107991004021392285783925812861821192530917403151452391805634";
const G2_Y0: &str = "8495653923123431417604973247489272438418190587263600148770280649306958101930";
const G2_Y1: &str = "4082367875863433681332203403145435568316851327593401208105741076214120093531";

fn raw_g1_gen() -> RawG1 {
    RawG1 { x: String::from("1"), y: String::from("2") }
}

fn raw_g2_gen() -> RawG2 {
    RawG2 {
        x_c0: String::from(G2_X0),
        x_c1: String::from(G2_X1),
        y_c0: String::from(G2_Y0),
        y_c1: String::from(G2_Y1),
    }
}

fn good_raw_key() -> RawVerificationKey {
    RawVerificationKey {
        protocol: String::from("groth16"),
        curve: String::from("bn128"),
        vk_alpha_1: raw_g1_gen(),
        vk_beta_2: raw_g2_gen(),
        vk_gamma_2: raw_g2_gen(),
        vk_delta_2: raw_g2_gen(),
        ic: vec![raw_g1_gen(), raw_g1_gen()],
    }
}

#[test]
fn builds_a_well_formed_key() {
    let key = VerificationKey::build(&good_raw_key()).unwrap();
    assert!(matches!(key.protocol, Protocol::Groth16));
    assert!(matches!(key.curve, Curve::Bn128));
    assert_eq!(key.ic.len(), 2);
    assert!(!key.vk_alpha_1.infinity);
}

#[test]
fn unknown_protocol_fails_with_schema_error() {
    let mut raw = good_raw_key();
    raw.protocol = String::from("plonk-v2");
    // Even with an unparseable point the schema error comes first: no point
    // parsing happens.
    raw.vk_alpha_1 = RawG1 { x: String::from("not a number"), y: String::from("") };
    assert_eq!(VerificationKey::build(&raw), Err(VerifyError::SchemaError));
}

#[test]
fn unknown_curve_fails_with_schema_error() {
    let mut raw = good_raw_key();
    raw.curve = String::from("bls12-381");
    assert_eq!(VerificationKey::build(&raw), Err(VerifyError::SchemaError));
}

#[test]
fn empty_commitment_list_fails_with_schema_error() {
    let mut raw = good_raw_key();
    raw.ic = vec![];
    assert_eq!(VerificationKey::build(&raw), Err(VerifyError::SchemaError));
}

#[test]
fn off_curve_point_fails_with_invalid_point() {
    let mut raw = good_raw_key();
    raw.vk_alpha_1 = RawG1 { x: String::from("1"), y: String::from("3") };
    assert_eq!(VerificationKey::build(&raw), Err(VerifyError::InvalidPoint));
}

#[test]
fn garbage_g2_fails_with_invalid_point() {
    let mut raw = good_raw_key();
    raw.vk_beta_2 = RawG2 {
        x_c0: String::from("1"),
        x_c1: String::from("0"),
        y_c0: String::from("2"),
        y_c1: String::from("0"),
    };
    assert_eq!(VerificationKey::build(&raw), Err(VerifyError::InvalidPoint));
}

#[test]
fn out_of_range_coordinate_fails_with_range_error() {
    let mut raw = good_raw_key();
    raw.vk_alpha_1 = RawG1 {
        x: String::from(
            "21888242871839275222246405745257275088696311157297823662689037894645226208583",
        ),
        y: String::from("2"),
    };
    assert_eq!(VerificationKey::build(&raw), Err(VerifyError::RangeError));
}

#[test]
fn malformed_coordinate_fails_with_parse_error() {
    let mut raw = good_raw_key();
    raw.ic = vec![RawG1 { x: String::from("02"), y: String::from("2") }];
    assert_eq!(VerificationKey::build(&raw), Err(VerifyError::ParseError));
}

#[test]
fn g1_point_build_checks_the_curve_equation() {
    let one = U252::try_from("1").unwrap();
    let two = U252::try_from("2").unwrap();
    let three = U252::try_from("3").unwrap();
    let p = G1Point::build(one, two).unwrap();
    assert!(!p.infinity);
    assert_eq!(p.x.to_decimal(), "1");
    assert_eq!(p.y.to_decimal(), "2");
    assert_eq!(G1Point::build(one, three), Err(VerifyError::InvalidPoint));
    let ident = G1Point::identity();
    assert!(ident.infinity);
}

#[test]
fn g2_point_build_checks_curve_and_subgroup() {
    let x0 = U252::try_from(G2_X0).unwrap();
    let x1 = U252::try_from(G2_X1).unwrap();
    let y0 = U252::try_from(G2_Y0).unwrap();
    let y1 = U252::try_from(G2_Y1).unwrap();
    let p = G2Point::build(x0, x1, y0, y1).unwrap();
    assert!(!p.infinity);
    let one = U252::try_from("1").unwrap();
    let two = U252::try_from("2").unwrap();
    let zero = U252::try_from("0").unwrap();
    assert_eq!(G2Point::build(one, zero, two, zero), Err(VerifyError::InvalidPoint));
    assert!(G2Point::identity().infinity);
}

#[test]
fn g2_point_outside_the_subgroup_is_rejected() {
    // Walk small x-coordinates on the twisted curve: with cofactor greater
    // than one, such points are overwhelmingly outside the prime-order
    // subgroup.
    let mut found = false;
    for i in 1u64..64 {
        let x = ark_bn254::Fq2::new(ark_bn254::Fq::from(i), ark_bn254::Fq::from(0u64));
        if let Some((y, _)) = ark_bn254::G2Affine::get_ys_from_x_unchecked(x) {
            let p = ark_bn254::G2Affine::new_unchecked(x, y);
            assert!(p.is_on_curve());
            if p.is_in_correct_subgroup_assuming_on_curve() {
                continue;
            }
            let x0 = U252::try_from(p.x.c0.into_bigint().to_string().as_str()).unwrap();
            let x1 = U252::try_from(p.x.c1.into_bigint().to_string().as_str()).unwrap();
            let y0 = U252::try_from(p.y.c0.into_bigint().to_string().as_str()).unwrap();
            let y1 = U252::try_from(p.y.c1.into_bigint().to_string().as_str()).unwrap();
            assert_eq!(G2Point::build(x0, x1, y0, y1), Err(VerifyError::InvalidPoint));
            found = true;
            break;
        }
    }
    assert!(found, "no on-curve point with a small x-coordinate");
}
