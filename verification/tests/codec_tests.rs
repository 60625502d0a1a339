use bn254_verify::codec::FieldElement;
use bn254_verify::error::VerifyError;
use bn254_verify::u252::U252;

const FR_MODULUS_DEC: &str =
    "21888242871839275222246405745257275088548364400416034343698204186575808495617";
const FR_MODULUS_MINUS_ONE: &str =
    "21888242871839275222246405745257275088548364400416034343698204186575808495616";

fn round_trips(s: &str) {
    let fe = FieldElement::parse(s).unwrap();
    assert_eq!(fe.serialize(), s);
}

#[test]
fn parse_serialize_round_trip_small() {
    round_trips("0");
    round_trips("1");
    round_trips("7");
    round_trips("10");
    round_trips("256");
    round_trips("18446744073709551616");
}

#[test]
fn parse_serialize_round_trip_large() {
    round_trips("18094334872876641868723494105288622412147911500330691749314947389229051047374");
    round_trips("9840231571876985386317977392848354901467143519108961818080766241279044324906");
    round_trips("2271327910224116051156093381945234779599139456906937995159191301263024040071");
    round_trips(FR_MODULUS_MINUS_ONE);
}

#[test]
fn parse_rejects_non_digits() {
    assert_eq!(FieldElement::parse(""), Err(VerifyError::ParseError));
    assert_eq!(FieldElement::parse("12a"), Err(VerifyError::ParseError));
    assert_eq!(FieldElement::parse("one"), Err(VerifyError::ParseError));
    assert_eq!(FieldElement::parse("-1"), Err(VerifyError::ParseError));
    assert_eq!(FieldElement::parse("1 2"), Err(VerifyError::ParseError));
    assert_eq!(FieldElement::parse("١٢٣"), Err(VerifyError::ParseError));
}

#[test]
fn parse_rejects_non_canonical() {
    assert_eq!(FieldElement::parse("00"), Err(VerifyError::ParseError));
    assert_eq!(FieldElement::parse("0123"), Err(VerifyError::ParseError));
}

#[test]
fn parse_rejects_values_at_or_above_modulus() {
    assert_eq!(FieldElement::parse(FR_MODULUS_DEC), Err(VerifyError::RangeError));
    assert_eq!(
        FieldElement::parse(
            "21888242871839275222246405745257275088548364400416034343698204186575808495618"
        ),
        Err(VerifyError::RangeError)
    );
    // Far beyond 256 bits.
    assert_eq!(
        FieldElement::parse(
            "999999999999999999999999999999999999999999999999999999999999999999999999999999999999"
        ),
        Err(VerifyError::RangeError)
    );
}

#[test]
fn u252_try_from_round_trip() {
    let x = U252::try_from(
        "18094334872876641868723494105288622412147911500330691749314947389229051047374",
    )
    .unwrap();
    assert_eq!(
        x.to_decimal(),
        "18094334872876641868723494105288622412147911500330691749314947389229051047374"
    );
    assert_eq!(U252::try_from("0x12"), Err(VerifyError::ParseError));
    // Base-field values above the scalar-field modulus still fit in 256 bits.
    let q = U252::try_from(
        "21888242871839275222246405745257275088696311157297823662689037894645226208583",
    )
    .unwrap();
    assert_eq!(
        q.to_decimal(),
        "21888242871839275222246405745257275088696311157297823662689037894645226208583"
    );
}

#[test]
fn field_element_values_compare_by_parse() {
    let one = FieldElement::parse("1").unwrap();
    let also_one = FieldElement::parse("1").unwrap();
    let seven = FieldElement::parse("7").unwrap();
    assert_eq!(one, also_one);
    assert!(one != seven);
}

#[test]
fn error_descriptions_are_distinct() {
    let all = vec![
        VerifyError::ParseError,
        VerifyError::RangeError,
        VerifyError::SchemaError,
        VerifyError::InvalidPoint,
        VerifyError::InputLengthError,
    ];
    for (i, a) in all.iter().enumerate() {
        assert!(!a.describe().is_empty());
        for (j, b) in all.iter().enumerate() {
            if i != j {
                assert!(a.describe() != b.describe());
            }
        }
    }
}
