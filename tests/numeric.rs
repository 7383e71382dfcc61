use txsim::numeric::{NumericParseError, PermissiveUint};

const MAX_HEX: &str = "0xffffffffffffffffffffffffffffffffffffffffffffffffffffffffffffffff";
const MAX_DEC: &str =
    "115792089237316195423570985008687907853269984665640564039457584007913129639935";

fn max_value() -> PermissiveUint {
    PermissiveUint::from_limbs([u64::MAX; 4])
}

#[test]
fn parses_hex_and_decimal() {
    assert_eq!(PermissiveUint::parse("0x64"), Ok(PermissiveUint::from_u64(100)));
    assert_eq!(PermissiveUint::parse("100"), Ok(PermissiveUint::from_u64(100)));
    assert_eq!(PermissiveUint::parse("0xFF"), Ok(PermissiveUint::from_u64(255)));
    assert_eq!(PermissiveUint::parse("0xaBc"), Ok(PermissiveUint::from_u64(0xabc)));
}

#[test]
fn parses_limbs_in_order() {
    let v = PermissiveUint::parse("0x10000000000000000").unwrap();
    assert_eq!(v, PermissiveUint::from_limbs([0, 1, 0, 0]));
    let w = PermissiveUint::parse("18446744073709551616").unwrap();
    assert_eq!(w, v);
}

#[test]
fn parses_extremes() {
    assert_eq!(PermissiveUint::parse("0"), Ok(PermissiveUint::zero()));
    assert_eq!(PermissiveUint::parse("0x0"), Ok(PermissiveUint::zero()));
    assert_eq!(PermissiveUint::parse(MAX_HEX), Ok(max_value()));
    assert_eq!(PermissiveUint::parse(MAX_DEC), Ok(max_value()));
    assert_eq!(PermissiveUint::parse("0x0000000000000000000000000000000000000000000000000000000000000000001"), Ok(PermissiveUint::from_u64(1)));
}

#[test]
fn refuses_overflow() {
    let over_hex = "0x10000000000000000000000000000000000000000000000000000000000000000";
    assert_eq!(PermissiveUint::parse(over_hex), Err(NumericParseError::Overflow));
    let over_dec =
        "115792089237316195423570985008687907853269984665640564039457584007913129639936";
    assert_eq!(PermissiveUint::parse(over_dec), Err(NumericParseError::Overflow));
}

#[test]
fn refuses_malformed_text() {
    for t in ["", "0x", "0X10", "12a", "abc", "-1", "1_000", "0x1_0", "0xg", " 1", "١٢"] {
        assert_eq!(PermissiveUint::parse(t), Err(NumericParseError::Malformed), "{}", t);
    }
}

#[test]
fn formats_canonical_hex() {
    assert_eq!(PermissiveUint::zero().to_text(), "0x0");
    assert_eq!(PermissiveUint::from_u64(100).to_text(), "0x64");
    assert_eq!(PermissiveUint::from_u64(0xABCDEF).to_text(), "0xabcdef");
    assert_eq!(PermissiveUint::from_limbs([0, 1, 0, 0]).to_text(), "0x10000000000000000");
    assert_eq!(max_value().to_text(), MAX_HEX);
}

#[test]
fn round_trip_through_text() {
    let values = [
        PermissiveUint::zero(),
        PermissiveUint::from_u64(1),
        PermissiveUint::from_u64(u64::MAX),
        PermissiveUint::from_limbs([7, 0, 0, 9]),
        PermissiveUint::from_limbs([0, 0, 1, 0]),
        max_value(),
    ];
    for v in values {
        assert_eq!(PermissiveUint::parse(&v.to_text()), Ok(v));
    }
}

#[test]
fn hex_and_decimal_agree() {
    assert_eq!(PermissiveUint::parse("0x3e8"), PermissiveUint::parse("1000"));
    assert_eq!(PermissiveUint::parse(MAX_HEX), PermissiveUint::parse(MAX_DEC));
    assert_eq!(PermissiveUint::parse("0x00"), PermissiveUint::parse("000"));
}
