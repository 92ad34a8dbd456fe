use caf_format::caf_number::{decimal_string, signed_decimal_string};
use caf_format::{
    CafFill, CafNumber, CafNumberValue, NumberValue, NumberVisit, NumberWidth, TypeRequest,
    UnexpectedNumber,
};

fn text(number: &CafNumber) -> String {
    let mut out = Vec::new();
    number.write_to(&mut out);
    String::from_utf8(out).unwrap()
}

#[test]
fn unsigned_number_visits_as_unsigned() {
    let number = CafNumber::from(7u64);
    assert_eq!(number.visit(), NumberVisit::VisitU64(7));
    assert_eq!(number.unexpected(), UnexpectedNumber::Unsigned(7));
}

#[test]
fn float_number_visits_as_float() {
    let bits = 7.0f64.to_bits();
    let number = CafNumber::from_float_bits(bits, "7.0");
    assert_eq!(number.visit(), NumberVisit::VisitF64(bits));
    assert_eq!(number.unexpected(), UnexpectedNumber::Float(bits));
    match number.visit() {
        NumberVisit::VisitF64(bits) => assert_eq!(f64::from_bits(bits), 7.0),
        _ => panic!("a float visits as a float"),
    }
}

#[test]
fn signed_number_visits_as_signed() {
    let number = CafNumber::from(-3i64);
    assert_eq!(number.visit(), NumberVisit::VisitI64(-3));
    assert_eq!(number.unexpected(), UnexpectedNumber::Signed(-3));
    // The kind is the one the number was made with.
    assert_eq!(CafNumber::from(3i64).visit(), NumberVisit::VisitI64(3));
}

#[test]
fn probes_answer_for_their_own_kind_only() {
    let float = NumberValue::Float(1.5f64.to_bits());
    assert_eq!(float.as_f64_bits(), Some(1.5f64.to_bits()));
    assert_eq!(float.as_u64(), None);
    assert_eq!(float.as_i64(), None);

    let unsigned = NumberValue::Unsigned(9);
    assert_eq!(unsigned.as_f64_bits(), None);
    assert_eq!(unsigned.as_u64(), Some(9));
    assert_eq!(unsigned.as_i64(), None);

    let signed = NumberValue::Signed(-9);
    assert_eq!(signed.as_f64_bits(), None);
    assert_eq!(signed.as_u64(), None);
    assert_eq!(signed.as_i64(), Some(-9));
}

#[test]
fn decimal_literals_are_exact() {
    assert_eq!(decimal_string(0), "0");
    assert_eq!(decimal_string(7), "7");
    assert_eq!(decimal_string(10), "10");
    assert_eq!(decimal_string(1203), "1203");
    assert_eq!(decimal_string(u64::MAX), "18446744073709551615");
    assert_eq!(signed_decimal_string(0), "0");
    assert_eq!(signed_decimal_string(42), "42");
    assert_eq!(signed_decimal_string(-1), "-1");
    assert_eq!(signed_decimal_string(i64::MAX), "9223372036854775807");
    assert_eq!(signed_decimal_string(i64::MIN), "-9223372036854775808");
}

#[test]
fn decimal_literals_agree_with_std() {
    for n in [0u64, 1, 9, 10, 11, 99, 100, 101, 65535, 4294967296, u64::MAX - 1] {
        assert_eq!(decimal_string(n), n.to_string());
    }
    for n in [-100i64, -10, -9, -1, 0, 1, 9, 10, i64::MIN + 1] {
        assert_eq!(signed_decimal_string(n), n.to_string());
    }
}

#[test]
fn number_from_integer_has_no_fill_and_a_decimal_literal() {
    let number = CafNumber::from(7u64);
    assert_eq!(number.fill, CafFill::default());
    assert_eq!(number.number.original, "7");
    assert_eq!(number.number.deserialized, NumberValue::Unsigned(7));
    assert_eq!(text(&number), "7");

    let number = CafNumber::from(-12i64);
    assert_eq!(number.number.original, "-12");
    assert_eq!(number.number.deserialized, NumberValue::Signed(-12));
    assert_eq!(text(&number), "-12");
}

#[test]
fn number_literal_is_written_as_it_stands() {
    let number = CafNumber {
        fill: CafFill::new("  "),
        number: CafNumberValue { original: "0x1F".to_string(), deserialized: NumberValue::Unsigned(31) },
    };
    assert_eq!(text(&number), "  0x1F");

    let mut out = Vec::new();
    CafNumber::from_float_bits(1e3f64.to_bits(), "1e3").write_to_with_space(&mut out, " ");
    assert_eq!(out, b" 1e3".to_vec());
}

#[test]
fn number_recover_fill_keeps_the_number() {
    let mut number = CafNumber::from(5u64);
    let other = CafNumber {
        fill: CafFill::new("\n\t"),
        number: CafNumberValue::from_u64(6),
    };
    number.recover_fill(&other);
    assert_eq!(number.fill, CafFill::new("\n\t"));
    assert_eq!(number.number, CafNumberValue::from_u64(5));
    assert_eq!(text(&number), "\n\t5");
}

#[test]
fn finite_floats_and_integers_are_json_numbers() {
    assert!(NumberValue::Float(0.0f64.to_bits()).is_json());
    assert!(NumberValue::Float((-0.0f64).to_bits()).is_json());
    assert!(NumberValue::Float(f64::MAX.to_bits()).is_json());
    assert!(NumberValue::Float(f64::MIN_POSITIVE.to_bits()).is_json());
    assert!(NumberValue::Float(5e-324f64.to_bits()).is_json());
    assert!(!NumberValue::Float(f64::INFINITY.to_bits()).is_json());
    assert!(!NumberValue::Float(f64::NEG_INFINITY.to_bits()).is_json());
    assert!(!NumberValue::Float(f64::NAN.to_bits()).is_json());
    assert!(NumberValue::Unsigned(u64::MAX).is_json());
    assert!(NumberValue::Signed(i64::MIN).is_json());
}

#[test]
fn every_request_is_answered_with_the_natural_kind() {
    let requests = [
        TypeRequest::Any,
        TypeRequest::Number(NumberWidth::I8),
        TypeRequest::Number(NumberWidth::I16),
        TypeRequest::Number(NumberWidth::I32),
        TypeRequest::Number(NumberWidth::I64),
        TypeRequest::Number(NumberWidth::I128),
        TypeRequest::Number(NumberWidth::U8),
        TypeRequest::Number(NumberWidth::U16),
        TypeRequest::Number(NumberWidth::U32),
        TypeRequest::Number(NumberWidth::U64),
        TypeRequest::Number(NumberWidth::U128),
        TypeRequest::Number(NumberWidth::F32),
        TypeRequest::Number(NumberWidth::F64),
        TypeRequest::Other,
    ];
    let three = CafNumber::from(3u64);
    let half = CafNumber::from_float_bits(0.5f64.to_bits(), "0.5");
    let minus = CafNumber::from(-1i64);
    for request in requests {
        assert_eq!(three.deserialize(request), NumberVisit::VisitU64(3));
        assert_eq!(half.deserialize(request), NumberVisit::VisitF64(0.5f64.to_bits()));
        assert_eq!(minus.deserialize(request), NumberVisit::VisitI64(-1));
    }
}
