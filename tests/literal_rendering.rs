use uniffi_bindgen::literal::{render_literal, DefaultValue, Literal, PrimitiveCodeType, Radix, RenderError};
use uniffi_bindgen::types::Type;

fn ok(l: &Literal) -> String {
    match render_literal(l) {
        Ok(s) => s,
        Err(e) => panic!("unexpected error: {:?}", e),
    }
}

#[test]
fn hex_and_decimal_denote_same_value() {
    let hex = ok(&Literal::Int(255, Radix::Hexadecimal, Type::Int32));
    let dec = ok(&Literal::Int(255, Radix::Decimal, Type::Int32));
    assert_eq!(hex, "0xff");
    assert_eq!(dec, "255");
    assert_eq!(i64::from_str_radix(&hex[2..], 16).unwrap(), 255);
    assert_eq!(dec.parse::<i64>().unwrap(), 255);
}

#[test]
fn octal_is_prefixed() {
    assert_eq!(ok(&Literal::UInt(8, Radix::Octal, Type::UInt32)), "UInt32(0o10)");
    assert_eq!(ok(&Literal::UInt(0, Radix::Hexadecimal, Type::Int32)), "0x0");
}

#[test]
fn int32_is_bare_and_int16_is_boxed() {
    assert_eq!(ok(&Literal::Int(5, Radix::Decimal, Type::Int32)), "5");
    assert_eq!(ok(&Literal::Int(5, Radix::Decimal, Type::Int16)), "Int16(5)");
}

#[test]
fn every_boxed_width_uses_its_label() {
    assert_eq!(ok(&Literal::UInt(3, Radix::Decimal, Type::UInt8)), "UInt8(3)");
    assert_eq!(ok(&Literal::Int(3, Radix::Decimal, Type::Int8)), "Int8(3)");
    assert_eq!(ok(&Literal::UInt(3, Radix::Decimal, Type::UInt16)), "UInt16(3)");
    assert_eq!(ok(&Literal::Int(3, Radix::Decimal, Type::Int64)), "Int64(3)");
    assert_eq!(ok(&Literal::UInt(3, Radix::Decimal, Type::UInt64)), "UInt64(3)");
    assert_eq!(ok(&Literal::Float("2.5".to_string(), Type::Float32)), "Float(2.5)");
    assert_eq!(ok(&Literal::Float("1.5".to_string(), Type::Float64)), "Double(1.5)");
}

#[test]
fn negative_numbers() {
    assert_eq!(ok(&Literal::Int(-5, Radix::Decimal, Type::Int64)), "Int64(-5)");
    assert_eq!(ok(&Literal::Int(i64::MIN, Radix::Decimal, Type::Int32)), "-9223372036854775808");
    assert_eq!(
        ok(&Literal::Int(-1, Radix::Hexadecimal, Type::Int64)),
        "Int64(0xffffffffffffffff)"
    );
    assert_eq!(ok(&Literal::UInt(u64::MAX, Radix::Decimal, Type::Int32)), "18446744073709551615");
}

#[test]
fn optional_is_unwrapped() {
    let opt = Type::Optional { inner_type: Box::new(Type::UInt8) };
    let a = ok(&Literal::UInt(7, Radix::Decimal, opt));
    let b = ok(&Literal::UInt(7, Radix::Decimal, Type::UInt8));
    assert_eq!(a, b);
    assert_eq!(a, "UInt8(7)");
}

#[test]
fn defaults_of_primitives() {
    assert_eq!(PrimitiveCodeType::Boolean.default(&DefaultValue::Default).unwrap(), "false");
    assert_eq!(PrimitiveCodeType::String.default(&DefaultValue::Default).unwrap(), "\"\"");
    assert_eq!(PrimitiveCodeType::UInt8.default(&DefaultValue::Default).unwrap(), "UInt8(0)");
    assert_eq!(PrimitiveCodeType::Int32.default(&DefaultValue::Default).unwrap(), "0");
    assert_eq!(PrimitiveCodeType::Bytes.default(&DefaultValue::Default).unwrap(), "Data([])");
    assert_eq!(PrimitiveCodeType::Float64.default(&DefaultValue::Default).unwrap(), "Double(0)");
}

#[test]
fn default_of_literal_renders_it() {
    let d = DefaultValue::Literal(Literal::Boolean(true));
    assert_eq!(PrimitiveCodeType::Boolean.default(&d).unwrap(), "true");
}

#[test]
fn labels() {
    assert_eq!(PrimitiveCodeType::Float32.type_label(), "Float");
    assert_eq!(PrimitiveCodeType::Float64.type_label(), "Double");
    assert_eq!(PrimitiveCodeType::Bytes.type_label(), "Data");
}

#[test]
fn booleans_and_strings() {
    assert_eq!(ok(&Literal::Boolean(false)), "false");
    assert_eq!(ok(&Literal::String("hi".to_string())), "\"hi\"");
}

#[test]
fn unsupported_literals_fail() {
    let cases = vec![
        Literal::EmptySequence,
        Literal::EmptyMap,
        Literal::NoneValue,
        Literal::Enum("Red".to_string(), Type::Int32),
    ];
    for l in cases {
        match render_literal(&l) {
            Err(RenderError::UnsupportedLiteral { literal, code_type }) => {
                assert_eq!(format!("{:?}", literal), format!("{:?}", l));
                assert!(code_type.is_none());
            }
            other => panic!("expected unsupported literal, got {:?}", other),
        }
    }
}

#[test]
fn number_for_non_numeric_type_fails() {
    match render_literal(&Literal::Int(1, Radix::Decimal, Type::String)) {
        Err(RenderError::UnexpectedLiteralForType { numeral, type_ }) => {
            assert_eq!(numeral, "1");
            assert!(matches!(type_, Type::String));
        }
        other => panic!("expected unexpected-type error, got {:?}", other),
    }
    assert!(matches!(
        render_literal(&Literal::Float("1.0".to_string(), Type::Boolean)),
        Err(RenderError::UnexpectedLiteralForType { .. })
    ));
}

#[test]
fn unsupported_default_names_code_type() {
    let d = DefaultValue::Literal(Literal::EmptyMap);
    match PrimitiveCodeType::UInt8.default(&d) {
        Err(RenderError::UnsupportedLiteral { literal, code_type }) => {
            assert!(matches!(literal, Literal::EmptyMap));
            assert_eq!(code_type, Some(PrimitiveCodeType::UInt8));
        }
        other => panic!("expected unsupported literal, got {:?}", other),
    }
}

#[test]
fn unexpected_type_error_carries_declared_type() {
    let opt = Type::Optional { inner_type: Box::new(Type::String) };
    match render_literal(&Literal::UInt(3, Radix::Decimal, opt)) {
        Err(RenderError::UnexpectedLiteralForType { numeral, type_ }) => {
            assert_eq!(numeral, "3");
            assert!(matches!(type_, Type::Optional { .. }));
        }
        other => panic!("expected unexpected-type error, got {:?}", other),
    }
}
