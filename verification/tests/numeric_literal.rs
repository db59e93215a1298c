use apl_frontend::errors::BaseErr;
use apl_frontend::numeric_literal::{FloatLit, NumericLiteral};

fn flit(negative: bool, magnitude: &str, exponent: i64) -> FloatLit {
    FloatLit { negative, magnitude: magnitude.to_string(), exponent }
}

/// The machine-float value a float literal denotes, realized as the
/// original representation did: magnitude times ten to the exponent.
fn lit_f64(f: &FloatLit) -> f64 {
    let m: f64 = f.magnitude.parse().unwrap();
    let v = m * 10f64.powi(f.exponent as i32);
    if f.negative {
        -v
    } else {
        v
    }
}

fn complex_parts(s: &str) -> (f64, f64) {
    match s.parse::<NumericLiteral>().unwrap() {
        NumericLiteral::Complex(re, im) => (lit_f64(&re), lit_f64(&im)),
        other => panic!("expected a complex literal, got {:?}", other),
    }
}

#[test]
fn numeric_literal_it_parses_integer_complex() {
    assert_eq!((10.0, 10.0), complex_parts("10J10"));
    assert_eq!((10.0, 10.0), complex_parts("10.0J10.0"));
    assert_eq!((10.1, -10.1), complex_parts("10.1J¯10.1"));
    assert_eq!((-10.123, -10.123), complex_parts("¯10.123J¯10.123"));
    assert_eq!((10.0e2, 10.0), complex_parts("10.0E2J10.0"));
    assert_eq!((2345e-2, 2345.0), complex_parts("2345E¯2J2345"));
    assert_eq!((-2345e-2, 2345.0), complex_parts("¯2345E¯2J2345"));
}

#[test]
fn numeric_literal_it_parses_simple_auto() {
    match "1234".parse::<NumericLiteral>().unwrap() {
        NumericLiteral::Auto(f) => assert_eq!(1234.0, lit_f64(&f)),
        other => panic!("expected an unannotated literal, got {:?}", other),
    }
}

fn float_parts(s: &str) -> (u8, f64) {
    match s.parse::<NumericLiteral>().unwrap() {
        NumericLiteral::Float(volume, f) => (volume, lit_f64(&f)),
        other => panic!("expected a float literal, got {:?}", other),
    }
}

#[test]
fn numeric_literal_it_parses_simple_float() {
    assert_eq!((5, 1234f64), float_parts("1234f"));
    assert_eq!((5, 1234e2f64), float_parts("1234E2f"));
    assert_eq!((5, 1234e-2f64), float_parts("1234E¯2f"));
    assert_eq!((4, 1234e-2f64), float_parts("1234E¯2f4"));
    assert_eq!((5, 1234e-2f64), float_parts("1234E¯2f5"));
}

#[test]
fn numeric_literal_it_parses_unsigned() {
    assert_eq!(
        NumericLiteral::Uint(4, 123400u64),
        "1234E2u4".parse::<NumericLiteral>().unwrap()
    );
    assert_eq!(
        NumericLiteral::Uint(4, 12340u64),
        "1234E1u4".parse::<NumericLiteral>().unwrap()
    );
    assert_eq!(
        NumericLiteral::Uint(3, 12330u64),
        "1233E1u3".parse::<NumericLiteral>().unwrap()
    );
    assert_eq!(
        BaseErr::new("invalid u64 value"),
        "1233E¯2u3".parse::<NumericLiteral>().unwrap_err()
    );
}

#[test]
fn numeric_literal_it_parses_ints() {
    assert_eq!(
        NumericLiteral::Int(4, 123400i64),
        "1234E2i4".parse::<NumericLiteral>().unwrap()
    );
    assert_eq!(
        NumericLiteral::Int(4, 12340i64),
        "1234E1i4".parse::<NumericLiteral>().unwrap()
    );
    assert_eq!(
        NumericLiteral::Int(3, 12330i64),
        "1233E1i3".parse::<NumericLiteral>().unwrap()
    );
    assert_eq!(
        BaseErr::new("invalid u64 value"),
        "1233E¯2i3".parse::<NumericLiteral>().unwrap_err()
    );
    assert_eq!(
        NumericLiteral::Int(4, -123400i64),
        "¯1234E2i4".parse::<NumericLiteral>().unwrap()
    );
    assert_eq!(
        NumericLiteral::Int(4, -12340i64),
        "¯1234E1i4".parse::<NumericLiteral>().unwrap()
    );
    assert_eq!(
        NumericLiteral::Int(3, -12330i64),
        "¯1233E1i3".parse::<NumericLiteral>().unwrap()
    );
}

#[test]
fn numeric_literal_it_parses_system_types() {
    assert_eq!(
        NumericLiteral::SysInt(123300i64),
        "1233E2i".parse::<NumericLiteral>().unwrap()
    );
    assert_eq!(
        NumericLiteral::SysUint(123300u64),
        "1233E2u".parse::<NumericLiteral>().unwrap()
    );
}

#[test]
fn numeric_literal_it_parses_bools() {
    assert_eq!(
        NumericLiteral::Boolean(true),
        "1b".parse::<NumericLiteral>().unwrap()
    );
    assert_eq!(
        NumericLiteral::Boolean(true),
        "2b".parse::<NumericLiteral>().unwrap()
    );
    assert_eq!(
        NumericLiteral::Boolean(false),
        "0b".parse::<NumericLiteral>().unwrap()
    );
}

#[test]
fn parses_sized_unsigned_without_exponent() {
    assert_eq!(
        NumericLiteral::Uint(4, 1u64),
        "1u4".parse::<NumericLiteral>().unwrap()
    );
}

#[test]
fn keeps_float_components_exactly() {
    match "¯10.123E¯2f4".parse::<NumericLiteral>().unwrap() {
        NumericLiteral::Float(volume, f) => {
            assert_eq!(4, volume);
            assert_eq!(flit(true, "10.123", -2), f);
        },
        other => panic!("expected a float literal, got {:?}", other),
    }
}

#[test]
fn reports_each_failing_segment() {
    assert_eq!(
        BaseErr::new("invalid i64 value"),
        "¯¯1i".parse::<NumericLiteral>().unwrap_err()
    );
    assert_eq!(
        BaseErr::new("invalid f64 value"),
        "xJ1".parse::<NumericLiteral>().unwrap_err()
    );
    assert_eq!(
        BaseErr::new("invalid f64 float value"),
        "¯xJ1".parse::<NumericLiteral>().unwrap_err()
    );
    assert_eq!(
        BaseErr::new("Failed to parse volume"),
        "1u300".parse::<NumericLiteral>().unwrap_err()
    );
    assert_eq!(
        BaseErr::new("Failed to parse volume"),
        "1u4x".parse::<NumericLiteral>().unwrap_err()
    );
    assert_eq!(
        BaseErr::new("unimplemented literal kind"),
        "1c".parse::<NumericLiteral>().unwrap_err()
    );
    assert_eq!(
        BaseErr::new("invalid u64 value"),
        "99999999999999999999u".parse::<NumericLiteral>().unwrap_err()
    );
}

#[test]
fn renders_literals_back_to_numeral_text() {
    assert_eq!("1u4", NumericLiteral::Uint(4, 1).to_text());
    assert_eq!("123u", NumericLiteral::SysUint(123).to_text());
    assert_eq!("¯5i", NumericLiteral::SysInt(-5).to_text());
    assert_eq!("¯123400i4", NumericLiteral::Int(4, -123400).to_text());
    assert_eq!("1b", NumericLiteral::Boolean(true).to_text());
    assert_eq!("0b", NumericLiteral::Boolean(false).to_text());
    assert_eq!(
        "1234f5",
        NumericLiteral::Float(5, flit(false, "1234", 0)).to_text()
    );
    assert_eq!(
        "¯10.123E¯2f4",
        NumericLiteral::Float(4, flit(true, "10.123", -2)).to_text()
    );
    assert_eq!(
        "10J¯10",
        NumericLiteral::Complex(flit(false, "10", 0), flit(true, "10", 0)).to_text()
    );
    assert_eq!("12.5E¯3", NumericLiteral::Auto(flit(false, "12.5", -3)).to_text());
}

#[test]
fn rendered_literals_parse_back() {
    let samples = [
        NumericLiteral::Uint(4, 1),
        NumericLiteral::SysUint(123),
        NumericLiteral::SysInt(-5),
        NumericLiteral::Int(4, -123400),
        NumericLiteral::Boolean(true),
        NumericLiteral::Float(4, flit(true, "10.123", -2)),
        NumericLiteral::Auto(flit(false, "12.5", -3)),
        NumericLiteral::Complex(flit(false, "10", 0), flit(true, "10", 2)),
    ];
    for lit in samples {
        let text = lit.to_text();
        assert_eq!(lit, text.parse::<NumericLiteral>().unwrap(), "text was {}", text);
    }
}
