use std::path::PathBuf;
use tiny_args::number::{is_float, parse_decimal};
use tiny_args::{ArgValue, FloatText};

fn float(text: &str) -> FloatText {
    FloatText::new(text.to_string()).unwrap()
}

#[test]
fn test_value_macro() {
    assert_eq!(ArgValue::Flag, ArgValue::Flag);
    assert_eq!(ArgValue::String(None), ArgValue::String(None));
    assert_eq!(ArgValue::Num(None), ArgValue::Num(None));
    assert_eq!(ArgValue::Float(None), ArgValue::Float(None));
    assert_eq!(ArgValue::Path(None), ArgValue::Path(None));
    assert_eq!(
        ArgValue::String(Some("a b c".into())),
        ArgValue::String(Some("a b c".into()))
    );
    assert_eq!(ArgValue::Num(Some(2)), ArgValue::Num(Some(2)));
    assert_eq!(ArgValue::Float(Some(float("2.3"))), ArgValue::Float(Some(float("2.3"))));
    assert_eq!(float("2.3").as_str().parse::<f64>().unwrap(), 2.3);
    assert_eq!(ArgValue::Path(Some("/path".into())), ArgValue::Path(Some("/path".into())));
}

#[test]
fn kinds_differ() {
    assert_ne!(ArgValue::Flag, ArgValue::String(None));
    assert_ne!(ArgValue::String(None), ArgValue::Path(None));
    assert_ne!(ArgValue::Num(None), ArgValue::Float(None));
    assert_ne!(ArgValue::Num(Some(2)), ArgValue::Num(Some(3)));
    assert_ne!(ArgValue::Num(Some(2)), ArgValue::Num(None));
}

#[test]
fn only_flags_take_no_value() {
    assert!(!ArgValue::Flag.takes_value());
    assert!(ArgValue::String(None).takes_value());
    assert!(ArgValue::Num(Some(1)).takes_value());
    assert!(ArgValue::Float(None).takes_value());
    assert!(ArgValue::Path(None).takes_value());
}

#[test]
fn reading_keeps_the_kind() {
    assert_eq!(
        ArgValue::String(Some("old".into())).read("new".to_string()),
        Ok(ArgValue::String(Some("new".into())))
    );
    assert_eq!(ArgValue::String(None).read(String::new()), Ok(ArgValue::String(Some(String::new()))));
    assert_eq!(ArgValue::Num(Some(3)).read("-42".to_string()), Ok(ArgValue::Num(Some(-42))));
    assert_eq!(ArgValue::Num(None).read("4x".to_string()), Err("4x".to_string()));
    assert_eq!(
        ArgValue::Float(None).read("1e3".to_string()),
        Ok(ArgValue::Float(Some(float("1e3"))))
    );
    assert_eq!(ArgValue::Float(None).read("notanumber".to_string()), Err("notanumber".to_string()));
    assert_eq!(
        ArgValue::Path(None).read("/some/path".to_string()),
        Ok(ArgValue::Path(Some(PathBuf::from("/some/path"))))
    );
    assert_eq!(ArgValue::Flag.read("ignored".to_string()), Ok(ArgValue::Flag));
}

#[test]
fn a_clone_is_the_same_value() {
    let values = [
        ArgValue::Flag,
        ArgValue::String(Some("text".into())),
        ArgValue::String(None),
        ArgValue::Num(Some(-7)),
        ArgValue::Float(Some(float("-0.5"))),
        ArgValue::Path(Some(PathBuf::from("/a/b"))),
        ArgValue::Path(None),
    ];
    for value in &values {
        assert_eq!(&value.clone(), value);
    }
}

#[test]
fn decimal_integers() {
    assert_eq!(parse_decimal("0"), Some(0));
    assert_eq!(parse_decimal("6"), Some(6));
    assert_eq!(parse_decimal("+6"), Some(6));
    assert_eq!(parse_decimal("-6"), Some(-6));
    assert_eq!(parse_decimal("-0"), Some(0));
    assert_eq!(parse_decimal("007"), Some(7));
    assert_eq!(parse_decimal("1234567890"), Some(1234567890));
    assert_eq!(parse_decimal("9223372036854775807"), Some(i64::MAX));
    assert_eq!(parse_decimal("-9223372036854775808"), Some(i64::MIN));
    assert_eq!(parse_decimal("00000000000000000000000000000000000012"), Some(12));
}

#[test]
fn not_decimal_integers() {
    for text in [
        "", "+", "-", "--1", "+-1", "1-", "1+1", " 1", "1 ", "1_000", "0x10", "1.0", "1e3", "one",
        "٣", "１", "9223372036854775808", "-9223372036854775809", "99999999999999999999999",
        "-99999999999999999999999", "12a", "a12", "1\u{0}",
    ] {
        assert_eq!(parse_decimal(text), None, "{:?}", text);
    }
}

#[test]
fn decimal_integers_read_as_the_standard_library_reads_them() {
    for text in [
        "", "+", "-", "0", "-0", "+0", "42", "-42", "+42", "0042", "4 2", "42 ", " 42", "4_2",
        "9223372036854775807", "9223372036854775808", "-9223372036854775808",
        "-9223372036854775809", "18446744073709551616", "1e5", "1.5", "abc", "-abc", "²", "4²",
        "++4", "4-",
    ] {
        assert_eq!(parse_decimal(text), text.parse::<i64>().ok(), "{:?}", text);
    }
}

#[test]
fn floating_point_literals() {
    for text in [
        "0", "1", "-1", "+1", "1.", ".5", "1.5", "-1.5", "+.5", "-5.", "3.141592653589793", "1e5",
        "1E5", "1e+5", "1e-5", "1.5e10", ".5e1", "5.e1", "-1.25E-3", "007.500", "1e0005", "inf",
        "+inf", "-inf", "INF", "Inf", "infinity", "-Infinity", "INFINITY", "iNfInItY", "nan", "NaN",
        "-nan", "+NAN", "123456789012345678901234567890", "1e999999",
    ] {
        assert!(is_float(text), "{:?}", text);
        assert!(FloatText::new(text.to_string()).is_ok(), "{:?}", text);
    }
}

#[test]
fn not_floating_point_literals() {
    for text in [
        "", "+", "-", ".", "+.", "-.", "e", "e5", ".e5", "1e", "1e+", "1e-", "1e5.0", "1.5.5",
        "1..5", "1e5e5", "--1", "+-1", " 1", "1 ", "1_000", "0x10", "1f64", "1.5f", "notanumber",
        "in", "infinit", "infinityy", "na", "nana", "i n f", "1,5", "１", "1é", "é", "١", "ınf",
        "+ 1", "1 e5", "e", "E", "-e", "nan1", "1nan", "inf.", "++inf",
    ] {
        assert!(!is_float(text), "{:?}", text);
        assert_eq!(FloatText::new(text.to_string()), Err(text.to_string()), "{:?}", text);
    }
}

#[test]
fn floating_point_literals_are_what_the_standard_library_reads() {
    for text in [
        "", ".", "0", "-0", "1.", ".1", "1.1", "1e1", "1e", "e1", "1e+1", "1e-1", "1e+-1", "+1",
        "-1", "+-1", "1.e1", ".1e1", ".e1", "inf", "infinity", "infinit", "nan", "NaN", "nAn",
        "-nan", "+inf", "INFINITY", "in", "1_0", "0x1p3", "1f32", " 1", "1 ", "1\n", "1.0.0",
        "1e1e1", "١٢٣", "1é", "١", "3.141592653589793", "2.3", "1e400", "4.9e-324",
        "179769313486231570000000000000000000000", "+", "-", "e", "E", "1E5", "1D5", "1.5E+10",
        ".", "..", "-.5", "-.", "nan ", "N a N",
    ] {
        assert_eq!(is_float(text), text.parse::<f64>().is_ok(), "{:?}", text);
    }
}

#[test]
fn a_float_literal_keeps_its_text() {
    let pi = float("3.141592653589793");
    assert_eq!(pi.as_str(), "3.141592653589793");
    assert_eq!(pi.as_str().parse::<f64>().unwrap(), std::f64::consts::PI);
    assert_eq!(pi.clone(), pi);
    assert_eq!(float("-inf").as_str().parse::<f64>().unwrap(), f64::NEG_INFINITY);
    assert!(float("NaN").as_str().parse::<f64>().unwrap().is_nan());
}
