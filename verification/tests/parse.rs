use gold_rates::parse::{parse_i64, parse_number, RateValue};
use gold_rates::utils::format_rupiah;

fn chars(s: &str) -> Vec<char> {
    s.chars().collect()
}

#[test]
fn parse_i64_like_std() {
    for s in [
        "0", "42", "-42", "+42", "007", "-0", "", "-", "+", "1a", " 1", "1 ", "--1",
        "9223372036854775807", "9223372036854775808", "-9223372036854775808",
        "-9223372036854775809", "99999999999999999999999", "١٢",
    ] {
        assert_eq!(parse_i64(&chars(s)), s.parse::<i64>().ok(), "text {:?}", s);
    }
}

#[test]
fn parse_number_values() {
    assert_eq!(parse_number(&RateValue::Number(1234)), Some(1234));
    assert_eq!(parse_number(&RateValue::Text("1.234.000".to_string())), Some(1234000));
    assert_eq!(parse_number(&RateValue::Text("1,234,000".to_string())), Some(1234000));
    assert_eq!(parse_number(&RateValue::Text("-2.500".to_string())), Some(-2500));
    assert_eq!(parse_number(&RateValue::Text("1.2x".to_string())), None);
    assert_eq!(parse_number(&RateValue::Text("".to_string())), None);
    assert_eq!(parse_number(&RateValue::Text(".,".to_string())), None);
    assert_eq!(parse_number(&RateValue::Other), None);
}

#[test]
fn rupiah_reads_back() {
    for n in [0i64, 5, -5, 1000, -1000, 1234567, i64::MAX, i64::MIN, -999_999] {
        assert_eq!(parse_number(&RateValue::Text(format_rupiah(n))), Some(n));
    }
}
