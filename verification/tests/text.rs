use knobs::text::{decimal, join_strings, parse_u64, text_of_u64};

fn chars(s: &str) -> Vec<char> {
    s.chars().collect()
}

#[test]
fn decimal_round_trip() {
    for n in [0u64, 7, 10, 4_800_000, u64::MAX] {
        let d = decimal(n);
        assert_eq!(d.iter().collect::<String>(), n.to_string());
        assert_eq!(parse_u64(&d), Some(n));
        assert_eq!(text_of_u64(n), n.to_string());
    }
}

#[test]
fn parse_u64_as_from_str() {
    assert_eq!(parse_u64(&chars("+5")), Some(5));
    assert_eq!(parse_u64(&chars("18446744073709551616")), None);
    assert_eq!(parse_u64(&chars("")), None);
    assert_eq!(parse_u64(&chars("+")), None);
    assert_eq!(parse_u64(&chars("-1")), None);
    assert_eq!(parse_u64(&chars("007")), Some(7));
}

#[test]
fn join_with_spaces() {
    let v = vec!["a".to_string(), "bc".to_string()];
    assert_eq!(join_strings(&v, ' '), "a bc");
    assert_eq!(join_strings(&[], ' '), "");
}
