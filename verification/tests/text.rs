use medio::text::{decimal_of, parse_uint};

fn chars(s: &str) -> Vec<char> {
    s.chars().collect()
}

#[test]
fn decimal_numbers_read_back() {
    for n in [0_u64, 7, 10, 2010, 65535] {
        let written = decimal_of(n);
        assert_eq!(parse_uint(&written, 65535), Some(n));
    }
    assert_eq!(decimal_of(1234), chars("1234"));
}

#[test]
fn parse_uint_follows_std_parse() {
    assert_eq!(parse_uint(&chars("+7"), 255), Some(7));
    assert_eq!(parse_uint(&chars("256"), 255), None);
    assert_eq!(parse_uint(&chars(""), 255), None);
    assert_eq!(parse_uint(&chars("+"), 255), None);
    assert_eq!(parse_uint(&chars("12a"), 255), None);
    assert_eq!(parse_uint(&chars("007"), 255), Some(7));
}
