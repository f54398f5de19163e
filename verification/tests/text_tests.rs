use lib::text::{
    chars_of, decimal_string, eq_ignore_case, parse_unsigned_exec, split_ranges, str_eq,
    trim_blanks_range, trim_end_crlf_len, utf8_len_exceeds,
};

fn pieces(s: &str, c: char) -> Vec<String> {
    let chars = chars_of(s);
    split_ranges(&chars, c).iter().map(|(a, b)| chars[*a..*b].iter().collect()).collect()
}

#[test]
fn split_keeps_empty_pieces() {
    assert_eq!(pieces("a b", ' '), vec!["a", "b"]);
    assert_eq!(pieces("", ' '), vec![""]);
    assert_eq!(pieces(" a  b ", ' '), vec!["", "a", "", "b", ""]);
    assert_eq!(pieces("abc", ' '), vec!["abc"]);
}

#[test]
fn trimming() {
    let c = chars_of("x\r\n\r\n");
    assert_eq!(trim_end_crlf_len(&c), 1);
    let c = chars_of("x\n\r");
    assert_eq!(trim_end_crlf_len(&c), 3);
    let c = chars_of(" \t a b\t ");
    assert_eq!(trim_blanks_range(&c), (3, 6));
    let c = chars_of(" \t ");
    let (lo, hi) = trim_blanks_range(&c);
    assert_eq!(lo, hi);
}

#[test]
fn numbers() {
    assert_eq!(decimal_string(0), "0");
    assert_eq!(decimal_string(7), "7");
    assert_eq!(decimal_string(1048576), "1048576");
    assert_eq!(decimal_string(usize::MAX), usize::MAX.to_string());
    assert_eq!(parse_unsigned_exec(&chars_of("65535"), 65535), Some(65535));
    assert_eq!(parse_unsigned_exec(&chars_of("65536"), 65535), None);
    assert_eq!(parse_unsigned_exec(&chars_of("+12"), 65535), Some(12));
    assert_eq!(parse_unsigned_exec(&chars_of("+"), 65535), None);
    assert_eq!(parse_unsigned_exec(&chars_of(""), 65535), None);
    assert_eq!(parse_unsigned_exec(&chars_of("1 "), 65535), None);
    assert_eq!(parse_unsigned_exec(&chars_of("007"), 65535), Some(7));
    assert_eq!(parse_unsigned_exec(&chars_of("18446744073709551615"), u64::MAX), Some(u64::MAX));
    assert_eq!(parse_unsigned_exec(&chars_of("18446744073709551616"), u64::MAX), None);
    assert_eq!(parse_unsigned_exec(&chars_of("99999999999999999999999x"), u64::MAX), None);
    for n in [0usize, 1, 9, 10, 99, 100, 65535, 123456789] {
        assert_eq!(parse_unsigned_exec(&chars_of(&decimal_string(n)), u64::MAX), Some(n as u64));
    }
}

#[test]
fn comparisons() {
    assert!(str_eq("abc", "abc"));
    assert!(!str_eq("abc", "abd"));
    assert!(eq_ignore_case("Content-Type", "content-TYPE"));
    assert!(!eq_ignore_case("Host", "Hosts"));
    assert!(eq_ignore_case("ÉA", "Éa"));
    assert!(!eq_ignore_case("É", "é"));
}

#[test]
fn utf8_lengths() {
    assert!(!utf8_len_exceeds(&chars_of("abc"), 3));
    assert!(utf8_len_exceeds(&chars_of("abcd"), 3));
    assert!(utf8_len_exceeds(&chars_of("é€"), 4));
    assert!(!utf8_len_exceeds(&chars_of("é€"), 5));
    assert!(!utf8_len_exceeds(&chars_of("😀"), 4));
    assert!(utf8_len_exceeds(&chars_of("😀"), 3));
}
