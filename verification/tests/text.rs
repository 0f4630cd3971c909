use stock_stream::text::{
    decimal_string, parse_u128, parse_u32, remove_spaces_str, split_str, splitn3_str, trim_str,
};

#[test]
fn split_keeps_empty_pieces() {
    assert_eq!(split_str("", '|'), vec![""]);
    assert_eq!(split_str("|", '|'), vec!["", ""]);
    assert_eq!(split_str("a|b||c", '|'), vec!["a", "b", "", "c"]);
}

#[test]
fn splitn3_keeps_the_rest_whole() {
    assert_eq!(splitn3_str("a b c d", ' '), vec!["a", "b", "c d"]);
    assert_eq!(splitn3_str("a b", ' '), vec!["a", "b"]);
    assert_eq!(splitn3_str("ab", ' '), vec!["ab"]);
    assert_eq!(splitn3_str("a  b", ' '), vec!["a", "", "b"]);
}

#[test]
fn trim_matches_std() {
    for s in ["", "  ", " a ", "\t\na b\r\n", "\u{85}x\u{2029}", "\u{200b}y"] {
        assert_eq!(trim_str(s), s.trim());
    }
}

#[test]
fn remove_spaces_matches_replace() {
    for s in ["", " ", "a b c", " A , B\t"] {
        assert_eq!(remove_spaces_str(s), s.replace(" ", ""));
    }
}

#[test]
fn decimal_matches_display() {
    for n in [0u128, 7, 10, 99, 100, 123456789, u64::MAX as u128, u128::MAX] {
        assert_eq!(decimal_string(n), n.to_string());
    }
}

#[test]
fn parse_matches_std() {
    for s in ["", "+", "-", "0", "+0", "-0", "12", "00012", "1 2", "4294967295", "4294967296", "x1", "١"] {
        assert_eq!(parse_u32(s), s.parse::<u32>().ok(), "{:?}", s);
        assert_eq!(parse_u128(s), s.parse::<u128>().ok(), "{:?}", s);
    }
    let big = "340282366920938463463374607431768211456";
    assert_eq!(parse_u128(big), None);
    assert_eq!(parse_u128("340282366920938463463374607431768211455"), Some(u128::MAX));
}
