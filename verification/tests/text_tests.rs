use recruit_panels::text::{
    encode_joined, format_mention, mention_list, panel_title, parse_joined, parse_u64, str_eq,
    u64_to_string,
};

#[test]
fn decimal_rendering() {
    assert_eq!(u64_to_string(0), "0");
    assert_eq!(u64_to_string(7), "7");
    assert_eq!(u64_to_string(10), "10");
    assert_eq!(u64_to_string(302050872383242240), "302050872383242240");
    assert_eq!(u64_to_string(u64::MAX), "18446744073709551615");
}

#[test]
fn decimal_parsing_accepts_canonical() {
    assert_eq!(parse_u64("0"), Some(0));
    assert_eq!(parse_u64("42"), Some(42));
    assert_eq!(parse_u64("18446744073709551615"), Some(u64::MAX));
}

#[test]
fn decimal_parsing_rejects_everything_else() {
    assert_eq!(parse_u64(""), None);
    assert_eq!(parse_u64("007"), None);
    assert_eq!(parse_u64("-1"), None);
    assert_eq!(parse_u64("12a"), None);
    assert_eq!(parse_u64(" 12"), None);
    assert_eq!(parse_u64("18446744073709551616"), None);
    assert_eq!(parse_u64("99999999999999999999"), None);
}

#[test]
fn decimal_round_trip() {
    for n in [0u64, 1, 9, 10, 255, 1000, u64::MAX - 1, u64::MAX] {
        assert_eq!(parse_u64(&u64_to_string(n)), Some(n));
    }
}

#[test]
fn joined_list_rendering() {
    assert_eq!(encode_joined(&vec![]), "");
    assert_eq!(encode_joined(&vec![5]), "5");
    assert_eq!(encode_joined(&vec![1, 2, 3]), "1,2,3");
}

#[test]
fn joined_list_parsing() {
    assert_eq!(parse_joined("5"), Some(vec![5]));
    assert_eq!(parse_joined("1,2,3"), Some(vec![1, 2, 3]));
    assert_eq!(parse_joined(""), None);
    assert_eq!(parse_joined("1,,2"), None);
    assert_eq!(parse_joined("1,2,"), None);
    assert_eq!(parse_joined(",1"), None);
    assert_eq!(parse_joined("1,02"), None);
    assert_eq!(parse_joined("a,b"), None);
}

#[test]
fn joined_list_round_trip() {
    let ids = vec![302050872383242240u64, 1, 99, u64::MAX];
    assert_eq!(parse_joined(&encode_joined(&ids)), Some(ids));
}

#[test]
fn mention_rendering() {
    assert_eq!(format_mention(5), "<@5>");
    assert_eq!(mention_list(&vec![], "\n"), "");
    assert_eq!(mention_list(&vec![1], " "), "<@1>");
    assert_eq!(mention_list(&vec![1, 2], "\n"), "<@1>\n<@2>");
    assert_eq!(mention_list(&vec![1, 2, 3], " "), "<@1> <@2> <@3>");
}

#[test]
fn title_rendering() {
    assert_eq!(panel_title(1, 5), "(1/5)");
    assert_eq!(panel_title(10, 10), "(10/10)");
    assert_eq!(panel_title(0, 2), "(0/2)");
}

#[test]
fn string_equality() {
    assert!(str_eq("", ""));
    assert!(str_eq("abc", "abc"));
    assert!(!str_eq("abc", "abd"));
    assert!(!str_eq("abc", "abcd"));
}
