use smartos_executor::gz_config::parse_gz_config;
use smartos_executor::nictag::parse_nictags;
use smartos_executor::number::{parse_i64, parse_usize};
use smartos_executor::pwhash::root_password_hash;
use smartos_executor::text::{lines, split_char, str_eq};

#[test]
fn nictags_one_per_line() {
    let out = "admin,00:0c:29:aa:bb:cc,e1000g0,normal\nexternal,00:0c:29:dd:ee:ff,e1000g1,normal\n";
    let tags = parse_nictags(out).unwrap();
    assert_eq!(tags.len(), 2);
    assert_eq!(tags[0].name, "admin");
    assert_eq!(tags[0].mac_address, "00:0c:29:aa:bb:cc");
    assert_eq!(tags[0].link, "e1000g0");
    assert_eq!(tags[0].tag_type, "normal");
    assert_eq!(tags[1].name, "external");
}

#[test]
fn nictags_extra_fields_are_ignored() {
    let tags = parse_nictags("a,b,c,d,e").unwrap();
    assert_eq!(tags[0].tag_type, "d");
    assert!(parse_nictags("").unwrap().is_empty());
}

#[test]
fn nictags_short_line_is_refused() {
    assert_eq!(parse_nictags("admin,mac,link\n").unwrap_err(), "nictagadm sent unexpected output");
    assert!(parse_nictags("a,b,c,d\n\n").is_err());
}

#[test]
fn root_hash_from_shadow() {
    let shadow = "daemon:NP:6445::::::\nroot:$5$abc$xyz:19000::::::\nroot:other:1\n";
    assert_eq!(root_password_hash(shadow), "$5$abc$xyz");
    assert_eq!(root_password_hash("nobody:*:1\n"), "");
    assert_eq!(root_password_hash("root\nroot:h"), "h");
}

#[test]
fn gz_config_entries() {
    let contents = "# comment\ncoal=true\n\n indented=1\nno_equals\na=b=c\nadmin_nic=00:0c:29:aa:bb:cc\r\n";
    let entries = parse_gz_config(contents);
    assert_eq!(
        entries,
        vec![
            ("coal".to_string(), "true".to_string()),
            ("admin_nic".to_string(), "00:0c:29:aa:bb:cc".to_string()),
        ]
    );
}

#[test]
fn lines_follow_std() {
    for s in ["", "a", "a\n", "a\n\nb", "a\r\nb\r\n", "x\r", "\n", "\r\n\r\n"] {
        let expected: Vec<String> = s.lines().map(String::from).collect();
        assert_eq!(lines(s), expected, "lines of {:?}", s);
    }
}

#[test]
fn split_follows_std() {
    for s in ["", ",", "a,b", "a,,b,", ",a"] {
        let expected: Vec<String> = s.split(',').map(String::from).collect();
        assert_eq!(split_char(s, ','), expected, "split of {:?}", s);
    }
    assert!(str_eq("abc", "abc"));
    assert!(!str_eq("abc", "abd"));
    assert!(!str_eq("ab", "abc"));
}

#[test]
fn numbers_follow_std() {
    for s in ["0", "+7", "-1", "", "+", "12a", "18446744073709551615", "18446744073709551616", " 1"] {
        assert_eq!(parse_usize(s), s.parse::<usize>().ok(), "usize {:?}", s);
    }
    for s in [
        "300",
        "-300",
        "+5",
        "-",
        "--1",
        "9223372036854775807",
        "9223372036854775808",
        "-9223372036854775808",
        "-9223372036854775809",
        "1.5",
    ] {
        assert_eq!(parse_i64(s), s.parse::<i64>().ok(), "i64 {:?}", s);
    }
}
