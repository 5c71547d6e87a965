use datazero::text::{
    after_last_char, chars_of, contains, decimal_chars, first_word_of, hex_lower, parse_usize,
    signed_decimal_chars, split_lines, splitn_chars, starts_with, trim_chars,
};

fn s(v: &[char]) -> String {
    v.iter().collect()
}

#[test]
fn trimming_matches_std() {
    for t in ["", "  ", " a b ", "\t\r\nx\u{2003}", "\u{85}y\u{200b}", "z"] {
        let c = chars_of(t);
        assert_eq!(s(&trim_chars(&c)), t.trim(), "{:?}", t);
    }
}

#[test]
fn lines_match_std() {
    for t in ["", "\n", "a", "a\n", "a\r\nb", "a\rb\r", "\r\n\r\n", "x\n\ny\n", "a\r"] {
        let c = chars_of(t);
        let ours: Vec<String> = split_lines(&c).iter().map(|l| s(l)).collect();
        let std: Vec<String> = t.lines().map(|l| l.to_string()).collect();
        assert_eq!(ours, std, "{:?}", t);
    }
}

#[test]
fn splitn_matches_std() {
    for t in ["", "a", "a,b", "a,b,c,d,e,f,g", ",,", "x,y,"] {
        for n in 0..5usize {
            let c = chars_of(t);
            let ours: Vec<String> = splitn_chars(&c, n, ',').iter().map(|p| s(p)).collect();
            let std: Vec<String> = t.splitn(n, ',').map(|p| p.to_string()).collect();
            assert_eq!(ours, std, "{:?} {}", t, n);
        }
    }
}

#[test]
fn searching() {
    let h = chars_of("samsung nvme");
    assert!(contains(&h, &chars_of("nvme")));
    assert!(contains(&h, &chars_of("")));
    assert!(!contains(&h, &chars_of("ssd")));
    assert!(!contains(&chars_of("nv"), &chars_of("nvme")));
    assert!(starts_with(&h, &chars_of("sams")));
    assert!(!starts_with(&h, &chars_of("nvme")));
    assert_eq!(s(&after_last_char(&chars_of("\\\\.\\PHYSICALDRIVE3"), '\\')), "PHYSICALDRIVE3");
    assert_eq!(s(&after_last_char(&chars_of("plain"), '\\')), "plain");
    assert_eq!(s(&after_last_char(&chars_of("end\\"), '\\')), "");
    assert_eq!(first_word_of(&chars_of("  abc\tdef")).map(|w| s(&w)), Some("abc".to_string()));
    assert_eq!(first_word_of(&chars_of(" \t ")), None);
}

#[test]
fn numbers() {
    assert_eq!(s(&decimal_chars(0)), "0");
    assert_eq!(s(&decimal_chars(10)), "10");
    assert_eq!(s(&decimal_chars(u64::MAX)), u64::MAX.to_string());
    assert_eq!(s(&signed_decimal_chars(-5)), "-5");
    assert_eq!(s(&signed_decimal_chars(i64::MIN)), i64::MIN.to_string());
    for n in [0usize, 7, 10, 99, 100, 123456, usize::MAX] {
        assert_eq!(parse_usize(&chars_of(&n.to_string())), Some(n));
    }
    assert_eq!(parse_usize(&chars_of("+12")), Some(12));
    assert_eq!(parse_usize(&chars_of("++1")), None);
    assert_eq!(parse_usize(&chars_of("1_000")), None);
}

#[test]
fn hex_rendering() {
    assert_eq!(s(&hex_lower(&[])), "");
    assert_eq!(s(&hex_lower(&[0x00, 0x0f, 0xa5, 0xff])), "000fa5ff");
    assert_eq!(s(&hex_lower(&[0xde, 0xad, 0xbe, 0xef])), hex::encode([0xde, 0xad, 0xbe, 0xef]));
}
