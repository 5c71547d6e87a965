use datazero::device::Device;
use datazero::media::MediaType;
use datazero::select::{
    answer_matches, confirmation_token, final_confirmation, find_device_by_path, parse_selection,
    Selection,
};

fn dev(name: &str, serial: Option<&str>) -> Device {
    Device {
        name: name.to_string(),
        path: format!("/dev/{}", name),
        size: "1G".to_string(),
        model: None,
        serial: serial.map(|s| s.to_string()),
        tran: None,
        media: MediaType::HDD,
        source: "local".to_string(),
        removable: false,
    }
}

#[test]
fn tokens() {
    assert_eq!(confirmation_token(&dev("sda", Some("WD-123"))), "WD-123");
    assert_eq!(confirmation_token(&dev("sdb", None)), "ERASE-sdb");
}

#[test]
fn typed_answers() {
    assert!(answer_matches("WD-123\n", "WD-123"));
    assert!(answer_matches("  WD-123 \r\n", " WD-123"));
    assert!(!answer_matches("wd-123\n", "WD-123"));
    assert!(!answer_matches("WD-12\n", "WD-123"));
    assert!(answer_matches("\n", ""));
    assert!(answer_matches("\u{3000}x\u{a0}", "x"));
}

#[test]
fn final_answer() {
    assert!(final_confirmation("YES\n"));
    assert!(final_confirmation(" YES "));
    assert!(!final_confirmation("yes\n"));
    assert!(!final_confirmation("Y"));
    assert!(!final_confirmation(""));
}

#[test]
fn find_target_by_path() {
    let devs = vec![dev("sda", None), dev("sdb", None), dev("sdb", Some("x"))];
    assert_eq!(find_device_by_path(&devs, "/dev/sdb"), Some(1));
    assert_eq!(find_device_by_path(&devs, "/dev/sda"), Some(0));
    assert_eq!(find_device_by_path(&devs, "/dev/sdc"), None);
    assert_eq!(find_device_by_path(&[], "/dev/sda"), None);
}

#[test]
fn selections() {
    assert_eq!(parse_selection("q\n", 3), Selection::Quit);
    assert_eq!(parse_selection(" Q ", 3), Selection::Quit);
    assert_eq!(parse_selection("2\n", 3), Selection::Device(2));
    assert_eq!(parse_selection("+0", 3), Selection::Device(0));
    assert_eq!(parse_selection("007", 8), Selection::Device(7));
    assert_eq!(parse_selection("3", 3), Selection::OutOfRange);
    assert_eq!(parse_selection("-1", 3), Selection::InvalidIndex);
    assert_eq!(parse_selection("+", 3), Selection::InvalidIndex);
    assert_eq!(parse_selection("", 3), Selection::InvalidIndex);
    assert_eq!(parse_selection("quit", 3), Selection::InvalidIndex);
    assert_eq!(parse_selection("1 2", 3), Selection::InvalidIndex);
    assert_eq!(parse_selection("99999999999999999999999", 3), Selection::InvalidIndex);
}

#[test]
fn selection_agrees_with_std_parse() {
    for s in ["0", "12", "+5", "-0", "1e3", "", " 4", "18446744073709551615", "18446744073709551616", "٣"] {
        let std_parse = s.trim().parse::<usize>().ok();
        let ours = match parse_selection(s, usize::MAX) {
            Selection::Device(i) => Some(i),
            Selection::OutOfRange => Some(usize::MAX),
            _ => None,
        };
        assert_eq!(ours, std_parse, "{:?}", s);
    }
}
