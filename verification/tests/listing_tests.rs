use datazero::device::{parse_lsblk_devices, Device};
use datazero::listing::{debug_opt, device_line, device_lines};
use datazero::media::MediaType;

fn sample_device() -> Device {
    Device {
        name: "sdb".to_string(),
        path: "/dev/sdb".to_string(),
        size: "14.9G".to_string(),
        model: Some("Cruzer \"Blade\"".to_string()),
        serial: None,
        tran: Some("usb".to_string()),
        media: MediaType::USB,
        source: "local".to_string(),
        removable: true,
    }
}

#[test]
fn device_listing_line() {
    let d = sample_device();
    assert_eq!(
        device_line(3, &d),
        " [3] /dev/sdb  size=14.9G type=USB model=Some(\"Cruzer \\\"Blade\\\"\") serial=None tran=Some(\"usb\")"
    );
    assert_eq!(
        device_line(12, &d),
        format!(
            " [{}] {}  size={} type={} model={:?} serial={:?} tran={:?}",
            12, d.path, d.size, "USB", d.model, d.serial, d.tran
        )
    );
}

#[test]
fn device_listing_lines_are_indexed() {
    let mut other = sample_device();
    other.path = "/dev/sdc".to_string();
    other.media = MediaType::Emmc;
    let lines = device_lines(&[sample_device(), other]);
    assert_eq!(lines.len(), 2);
    assert!(lines[0].starts_with(" [0] /dev/sdb "));
    assert!(lines[1].starts_with(" [1] /dev/sdc "));
    assert!(lines[1].contains(" type=eMMC "));
    assert!(device_lines(&[]).is_empty());
}

#[test]
fn optional_fields_in_debug_form() {
    assert_eq!(debug_opt(&None), "None");
    assert_eq!(debug_opt(&Some("a\tb".to_string())), "Some(\"a\\tb\")");
}

#[test]
fn local_devices_live_under_dev() {
    let txt = r#"{"blockdevices": [{"name": "sda", "type": "disk"}, {"name": "loop0", "type": "loop"}, {"name": "vda", "type": "disk"}]}"#;
    let devs = parse_lsblk_devices(txt).unwrap();
    assert_eq!(devs.len(), 2);
    for d in devs {
        assert_eq!(d.path, format!("/dev/{}", d.name));
        assert_eq!(d.source, "local");
    }
}
