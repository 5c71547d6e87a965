use datazero::device::android_devices_from_lsblk;
use datazero::sample::{
    dd_command, parse_device_path, sample_byte_count, sample_read_step, sha256_hex, DevicePath,
};

#[test]
fn sample_size_in_bytes() {
    assert_eq!(sample_byte_count(0), Some(0));
    assert_eq!(sample_byte_count(1), Some(1048576));
    assert_eq!(sample_byte_count(4), Some(4194304));
    // more mebibytes than a usize counts: no limit, the whole device
    assert_eq!(sample_byte_count(usize::MAX), None);
    assert_eq!(sample_byte_count(usize::MAX / 1048576 + 1), None);
    assert_eq!(sample_byte_count(usize::MAX / 1048576), Some((usize::MAX / 1048576) * 1048576));
}

#[test]
fn native_paths() {
    assert_eq!(parse_device_path("/dev/sdb"), DevicePath::Local);
    assert_eq!(parse_device_path("\\\\.\\PHYSICALDRIVE1"), DevicePath::Local);
    assert_eq!(parse_device_path("ADB:x:/dev/y"), DevicePath::Local);
    assert_eq!(parse_device_path(""), DevicePath::Local);
}

#[test]
fn adb_paths() {
    assert_eq!(
        parse_device_path("adb:R58M12:/dev/block/mmcblk0"),
        DevicePath::Adb { serial: "R58M12".to_string(), dev_path: "/dev/block/mmcblk0".to_string() }
    );
    assert_eq!(
        parse_device_path("adb:10.0.0.2:5555"),
        DevicePath::Adb { serial: "10.0.0.2".to_string(), dev_path: "5555".to_string() }
    );
    assert_eq!(
        parse_device_path("adb:s:/a:b"),
        DevicePath::Adb { serial: "s".to_string(), dev_path: "/a:b".to_string() }
    );
    assert_eq!(parse_device_path("adb::"), DevicePath::Adb { serial: String::new(), dev_path: String::new() });
}

#[test]
fn malformed_adb_paths() {
    assert_eq!(parse_device_path("adb:R58M12"), DevicePath::MalformedAdb);
    assert_eq!(parse_device_path("adb:"), DevicePath::MalformedAdb);
}

#[test]
fn enumerated_android_paths_read_back() {
    let txt = r#"{"blockdevices": [{"name": "mmcblk0", "type": "disk"}, {"name": "dm-1", "type": "disk"}]}"#;
    for d in android_devices_from_lsblk("R58M12", txt) {
        match parse_device_path(&d.path) {
            DevicePath::Adb { serial, dev_path } => {
                assert_eq!(serial, "R58M12");
                assert!(dev_path.starts_with("/dev/"));
                assert!(d.path.ends_with(&dev_path));
            }
            other => panic!("unexpected {:?}", other),
        }
    }
}

#[test]
fn dd_command_line() {
    assert_eq!(dd_command("/dev/block/mmcblk0", 1), "dd if=/dev/block/mmcblk0 bs=1M count=1");
    assert_eq!(dd_command("/dev/sda", 0), "dd if=/dev/sda bs=1M count=0");
    assert_eq!(dd_command("/d", 1234567), "dd if=/d bs=1M count=1234567");
}

#[test]
fn read_steps() {
    assert_eq!(sample_read_step(0, 8192, Some(1048576)), (8192, false));
    assert_eq!(sample_read_step(1040384, 8192, Some(1048576)), (1048576, true));
    assert_eq!(sample_read_step(1048000, 8192, Some(1048576)), (1056192, true));
    assert_eq!(sample_read_step(4096, 0, Some(1048576)), (4096, true));
    assert_eq!(sample_read_step(1 << 40, 8192, None), ((1 << 40) + 8192, false));
    assert_eq!(sample_read_step(77, 0, None), (77, true));
}

#[test]
fn sample_digests() {
    assert_eq!(sha256_hex(b"abc"), "ba7816bf8f01cfea414140de5dae2223b00361a396177a9cb410ff61f20015ad");
    assert_eq!(sha256_hex(b""), "e3b0c44298fc1c149afbf4c8996fb92427ae41e4649b934ca495991b7852b855");
    let zeros = vec![0u8; 1048576];
    let h = sha256_hex(&zeros);
    assert_eq!(h.len(), 64);
    assert_eq!(h, "30e14955ebf1352266dc2ff8067e68104607e750abb9d3b36582b8af909fcb58");
}
