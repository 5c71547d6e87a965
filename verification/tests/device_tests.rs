use datazero::device::{
    adb_device_serials, android_block_path_of, android_devices_from_lsblk, hpa_probe_applies,
    hpa_report, local_devices_from_entries, lsblk_entries, merge_device_lists, parse_lsblk_devices,
    parse_wmic_devices, Device, DeviceError, LsblkEntry,
};
use datazero::media::MediaType;

const LSBLK: &str = r#"{
   "blockdevices": [
      {"name": "sda", "type": "disk", "size": "465.8G", "model": "Samsung SSD 860", "serial": "S3Z9NB0K", "rota": "0", "tran": "sata",
       "children": [{"name": "sda1", "type": "part", "size": "512M", "model": null, "serial": null, "rota": "0", "tran": null}]},
      {"name": "sr0", "type": "rom", "size": "1024M", "model": "DVD", "serial": null, "rota": "1", "tran": "sata"},
      {"name": "sdb", "type": "disk", "size": "14.9G", "model": "Cruzer", "serial": "4C53", "rota": "1", "tran": "usb"},
      {"name": "mmcblk0", "type": "disk", "size": "29.1G", "model": null, "serial": "0x1234", "rota": "0", "tran": null},
      {"name": "nvme0n1", "type": "disk", "size": "953.9G", "model": "WDC PC SN730", "serial": "2012", "rota": false, "tran": "nvme"}
   ]
}"#;

fn find<'a>(devs: &'a [Device], name: &str) -> &'a Device {
    devs.iter().find(|d| d.name == name).unwrap()
}

#[test]
fn lsblk_lists_only_disks_in_order() {
    let devs = parse_lsblk_devices(LSBLK).unwrap();
    let names: Vec<&str> = devs.iter().map(|d| d.name.as_str()).collect();
    assert_eq!(names, vec!["sda", "sdb", "mmcblk0", "nvme0n1"]);
}

#[test]
fn lsblk_device_fields() {
    let devs = parse_lsblk_devices(LSBLK).unwrap();
    let sda = find(&devs, "sda");
    assert_eq!(sda.path, "/dev/sda");
    assert_eq!(sda.size, "465.8G");
    assert_eq!(sda.model.as_deref(), Some("Samsung SSD 860"));
    assert_eq!(sda.serial.as_deref(), Some("S3Z9NB0K"));
    assert_eq!(sda.tran.as_deref(), Some("sata"));
    assert_eq!(sda.media, MediaType::SSD);
    assert_eq!(sda.source, "local");
    assert!(!sda.removable);

    let sdb = find(&devs, "sdb");
    assert_eq!(sdb.media, MediaType::USB);
    assert!(sdb.removable);

    let mmc = find(&devs, "mmcblk0");
    assert_eq!(mmc.media, MediaType::Emmc);
    assert!(mmc.removable);
    assert_eq!(mmc.model, None);
    assert_eq!(mmc.tran, None);

    // a boolean rotational flag is not a string: it is not read
    let nvme = find(&devs, "nvme0n1");
    assert_eq!(nvme.media, MediaType::NVMe);
    assert_eq!(nvme.path, "/dev/nvme0n1");
}

#[test]
fn lsblk_rejects_text_that_is_not_json() {
    assert!(matches!(parse_lsblk_devices("lsblk: command failed"), Err(DeviceError::InvalidJson)));
    assert!(matches!(lsblk_entries("{"), Err(DeviceError::InvalidJson)));
}

#[test]
fn lsblk_without_device_array_lists_nothing() {
    assert_eq!(parse_lsblk_devices("{}").unwrap().len(), 0);
    assert_eq!(parse_lsblk_devices(r#"{"blockdevices": 3}"#).unwrap().len(), 0);
    assert_eq!(parse_lsblk_devices("[1, 2]").unwrap().len(), 0);
}

#[test]
fn lsblk_entry_without_name() {
    let devs = parse_lsblk_devices(r#"{"blockdevices": [{"type": "disk"}, {"name": 5, "type": "disk", "size": 10}]}"#).unwrap();
    assert_eq!(devs.len(), 2);
    assert_eq!(devs[0].name, "");
    assert_eq!(devs[0].path, "/dev/");
    assert_eq!(devs[0].size, "");
    assert_eq!(devs[1].name, "");
    assert_eq!(devs[0].media, MediaType::UNKNOWN);
}

#[test]
fn entries_read_in_order() {
    let es = lsblk_entries(LSBLK).unwrap();
    assert_eq!(es.len(), 5);
    assert_eq!(es[1].kind.as_deref(), Some("rom"));
    assert_eq!(es[4].rota, None);
    assert_eq!(es[3].model, None);
}

#[test]
fn entries_build_devices_directly() {
    let e = LsblkEntry {
        kind: Some("disk".to_string()),
        name: Some("sdc".to_string()),
        size: Some("1T".to_string()),
        model: None,
        serial: None,
        tran: Some("Usb3".to_string()),
        rota: None,
    };
    let mut p = e.clone();
    p.kind = Some("part".to_string());
    let devs = local_devices_from_entries(&[e, p]);
    assert_eq!(devs.len(), 1);
    assert!(devs[0].removable);
    assert_eq!(devs[0].media, MediaType::USB);
}

#[test]
fn android_paths_by_name() {
    assert_eq!(android_block_path_of("mmcblk0"), "/dev/mmcblk0");
    assert_eq!(android_block_path_of("sda"), "/dev/sda");
    assert_eq!(android_block_path_of("nvme0n1"), "/dev/nvme0n1");
    assert_eq!(android_block_path_of("sdb"), "/dev/block/sdb");
    assert_eq!(android_block_path_of("dm-0"), "/dev/block/dm-0");
}

#[test]
fn android_devices_of_one_phone() {
    let txt = r#"{"blockdevices": [
        {"name": "mmcblk0", "type": "disk", "size": "58.2G", "model": null, "serial": null, "rota": "0", "tran": null},
        {"name": "mmcblk0p1", "type": "part", "size": "4M"},
        {"name": "sdc", "type": "disk", "size": "8G", "model": "UFS disk", "serial": "U1", "rota": "0", "tran": null}
    ]}"#;
    let devs = android_devices_from_lsblk("R58M12", txt);
    assert_eq!(devs.len(), 2);
    assert_eq!(devs[0].name, "mmcblk0@R58M12");
    assert_eq!(devs[0].path, "adb:R58M12:/dev/mmcblk0");
    assert_eq!(devs[0].source, "android:R58M12");
    assert_eq!(devs[0].media, MediaType::Emmc);
    assert!(devs[0].removable);
    assert_eq!(devs[1].path, "adb:R58M12:/dev/block/sdc");
    assert_eq!(devs[1].media, MediaType::UFS);
    assert!(devs[1].removable);
    assert_eq!(devs[1].serial.as_deref(), Some("U1"));
}

#[test]
fn android_output_that_is_not_json_lists_nothing() {
    assert!(android_devices_from_lsblk("R58M12", "/system/bin/sh: lsblk: not found").is_empty());
}

#[test]
fn adb_serials_skip_header_blank_and_unauthorized() {
    let txt = "List of devices attached\nR58M12ABC       device usb:1-1 product:a51 model:SM_A515F\n\n0123456789 no permissions (user in plugdev group); see [http://developer.android.com/tools/device.html]\nemulator-5554\tdevice\r\n";
    let serials = adb_device_serials(txt);
    assert_eq!(serials, vec!["R58M12ABC".to_string(), "emulator-5554".to_string()]);
}

#[test]
fn adb_serials_first_line_is_always_skipped() {
    assert_eq!(adb_device_serials("ABC device\nDEF device").len(), 1);
    assert!(adb_device_serials("").is_empty());
    assert!(adb_device_serials("List of devices attached\nList of devices attached\n").is_empty());
}

const WMIC: &str = "\r\nNode,DeviceID,InterfaceType,Model,SerialNumber,Size\r\nPC1,\\\\.\\PHYSICALDRIVE0, Samsung SSD 970 , S4EWNX0 ,500105249280,SCSI\r\nPC1,\\\\.\\PHYSICALDRIVE1,SanDisk Cruzer,,15693664256,USB\r\nPC1,\\\\.\\PHYSICALDRIVE2,,,,IDE\r\nshort,line\r\n";

#[test]
fn wmic_drives() {
    let devs = parse_wmic_devices(WMIC);
    assert_eq!(devs.len(), 3);
    assert_eq!(devs[0].name, "PHYSICALDRIVE0");
    assert_eq!(devs[0].path, "\\\\.\\PHYSICALDRIVE0");
    assert_eq!(devs[0].model.as_deref(), Some("Samsung SSD 970"));
    assert_eq!(devs[0].serial.as_deref(), Some("S4EWNX0"));
    assert_eq!(devs[0].size, "500105249280");
    assert_eq!(devs[0].tran.as_deref(), Some("SCSI"));
    assert_eq!(devs[0].media, MediaType::SSD);
    assert_eq!(devs[0].source, "windows");
    assert!(!devs[0].removable);

    assert_eq!(devs[1].media, MediaType::USB);
    assert!(devs[1].removable);
    assert_eq!(devs[1].serial, None);

    assert_eq!(devs[2].model, None);
    assert_eq!(devs[2].size, "unknown");
    assert_eq!(devs[2].media, MediaType::UNKNOWN);
}

#[test]
fn wmic_removable_exactly_when_usb() {
    for d in parse_wmic_devices(WMIC) {
        assert_eq!(d.removable, d.media == MediaType::USB);
    }
}

#[test]
fn wmic_last_field_keeps_commas_and_models_classify() {
    let devs = parse_wmic_devices("N,ID,WD Blue HDD,S,1,SATA,extra\nN,X\\Y,NVMe PM9A1,,,PCI\nN,Z,Generic Disk,,,SCSI\n");
    assert_eq!(devs[0].tran.as_deref(), Some("SATA,extra"));
    assert_eq!(devs[0].media, MediaType::HDD);
    assert_eq!(devs[1].name, "Y");
    assert_eq!(devs[1].media, MediaType::NVMe);
    assert_eq!(devs[2].media, MediaType::HDD);
}

fn dev(name: &str) -> Device {
    Device {
        name: name.to_string(),
        path: format!("/dev/{}", name),
        size: "1G".to_string(),
        model: None,
        serial: None,
        tran: None,
        media: MediaType::UNKNOWN,
        source: "local".to_string(),
        removable: false,
    }
}

#[test]
fn merged_listing() {
    let all = merge_device_lists::<String>(Ok(vec![dev("sda")]), Some(Ok(vec![dev("x@y")]))).unwrap();
    assert_eq!(all.iter().map(|d| d.name.clone()).collect::<Vec<_>>(), vec!["sda", "x@y"]);
    let only_local = merge_device_lists::<String>(Ok(vec![dev("sda")]), Some(Err("adb".to_string()))).unwrap();
    assert_eq!(only_local.len(), 1);
    let no_adb = merge_device_lists::<String>(Ok(vec![]), None).unwrap();
    assert!(no_adb.is_empty());
    let failed = merge_device_lists::<String>(Err("lsblk".to_string()), Some(Ok(vec![dev("a")])));
    assert_eq!(failed.unwrap_err(), "lsblk");
}

#[test]
fn hpa_decisions() {
    assert!(hpa_probe_applies(false, true));
    assert!(!hpa_probe_applies(true, true));
    assert!(!hpa_probe_applies(false, false));
    assert_eq!(hpa_report(true, "max sectors = 1/1".to_string(), "e".to_string()), "max sectors = 1/1");
    assert_eq!(hpa_report(false, "o".to_string(), "SG_IO: bad".to_string()), "SG_IO: bad");
}
