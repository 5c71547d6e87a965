use datazero::media::{detect_media_unix, MediaType};

#[test]
fn media_labels() {
    assert_eq!(MediaType::HDD.to_string(), "HDD");
    assert_eq!(MediaType::SSD.to_string(), "SSD");
    assert_eq!(MediaType::NVMe.to_string(), "NVMe");
    assert_eq!(MediaType::USB.to_string(), "USB");
    assert_eq!(MediaType::Emmc.to_string(), "eMMC");
    assert_eq!(MediaType::UFS.to_string(), "UFS");
    assert_eq!(MediaType::UNKNOWN.to_string(), "UNKNOWN");
}

#[test]
fn nvme_by_name_wins_over_everything() {
    let tran = Some("usb".to_string());
    assert_eq!(detect_media_unix("nvme0n1", &tran, Some("1"), Some("Some HDD")), MediaType::NVMe);
}

#[test]
fn nvme_by_model_in_upper_case() {
    // the model is compared in lower case
    assert_eq!(detect_media_unix("sda", &None, Some("0"), Some("Samsung NVME SSD")), MediaType::NVMe);
    assert_eq!(detect_media_unix("NVME0", &None, None, None), MediaType::NVMe);
}

#[test]
fn usb_transport() {
    let tran = Some("USB".to_string());
    assert_eq!(detect_media_unix("sdb", &tran, Some("1"), None), MediaType::USB);
}

#[test]
fn rotational_flag() {
    assert_eq!(detect_media_unix("sda", &Some("sata".to_string()), Some("1"), Some("Samsung SSD")), MediaType::HDD);
    assert_eq!(detect_media_unix("sda", &Some("sata".to_string()), Some("0"), Some("Disk")), MediaType::SSD);
    assert_eq!(detect_media_unix("mmcblk0", &None, Some("0"), None), MediaType::Emmc);
    assert_eq!(detect_media_unix("sda", &None, Some("0"), Some("KLMAG eMMC")), MediaType::Emmc);
    assert_eq!(detect_media_unix("sda", &None, Some("0"), Some("UFS 3.1")), MediaType::UFS);
}

#[test]
fn model_words_without_rotational_flag() {
    assert_eq!(detect_media_unix("sda", &None, None, Some("eMMC 64G")), MediaType::Emmc);
    assert_eq!(detect_media_unix("sda", &None, None, Some("ufs")), MediaType::UFS);
    assert_eq!(detect_media_unix("sda", &None, None, Some("Crucial SSD")), MediaType::SSD);
    assert_eq!(detect_media_unix("sda", &None, None, Some("WD HDD")), MediaType::HDD);
    assert_eq!(detect_media_unix("sda", &None, None, Some("Seagate Hard Drive")), MediaType::HDD);
    assert_eq!(detect_media_unix("sda", &None, None, Some("Generic")), MediaType::UNKNOWN);
    assert_eq!(detect_media_unix("sda", &None, None, None), MediaType::UNKNOWN);
}

#[test]
fn other_rotational_values_fall_back_to_model() {
    // a flag other than "0" and "1" is not read as rotational
    assert_eq!(detect_media_unix("mmcblk0", &None, Some("true"), Some("x")), MediaType::UNKNOWN);
    assert_eq!(detect_media_unix("sda", &None, Some(""), Some("ssd")), MediaType::SSD);
}
