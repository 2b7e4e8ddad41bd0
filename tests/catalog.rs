use cryptowipe::device::{
    apply_removable_attributes, get_available_drives, is_removable_device, parse_block_devices, sysfs_block_name,
    text_lines, text_words,
};

#[test]
fn available_drives_are_the_demo_catalog() {
    let drives = get_available_drives();
    assert_eq!(drives.len(), 4);
    assert_eq!(drives[0].path, "/dev/sda");
    assert_eq!(drives[0].name, "Samsung SSD 970 EVO Plus");
    assert_eq!(drives[0].size_gb, 500);
    assert_eq!(drives[0].mount_point, "/");
    assert_eq!(drives[1].path, "/dev/sdb");
    assert_eq!(drives[1].mount_point, "/mnt/usb");
    assert_eq!(drives[1].size_gb, 64);
    assert_eq!(drives[2].name, "WD Blue HDD");
    assert_eq!(drives[2].size_gb, 1000);
    assert_eq!(drives[3].path, "/dev/nvme0n1");
    assert_eq!(drives[3].mount_point, "-");
}

const LSBLK: &str = "sda      465.8G disk            Samsung SSD 970 EVO\n\
├─sda1   512M   part /boot/efi\n\
└─sda2   465.3G part /\n\
sdb      58.6G  disk\n\
└─sdb1   58.6G  part /mnt/usb SanDisk Ultra Fit\n\
loop0    55.4M  loop /snap/core\n\
ram0     4M     disk\n\
sr0      1024M  rom\n\
\n\
x\n";

#[test]
fn lsblk_output_is_parsed_without_virtual_devices() {
    let devices = parse_block_devices(LSBLK);
    let paths: Vec<&str> = devices.iter().map(|d| d.path.as_str()).collect();
    assert_eq!(paths, vec!["/dev/sda", "/dev/sda1", "/dev/sda2", "/dev/sdb", "/dev/sdb1"]);
    assert_eq!(devices[1].size, "512M");
    assert_eq!(devices[1].device_type, "part");
    assert!(devices[1].is_partition);
    assert!(!devices[0].is_partition);
    assert_eq!(devices[1].mountpoint, "/boot/efi");
    assert_eq!(devices[1].model, "Unknown");
    assert_eq!(devices[3].mountpoint, "");
    assert_eq!(devices[4].mountpoint, "/mnt/usb");
    assert_eq!(devices[4].model, "SanDisk Ultra Fit");
    // without a mount point the first word of the model takes its column
    assert_eq!(devices[0].mountpoint, "Samsung");
    assert_eq!(devices[0].model, "SSD 970 EVO");
    assert!(!devices[0].is_removable);
    assert!(devices[3].is_removable);
    assert!(devices[4].is_removable);
}

#[test]
fn empty_lsblk_output_means_no_devices() {
    assert!(parse_block_devices("").is_empty());
    assert!(parse_block_devices("\n\n").is_empty());
}

#[test]
fn lines_and_words_split_like_the_shell() {
    assert_eq!(text_lines("a\n\nb\n"), vec!["a".to_string(), String::new(), "b".to_string()]);
    assert_eq!(text_lines("a"), vec!["a".to_string()]);
    assert!(text_lines("").is_empty());
    assert_eq!(text_words("  sda \t 1G  disk "), vec!["sda".to_string(), "1G".to_string(), "disk".to_string()]);
    assert_eq!(text_words("a\u{a0}b\u{3000}c"), vec!["a".to_string(), "b".to_string(), "c".to_string()]);
    assert!(text_words("   ").is_empty());
}

#[test]
fn block_name_drops_the_partition_number() {
    assert_eq!(sysfs_block_name("sdb1"), "sdb");
    assert_eq!(sysfs_block_name("sdb"), "sdb");
    assert_eq!(sysfs_block_name("mmcblk0p12"), "mmcblk0p");
}

#[test]
fn removability_prefers_the_hot_plug_attribute() {
    assert!(is_removable_device("nvme0n1", Some("1\n")));
    assert!(!is_removable_device("sdb", Some(" 0\n")));
    assert!(is_removable_device("sdb1", None));
    assert!(!is_removable_device("sda", None));
    assert!(!is_removable_device("sda2", None));
    assert!(!is_removable_device("nvme0n1", None));
    assert!(is_removable_device("sdc", Some("1\u{a0}")));
    assert!(is_removable_device("sdc", Some("\u{2003}1\u{85}")));
}

#[test]
fn removable_attributes_refine_the_catalog() {
    let mut devices = parse_block_devices("sda 1G disk\nsdb 2G disk\nnvme0n1 3G disk\n");
    let attributes = vec![Some("1\n".to_string()), Some("0\n".to_string()), None];
    apply_removable_attributes(&mut devices, &attributes);
    assert!(devices[0].is_removable);
    assert!(!devices[1].is_removable);
    assert!(!devices[2].is_removable);
    assert_eq!(devices[2].path, "/dev/nvme0n1");
    assert_eq!(devices[1].size, "2G");
}
