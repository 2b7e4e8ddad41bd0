use cryptowipe::demo::{demo_certificate, demo_operation_id, demo_status, drive_label};
use cryptowipe::device::get_available_drives;

#[test]
fn demo_status_follows_the_stages() {
    assert_eq!(demo_status(0), "Generating cryptographic key...");
    assert_eq!(demo_status(10), "Generating cryptographic key...");
    assert_eq!(demo_status(11), "Setting up LUKS encryption...");
    assert_eq!(demo_status(30), "Opening encrypted partition...");
    assert_eq!(demo_status(85), "Filling with encrypted random data...");
    assert_eq!(demo_status(90), "Closing partition and destroying keys...");
    assert_eq!(demo_status(100), "Finalizing crypto wipe...");
}

#[test]
fn demo_operation_id_is_eight_uppercase_hex_digits() {
    assert_eq!(demo_operation_id(0x00ab_12cd), "LUKS-00AB12CD");
    assert_eq!(demo_operation_id(0), "LUKS-00000000");
    assert_eq!(demo_operation_id(u32::MAX), "LUKS-FFFFFFFF");
}

#[test]
fn demo_certificate_names_the_drive() {
    let drives = get_available_drives();
    assert_eq!(drive_label(&drives[1]), "/dev/sdb (SanDisk Ultra USB 3.0)");
    let text = demo_certificate(&drives[1], "LUKS-0000002A", "2024-01-01 00:00:00 UTC");
    assert!(text.starts_with("LUKS CRYPTO WIPE COMPLETION CERTIFICATE\nOperation ID: LUKS-0000002A\n"));
    assert!(text.contains("Device: /dev/sdb (SanDisk Ultra USB 3.0)\nSize: 64 GB\n"));
    assert!(text.ends_with("Completion Time: 2024-01-01 00:00:00 UTC\nStatus: VERIFIED SECURE"));
}
