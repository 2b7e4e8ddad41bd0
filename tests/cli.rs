use cryptowipe::cli::{
    device_menu_line, is_gui_confirmation, is_wipe_confirmation, is_yes, needs_mount_warning, parse_args, parse_selection,
};
use cryptowipe::device::parse_block_devices;

fn args(list: &[&str]) -> Vec<String> {
    list.iter().map(|s| s.to_string()).collect()
}

#[test]
fn options_come_from_the_arguments() {
    let o = parse_args(&args(&["wipe", "/dev/sdb", "--force", "-v"]));
    assert_eq!(o.device.as_deref(), Some("/dev/sdb"));
    assert!(o.force && o.verify && !o.help);
    let o = parse_args(&args(&["wipe"]));
    assert!(o.device.is_none() && !o.force && !o.verify);
    let o = parse_args(&args(&["wipe", "-h"]));
    assert!(o.help);
}

#[test]
fn only_the_exact_phrase_confirms() {
    assert!(is_wipe_confirmation("DESTROY ALL DATA\n"));
    assert!(is_wipe_confirmation("  DESTROY ALL DATA  "));
    assert!(!is_wipe_confirmation("destroy all data"));
    assert!(!is_wipe_confirmation("DESTROY ALL"));
    assert!(!is_wipe_confirmation(""));
}

#[test]
fn menu_selection_is_checked() {
    assert_eq!(parse_selection("1\n", 3), Some(0));
    assert_eq!(parse_selection(" 3 ", 3), Some(2));
    assert_eq!(parse_selection("0", 3), None);
    assert_eq!(parse_selection("4", 3), None);
    assert_eq!(parse_selection("x", 3), None);
    assert_eq!(parse_selection("", 3), None);
    assert_eq!(parse_selection("99999999999999999999999", 3), None);
    assert_eq!(parse_selection("2", 0), None);
}

#[test]
fn menu_lines_show_model_and_mount() {
    let devices = parse_block_devices("sdb 58.6G disk /mnt/usb SanDisk Ultra\nsda 1G disk\nsdc 2G disk - Unknown\n");
    assert_eq!(device_menu_line(1, &devices[0]), "  1. /dev/sdb (58.6G) - disk - SanDisk Ultra [Mounted: /mnt/usb]");
    assert_eq!(device_menu_line(2, &devices[1]), "  2. /dev/sda (1G) - disk ");
    assert_eq!(device_menu_line(3, &devices[2]), "  3. /dev/sdc (2G) - disk ");
    assert!(needs_mount_warning(&devices[0]));
    assert!(!needs_mount_warning(&devices[1]));
    assert!(!needs_mount_warning(&devices[2]));
}

#[test]
fn selection_accepts_a_plus_sign_like_usize_parsing() {
    assert_eq!(parse_selection("+1", 1), Some(0));
    assert_eq!(parse_selection(" +2\n", 3), Some(1));
    assert_eq!(parse_selection("+", 3), None);
    assert_eq!(parse_selection("++1", 3), None);
    assert_eq!(parse_selection("-1", 3), None);
    assert_eq!(parse_selection("1\u{a0}", 3), Some(0));
}

#[test]
fn confirmation_trims_unicode_white_space() {
    assert!(is_wipe_confirmation("\u{3000}DESTROY ALL DATA\u{a0}\u{2028}"));
    assert!(is_gui_confirmation("FORCE WIPE ", true));
    assert!(!is_gui_confirmation("FORCE WIPE", false));
    assert!(is_gui_confirmation("DESTROY ALL DATA", false));
}

#[test]
fn yes_answers() {
    assert!(is_yes("y\n"));
    assert!(is_yes(" Y "));
    assert!(!is_yes("yes"));
    assert!(!is_yes("n"));
    assert!(!is_yes(""));
}
