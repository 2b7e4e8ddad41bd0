use cryptowipe::certificate::WipeCertificate;
use cryptowipe::identity::OperationId;
use cryptowipe::keygen::{generate_random_passphrase, passphrase_from_draws};
use cryptowipe::overwrite::{OVERWRITE_BLOCK_SIZE, PROGRESS_FULL};
use cryptowipe::registry::MapperRegistry;
use cryptowipe::session::{Action, Outcome, Stage, Step, WipeError, WipeSession, WipeTarget};
use cryptowipe::text::decimal_text;

const MIB: u64 = 1_048_576;
const ALPHABET: &str = "ABCDEFGHIJKLMNOPQRSTUVWXYZabcdefghijklmnopqrstuvwxyz0123456789!@#$%^&*";

fn target(path: &str, size: u64, removable: bool) -> WipeTarget {
    WipeTarget { path: path.to_string(), size_bytes: size, is_partition: false, is_removable: removable }
}

fn failed(d: &str) -> Outcome {
    Outcome::Failed(d.to_string())
}

fn aborted(step: Step) -> WipeError {
    match step.action {
        Action::Abort(e) => e,
        _ => panic!("expected the session to fail"),
    }
}

struct Run {
    progress: Vec<u32>,
    certificate: WipeCertificate,
    passphrases: Vec<String>,
    mapper: String,
    mapped: String,
}

fn run(session: &mut WipeSession, registry: &mut MapperRegistry, block: u8) -> Run {
    let mut progress = Vec::new();
    let mut passphrases = Vec::new();
    let mut mapper = String::new();
    let mut mapped = String::new();
    let mut step = session.advance(Outcome::Done, registry);
    loop {
        for e in &step.events {
            progress.push(e.progress);
        }
        match step.action {
            Action::FormatContainer { passphrase, cipher, key_size, hash, .. } => {
                assert_eq!(cipher, "aes-xts-plain64");
                assert_eq!(key_size, 512);
                assert_eq!(hash, "sha256");
                passphrases.push(passphrase);
            },
            Action::OpenContainer { passphrase, mapper: m, .. } => {
                passphrases.push(passphrase);
                mapper = m;
            },
            Action::Overwrite { mapped_device, size } => {
                mapped = mapped_device;
                assert_eq!(size, session.overwrite_pass().device_size());
                let mut buf = vec![0u8; OVERWRITE_BLOCK_SIZE];
                while !session.overwrite_pass().is_complete() {
                    let n = session.next_overwrite_block(&mut buf);
                    assert!(n <= OVERWRITE_BLOCK_SIZE);
                    progress.push(session.overwrite_block_written().progress);
                }
            },
            Action::Verify { .. } => {
                while !session.readback_pass().is_complete() {
                    let n = session.next_readback_len();
                    let data = vec![block; n];
                    progress.push(session.readback_block(&data, n).progress);
                }
            },
            Action::Finish(certificate) => {
                return Run { progress, certificate, passphrases, mapper, mapped };
            },
            Action::Abort(e) => panic!("session failed: {:?}", e),
            _ => {},
        }
        step = session.advance(Outcome::Done, registry);
    }
}

#[test]
fn successful_session_reports_monotone_progress_ending_at_one() {
    let mut registry = MapperRegistry::new();
    let mut session = WipeSession::start(target("/dev/sdz", 3 * MIB + 5, false), true);
    let r = run(&mut session, &mut registry, 0xa5);
    assert!(r.progress.windows(2).all(|w| w[0] <= w[1]));
    assert_eq!(*r.progress.last().unwrap(), PROGRESS_FULL);
    assert_eq!(r.progress[0], 0);
    assert!(r.progress.contains(&750_000));
    assert!(session.stage() == Stage::Complete);
    assert_eq!(session.overwrite_pass().writes(), 4);
    assert_eq!(session.overwrite_pass().bytes_written(), 3 * MIB + 5);
    assert_eq!(r.certificate.verification_status, "VERIFIED SECURE");
    assert_eq!(r.certificate.device, "/dev/sdz");
    assert_eq!(r.certificate.key_size, 512);
    let time = &r.certificate.completion_time;
    assert_eq!(time.len(), 23);
    assert!(time.ends_with(" UTC"));
    assert_eq!(&time[4..5], "-");
    assert!(session.started_at().ends_with(" UTC"));
}

#[test]
fn session_without_verification_jumps_to_one() {
    let mut registry = MapperRegistry::new();
    let mut session = WipeSession::start(target("/dev/sdy", MIB, false), false);
    let r = run(&mut session, &mut registry, 0xa5);
    let n = r.progress.len();
    assert_eq!(r.progress[n - 2], 900_000);
    assert_eq!(r.progress[n - 1], PROGRESS_FULL);
    assert_eq!(r.certificate.verification_status, "NOT VERIFIED (verification skipped)");
}

#[test]
fn passphrase_is_shared_by_format_and_open_and_kept_out_of_the_certificate() {
    let mut registry = MapperRegistry::new();
    let mut session = WipeSession::start(target("/dev/sdx", MIB, false), false);
    let r = run(&mut session, &mut registry, 0xa5);
    assert_eq!(r.passphrases.len(), 2);
    assert_eq!(r.passphrases[0], r.passphrases[1]);
    assert_eq!(r.passphrases[0].chars().count(), 64);
    assert!(r.passphrases[0].chars().all(|c| ALPHABET.contains(c)));
    let text = r.certificate.to_text();
    assert!(!text.contains(&r.passphrases[0]));
    assert!(text.contains(&r.certificate.operation_id));
    assert!(text.contains("Device: /dev/sdx"));
    assert_eq!(r.certificate.operation_id.len(), 36);
    assert_eq!(r.certificate.operation_id, session.operation_id().text());
    assert_eq!(r.mapper, format!("cryptowipe_{}", r.certificate.operation_id.replace('-', "")));
    assert_eq!(r.mapped, format!("/dev/mapper/{}", r.mapper));
}

#[test]
fn removable_device_format_is_retried_within_budget() {
    let mut registry = MapperRegistry::new();
    let mut session = WipeSession::start(target("/dev/sdb", MIB, true), false);
    assert!(matches!(session.advance(Outcome::Done, &mut registry).action, Action::EnsureUnmounted { .. }));
    let mut passphrases = Vec::new();
    for attempt in 0..3 {
        match session.advance(Outcome::Done, &mut registry).action {
            Action::FormatContainer { device, passphrase, .. } => {
                assert_eq!(device, "/dev/sdb");
                passphrases.push(passphrase);
            },
            _ => panic!("expected a format attempt"),
        }
        if attempt < 2 {
            assert!(matches!(session.advance(failed("busy"), &mut registry).action, Action::PauseBeforeRetry));
        }
    }
    match session.advance(Outcome::Done, &mut registry).action {
        Action::OpenContainer { passphrase, .. } => passphrases.push(passphrase),
        _ => panic!("expected the open"),
    }
    assert!(passphrases.iter().all(|p| *p == passphrases[0]));
    assert!(session.stage() == Stage::ContainerCreated);
}

#[test]
fn fixed_device_format_failure_aborts_at_once() {
    let mut registry = MapperRegistry::new();
    let mut session = WipeSession::start(target("/dev/sdc", MIB, false), false);
    session.advance(Outcome::Done, &mut registry);
    session.advance(Outcome::Done, &mut registry);
    match aborted(session.advance(failed("device busy"), &mut registry)) {
        WipeError::ContainerFormat { device, diagnostic } => {
            assert_eq!(device, "/dev/sdc");
            assert_eq!(diagnostic, "device busy");
        },
        e => panic!("unexpected error {:?}", e),
    }
    assert!(session.stage() == Stage::Failed);
    // a format that fails for good gives the device back
    assert!(registry.acquire("/dev/sdc", 9));
}

#[test]
fn removable_device_gives_up_after_three_format_failures() {
    let mut registry = MapperRegistry::new();
    let mut session = WipeSession::start(target("/dev/sdb", MIB, true), false);
    session.advance(Outcome::Done, &mut registry);
    session.advance(Outcome::Done, &mut registry);
    session.advance(failed("a"), &mut registry);
    session.advance(Outcome::Done, &mut registry);
    session.advance(failed("b"), &mut registry);
    session.advance(Outcome::Done, &mut registry);
    assert!(matches!(aborted(session.advance(failed("c"), &mut registry)), WipeError::ContainerFormat { .. }));
}

#[test]
fn second_session_on_the_same_device_is_refused_until_close() {
    let mut registry = MapperRegistry::new();
    let mut first = WipeSession::start(target("/dev/sde", MIB, false), false);
    let mut second = WipeSession::start(target("/dev/sde", MIB, false), false);
    for _ in 0..3 {
        first.advance(Outcome::Done, &mut registry);
    }
    assert!(first.stage() == Stage::ContainerCreated);
    // refused at its first step, before anything is unmounted
    match aborted(second.advance(Outcome::Done, &mut registry)) {
        WipeError::DeviceBusy { device } => assert_eq!(device, "/dev/sde"),
        e => panic!("unexpected error {:?}", e),
    }
    let r = run(&mut first, &mut registry, 0xa5);
    assert_eq!(*r.progress.last().unwrap(), PROGRESS_FULL);
    let mut third = WipeSession::start(target("/dev/sde", MIB, false), false);
    assert!(matches!(third.advance(Outcome::Done, &mut registry).action, Action::EnsureUnmounted { .. }));
    third.advance(Outcome::Done, &mut registry);
    assert!(matches!(third.advance(Outcome::Done, &mut registry).action, Action::OpenContainer { .. }));
}

#[test]
fn other_devices_are_not_blocked() {
    let mut registry = MapperRegistry::new();
    assert!(registry.acquire("/dev/sda", 1));
    assert!(!registry.acquire("/dev/sda", 2));
    assert!(registry.acquire("/dev/sdb", 2));
    registry.release("/dev/sda", 2);
    assert!(!registry.acquire("/dev/sda", 3));
    registry.release("/dev/sda", 1);
    assert!(registry.acquire("/dev/sda", 3));
}

fn session_at_overwrite(path: &str, registry: &mut MapperRegistry) -> WipeSession {
    let mut s = WipeSession::start(target(path, 2 * MIB, false), true);
    for _ in 0..4 {
        s.advance(Outcome::Done, registry);
    }
    s
}

#[test]
fn each_stage_failure_has_its_error() {
    let mut registry = MapperRegistry::new();
    let mut s = WipeSession::start(target("/dev/sdf", MIB, false), false);
    s.advance(Outcome::Done, &mut registry);
    match aborted(s.advance(failed("umount: target is busy"), &mut registry)) {
        WipeError::Unmount { device, cause } => {
            assert_eq!(device, "/dev/sdf");
            assert_eq!(cause, "umount: target is busy");
        },
        e => panic!("unexpected error {:?}", e),
    }

    // a failed unmount gives the device back
    assert!(registry.acquire("/dev/sdf", 6));

    let mut s = WipeSession::start(target("/dev/sdg", MIB, false), false);
    for _ in 0..3 {
        s.advance(Outcome::Done, &mut registry);
    }
    assert!(matches!(aborted(s.advance(failed("no key"), &mut registry)), WipeError::ContainerOpen { .. }));
    // a failed open gives the device back
    assert!(registry.acquire("/dev/sdg", 7));

    let mut s = session_at_overwrite("/dev/sdh", &mut registry);
    let mut buf = vec![0u8; OVERWRITE_BLOCK_SIZE];
    s.next_overwrite_block(&mut buf);
    s.overwrite_block_written();
    match aborted(s.advance(failed("I/O error"), &mut registry)) {
        WipeError::OverwriteIo { offset, diagnostic } => {
            assert_eq!(offset, MIB);
            assert_eq!(diagnostic, "I/O error");
        },
        e => panic!("unexpected error {:?}", e),
    }

    let mut s = session_at_overwrite("/dev/sdi", &mut registry);
    match aborted(s.advance(Outcome::Done, &mut registry)) {
        WipeError::OverwriteIo { offset, .. } => assert_eq!(offset, 0),
        e => panic!("unexpected error {:?}", e),
    }

    let mut s = session_at_overwrite("/dev/sdj", &mut registry);
    while !s.overwrite_pass().is_complete() {
        s.next_overwrite_block(&mut buf);
        s.overwrite_block_written();
    }
    assert!(matches!(s.advance(Outcome::Done, &mut registry).action, Action::CloseContainer { .. }));
    assert!(matches!(aborted(s.advance(failed("busy"), &mut registry)), WipeError::ContainerClose { .. }));

    let mut s = session_at_overwrite("/dev/sdk", &mut registry);
    while !s.overwrite_pass().is_complete() {
        s.next_overwrite_block(&mut buf);
        s.overwrite_block_written();
    }
    s.advance(Outcome::Done, &mut registry);
    match s.advance(Outcome::Done, &mut registry).action {
        Action::DestroyHeader { device, length } => {
            assert_eq!(device, "/dev/sdk");
            assert_eq!(length, 10 * MIB);
        },
        _ => panic!("expected the header destruction"),
    }
    assert!(matches!(aborted(s.advance(failed("dd failed"), &mut registry)), WipeError::KeyDestruction { .. }));
}

fn session_at_verify(path: &str, registry: &mut MapperRegistry) -> WipeSession {
    let mut s = session_at_overwrite(path, registry);
    let mut buf = vec![0u8; OVERWRITE_BLOCK_SIZE];
    while !s.overwrite_pass().is_complete() {
        s.next_overwrite_block(&mut buf);
        s.overwrite_block_written();
    }
    s.advance(Outcome::Done, registry);
    s.advance(Outcome::Done, registry);
    assert!(matches!(s.advance(Outcome::Done, registry).action, Action::Verify { .. }));
    s
}

fn verification_reason(step: Step) -> String {
    match aborted(step) {
        WipeError::Verification { reason } => reason,
        e => panic!("unexpected error {:?}", e),
    }
}

#[test]
fn verification_rejects_a_remaining_header() {
    let mut registry = MapperRegistry::new();
    let mut s = session_at_verify("/dev/sdl", &mut registry);
    let mut block = vec![0x11u8; OVERWRITE_BLOCK_SIZE];
    block[..6].copy_from_slice(&[0x4c, 0x55, 0x4b, 0x53, 0xba, 0xbe]);
    while !s.readback_pass().is_complete() {
        let n = s.next_readback_len();
        s.readback_block(&block, n);
    }
    assert_eq!(verification_reason(s.advance(Outcome::Done, &mut registry)), "the container header signature is still present");
}

#[test]
fn verification_rejects_a_zero_block() {
    let mut registry = MapperRegistry::new();
    let mut s = session_at_verify("/dev/sdm", &mut registry);
    let n = s.next_readback_len();
    s.readback_block(&vec![0x11u8; n], n);
    let n = s.next_readback_len();
    s.readback_block(&vec![0u8; n], n);
    assert_eq!(verification_reason(s.advance(Outcome::Done, &mut registry)), "a block of the device reads back as all zeros");
}

#[test]
fn verification_rejects_a_short_read() {
    let mut registry = MapperRegistry::new();
    let mut s = session_at_verify("/dev/sdn", &mut registry);
    let n = s.next_readback_len();
    s.readback_block(&vec![0x11u8; n], n);
    assert_eq!(verification_reason(s.advance(Outcome::Done, &mut registry)), "the device could not be read back in full");
    let mut s = session_at_verify("/dev/sdo", &mut registry);
    assert_eq!(verification_reason(s.advance(failed("read error"), &mut registry)), "read error");
}

#[test]
fn operation_id_text_and_mapper_name() {
    let id = OperationId { value: 0x0123_4567_89ab_cdef_0011_2233_4455_6677 };
    assert_eq!(id.text(), "01234567-89ab-cdef-0011-223344556677");
    assert_eq!(id.mapper_name(), "cryptowipe_0123456789abcdef0011223344556677");
    assert_eq!(OperationId { value: 0 }.mapper_name(), "cryptowipe_00000000000000000000000000000000");
    let a = OperationId::generate();
    let b = OperationId::generate();
    assert_eq!((a.value >> 76) & 0xf, 4);
    assert_eq!((a.value >> 62) & 0x3, 2);
    assert_eq!(&a.text()[14..15], "4");
    assert_ne!(a.mapper_name(), b.mapper_name());
}

#[test]
fn passphrases_are_fresh() {
    let a = generate_random_passphrase();
    let b = generate_random_passphrase();
    assert_eq!(a.chars().count(), 64);
    assert!(a.chars().all(|c| ALPHABET.contains(c)));
    assert_ne!(a, b);
}

#[test]
fn decimal_rendering() {
    assert_eq!(decimal_text(0), "0");
    assert_eq!(decimal_text(512), "512");
    assert_eq!(decimal_text(u64::MAX), "18446744073709551615");
}

#[test]
fn overwrite_status_shows_one_decimal() {
    let mut registry = MapperRegistry::new();
    let mut s = WipeSession::start(target("/dev/sdp", 3 * MIB, false), false);
    for _ in 0..4 {
        s.advance(Outcome::Done, &mut registry);
    }
    let mut buf = vec![0u8; OVERWRITE_BLOCK_SIZE];
    s.next_overwrite_block(&mut buf);
    let e = s.overwrite_block_written();
    assert_eq!(e.status, "Overwriting with encrypted random data: 33.3%");
    assert_eq!(e.progress, 416_666);
}

#[test]
fn passphrase_follows_the_draws() {
    let mut indices = vec![0usize; 64];
    indices[1] = 69;
    indices[2] = 26;
    indices[3] = 62;
    let p = passphrase_from_draws(&indices);
    assert_eq!(p.chars().count(), 64);
    assert!(p.starts_with("A*a!A"));
    let all: Vec<usize> = (0..64).map(|i| i % 70).collect();
    assert_eq!(&passphrase_from_draws(&all)[..10], "ABCDEFGHIJ");
}
