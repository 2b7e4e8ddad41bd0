use cryptowipe::certificate::{generate_completion_certificate, VerificationOutcome};
use cryptowipe::identity::OperationId;

#[test]
fn certificate_text_lists_the_record() {
    let id = OperationId { value: 0xfeed_beef_0000_4000_8000_0000_0000_0001 };
    let c = generate_completion_certificate("/dev/sdb", &id, "2024-05-01 12:00:00 UTC".to_string(), VerificationOutcome::Performed);
    assert_eq!(c.operation_id, "feedbeef-0000-4000-8000-000000000001");
    assert_eq!(c.process_steps.len(), 4);
    let expected = "LUKS CRYPTO WIPE COMPLETION CERTIFICATE\n\
Operation ID: feedbeef-0000-4000-8000-000000000001\n\
Device: /dev/sdb\n\
Method: LUKS2 AES-XTS-256 Encryption\n\
Key Size: 512 bits\n\
Hash: SHA-256\n\
Process:\n  1. LUKS encryption applied\n  2. Filled with encrypted random data\n  3. Encryption keys destroyed\n  4. LUKS header overwritten\n\
Security: Data is cryptographically unrecoverable\n\
Completion Time: 2024-05-01 12:00:00 UTC\n\
Status: VERIFIED SECURE";
    assert_eq!(c.to_text(), expected);
}

#[test]
fn skipped_verification_is_recorded() {
    let id = OperationId { value: 1 };
    let c = generate_completion_certificate("/dev/nvme0n1p2", &id, String::new(), VerificationOutcome::Skipped);
    assert_eq!(c.verification_status, "NOT VERIFIED (verification skipped)");
    let text = c.to_text();
    assert!(text.contains("/dev/nvme0n1p2"));
    assert!(text.contains("00000000-0000-0000-0000-000000000001"));
}
