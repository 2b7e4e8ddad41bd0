//! The demonstration backend of the graphical preview: a simulated wipe whose progress and
//! certificate follow the real pipeline's stages without touching any device.

use vstd::prelude::*;
use crate::device::{DriveInfo, DriveView};
use crate::text::{decimal_digits, decimal_text};

verus! {

/// The status line of the simulated wipe at `percent` percent.
pub open spec fn demo_status_text(percent: nat) -> Seq<char> {
    if percent <= 10 {
        "Generating cryptographic key..."@
    } else if percent <= 25 {
        "Setting up LUKS encryption..."@
    } else if percent <= 35 {
        "Opening encrypted partition..."@
    } else if percent <= 85 {
        "Filling with encrypted random data..."@
    } else if percent <= 95 {
        "Closing partition and destroying keys..."@
    } else {
        "Finalizing crypto wipe..."@
    }
}

/// The status line of the simulated wipe at `percent` percent.
pub fn demo_status(percent: u32) -> (r: String)
    ensures
        r@ == demo_status_text(percent as nat),
{
    if percent <= 10 {
        String::from_str("Generating cryptographic key...")
    } else if percent <= 25 {
        String::from_str("Setting up LUKS encryption...")
    } else if percent <= 35 {
        String::from_str("Opening encrypted partition...")
    } else if percent <= 85 {
        String::from_str("Filling with encrypted random data...")
    } else if percent <= 95 {
        String::from_str("Closing partition and destroying keys...")
    } else {
        String::from_str("Finalizing crypto wipe...")
    }
}

/// The uppercase hexadecimal digit `d` (below 16).
pub open spec fn upper_digit(d: nat) -> char {
    seq!['0', '1', '2', '3', '4', '5', '6', '7', '8', '9', 'A', 'B', 'C', 'D', 'E', 'F'][d as int]
}

/// The lowest `width` uppercase hexadecimal digits of `x`, zero padded.
pub open spec fn upper_hex(x: nat, width: nat) -> Seq<char>
    decreases width,
{
    if width == 0 {
        Seq::empty()
    } else {
        upper_hex(x / 16, (width - 1) as nat).push(upper_digit(x % 16))
    }
}

/// The operation identifier of a simulated wipe: `LUKS-` and eight uppercase hexadecimal digits.
pub open spec fn demo_operation_id_text(stamp: u32) -> Seq<char> {
    "LUKS-"@ + upper_hex(stamp as nat, 8)
}

/// The operation identifier of a simulated wipe made from `stamp`.
pub fn demo_operation_id(stamp: u32) -> (r: String)
    ensures
        r@ == demo_operation_id_text(stamp),
{
    let alphabet = "0123456789ABCDEF";
    proof {
        reveal_strlit("0123456789ABCDEF");
    }
    let mut digits = String::new();
    let mut x: u32 = stamp;
    let mut k: u32 = 0;
    assert(upper_hex(stamp as nat, 0) =~= Seq::<char>::empty());
    assert(stamp as nat / 1 == stamp as nat);
    while k < 8
        invariant
            alphabet@ == seq!['0', '1', '2', '3', '4', '5', '6', '7', '8', '9', 'A', 'B', 'C', 'D', 'E', 'F'],
            k <= 8,
            upper_hex(stamp as nat, 8) == upper_hex(x as nat, (8 - k) as nat) + digits@,
        decreases 8 - k,
    {
        let d = (x % 16) as usize;
        let c = alphabet.substring_char(d, d + 1);
        let ghost before = digits@;
        assert(c@ =~= seq![upper_digit(d as nat)]);
        digits = String::from_str(c).concat(digits.as_str());
        assert(upper_hex(x as nat, (8 - k) as nat) =~= upper_hex((x / 16) as nat, (8 - k - 1) as nat).push(
            upper_digit(d as nat),
        ));
        assert(upper_hex(x as nat, (8 - k) as nat) + before =~= upper_hex((x / 16) as nat, (8 - k - 1) as nat)
            + digits@);
        x = x / 16;
        k = k + 1;
    }
    assert(upper_hex(x as nat, 0) =~= Seq::<char>::empty());
    assert(upper_hex(stamp as nat, 8) =~= digits@);
    String::from_str("LUKS-").concat(digits.as_str())
}

/// How the preview names a drive: its path and, in parentheses, its model.
pub open spec fn drive_label_text(d: DriveView) -> Seq<char> {
    d.path + " ("@ + d.name + ")"@
}

/// How the preview names `drive`.
pub fn drive_label(drive: &DriveInfo) -> (r: String)
    ensures
        r@ == drive_label_text(drive@),
{
    let mut r = drive.path.clone();
    r.append(" (");
    r.append(drive.name.as_str());
    r.append(")");
    r
}

/// The certificate text of a simulated wipe.
pub open spec fn demo_certificate_text(d: DriveView, operation_id: Seq<char>, completion_time: Seq<char>) -> Seq<char> {
    "LUKS CRYPTO WIPE COMPLETION CERTIFICATE\nOperation ID: "@ + operation_id + "\nDevice: "@ + drive_label_text(d)
        + "\nSize: "@ + decimal_digits(d.size_gb) + " GB\nMethod: LUKS2 AES-XTS-256 Encryption\nKey Size: 512 bits\nHash: SHA-256\nProcess:\n  1. LUKS encryption applied\n  2. Filled with encrypted random data\n  3. Encryption keys destroyed\n  4. LUKS header overwritten\nSecurity: Data is cryptographically unrecoverable\nCompletion Time: "@
        + completion_time + "\nStatus: VERIFIED SECURE"@
}

/// The certificate text of the simulated wipe of `drive`.
pub fn demo_certificate(drive: &DriveInfo, operation_id: &str, completion_time: &str) -> (r: String)
    ensures
        r@ == demo_certificate_text(drive@, operation_id@, completion_time@),
{
    let mut r = String::from_str("LUKS CRYPTO WIPE COMPLETION CERTIFICATE\nOperation ID: ");
    r.append(operation_id);
    r.append("\nDevice: ");
    r.append(drive_label(drive).as_str());
    r.append("\nSize: ");
    r.append(decimal_text(drive.size_gb).as_str());
    r.append(
        " GB\nMethod: LUKS2 AES-XTS-256 Encryption\nKey Size: 512 bits\nHash: SHA-256\nProcess:\n  1. LUKS encryption applied\n  2. Filled with encrypted random data\n  3. Encryption keys destroyed\n  4. LUKS header overwritten\nSecurity: Data is cryptographically unrecoverable\nCompletion Time: ",
    );
    r.append(completion_time);
    r.append("\nStatus: VERIFIED SECURE");
    r
}

} // verus!

verus! {

/// The simulated certificate names its operation, the drive's path and the drive's model
/// verbatim.
pub proof fn lemma_demo_certificate_names(d: DriveView, operation_id: Seq<char>, completion_time: Seq<char>)
    ensures
        crate::certificate::contains_text(demo_certificate_text(d, operation_id, completion_time), operation_id),
        crate::certificate::contains_text(demo_certificate_text(d, operation_id, completion_time), d.path),
        crate::certificate::contains_text(demo_certificate_text(d, operation_id, completion_time), d.name),
{
    let t = demo_certificate_text(d, operation_id, completion_time);
    let a = "LUKS CRYPTO WIPE COMPLETION CERTIFICATE\nOperation ID: "@;
    let b = a + operation_id + "\nDevice: "@;
    let c = b + d.path + " ("@;
    let ka = a.len() as int;
    let kb = b.len() as int;
    let kc = c.len() as int;
    let rest = t.skip(kc + d.name.len());
    assert(t.subrange(0, kc + d.name.len()) =~= c + d.name);
    assert(t =~= t.subrange(0, kc + d.name.len()) + rest);
    assert(t.subrange(ka, ka + operation_id.len()) =~= operation_id);
    assert(t.subrange(kb, kb + d.path.len()) =~= d.path);
    assert(t.subrange(kc, kc + d.name.len()) =~= d.name);
}

} // verus!
