//! The completion certificate: an auditable record of one finished wipe, and its
//! human-readable rendering.

use vstd::prelude::*;
use crate::identity::{hyphenated, OperationId};
use crate::text::{decimal_digits, decimal_text};

verus! {

/// The erasure method named in certificates.
pub open spec fn method_name() -> Seq<char> {
    "LUKS2 AES-XTS-256 Encryption"@
}

/// The key size, in bits, of every container this tool creates.
pub const KEY_SIZE_BITS: u32 = 512;

/// The hash algorithm named in certificates.
pub open spec fn hash_name() -> Seq<char> {
    "SHA-256"@
}

/// The steps every completed wipe went through, in order.
pub open spec fn completed_steps() -> Seq<Seq<char>> {
    seq![
        "LUKS encryption applied"@,
        "Filled with encrypted random data"@,
        "Encryption keys destroyed"@,
        "LUKS header overwritten"@,
    ]
}

pub open spec fn security_statement() -> Seq<char> {
    "Data is cryptographically unrecoverable"@
}

/// Whether the optional read-back verification ran and passed, or was not asked for.
#[derive(Clone, Copy, Debug, PartialEq, Eq, Structural)]
pub enum VerificationOutcome {
    Performed,
    Skipped,
}

pub open spec fn verification_text(v: VerificationOutcome) -> Seq<char> {
    match v {
        VerificationOutcome::Performed => "VERIFIED SECURE"@,
        VerificationOutcome::Skipped => "NOT VERIFIED (verification skipped)"@,
    }
}

/// The record of one completed wipe.
#[derive(Debug, Clone)]
pub struct WipeCertificate {
    pub operation_id: String,
    pub device: String,
    pub method: String,
    pub key_size: u32,
    pub hash_algorithm: String,
    pub process_steps: Vec<String>,
    pub security_status: String,
    pub completion_time: String,
    pub verification_status: String,
}

/// The mathematical value of a [`WipeCertificate`].
pub struct CertificateView {
    pub operation_id: Seq<char>,
    pub device: Seq<char>,
    pub method: Seq<char>,
    pub key_size: nat,
    pub hash_algorithm: Seq<char>,
    pub process_steps: Seq<Seq<char>>,
    pub security_status: Seq<char>,
    pub completion_time: Seq<char>,
    pub verification_status: Seq<char>,
}

impl View for WipeCertificate {
    type V = CertificateView;

    open spec fn view(&self) -> CertificateView {
        CertificateView {
            operation_id: self.operation_id@,
            device: self.device@,
            method: self.method@,
            key_size: self.key_size as nat,
            hash_algorithm: self.hash_algorithm@,
            process_steps: self.process_steps.deep_view(),
            security_status: self.security_status@,
            completion_time: self.completion_time@,
            verification_status: self.verification_status@,
        }
    }
}

/// The certificate of the wipe of `device` by operation `id`, completed at `time`.
pub open spec fn certificate_of(
    device: Seq<char>,
    id: u128,
    time: Seq<char>,
    verification: VerificationOutcome,
) -> CertificateView {
    CertificateView {
        operation_id: hyphenated(id as nat),
        device,
        method: method_name(),
        key_size: KEY_SIZE_BITS as nat,
        hash_algorithm: hash_name(),
        process_steps: completed_steps(),
        security_status: security_statement(),
        completion_time: time,
        verification_status: verification_text(verification),
    }
}

/// The numbered list of steps, one per line, each indented by two blanks.
pub open spec fn steps_text(steps: Seq<Seq<char>>) -> Seq<char>
    decreases steps.len(),
{
    if steps.len() == 0 {
        Seq::empty()
    } else {
        steps_text(steps.drop_last()) + "  "@ + decimal_digits(steps.len()) + ". "@ + steps.last() + "\n"@
    }
}

/// What comes before the operation identifier in the rendering.
pub open spec fn text_heading() -> Seq<char> {
    "LUKS CRYPTO WIPE COMPLETION CERTIFICATE\nOperation ID: "@
}

/// The human-readable rendering of a certificate.
pub open spec fn certificate_text(c: CertificateView) -> Seq<char> {
    text_heading() + c.operation_id + "\nDevice: "@ + c.device + "\nMethod: "@ + c.method + "\nKey Size: "@
        + decimal_digits(c.key_size) + " bits\nHash: "@ + c.hash_algorithm + "\nProcess:\n"@ + steps_text(
        c.process_steps,
    ) + "Security: "@ + c.security_status + "\nCompletion Time: "@ + c.completion_time + "\nStatus: "@
        + c.verification_status
}

/// Whether `t` occurs in `s` as a contiguous run.
pub open spec fn contains_text(s: Seq<char>, t: Seq<char>) -> bool {
    exists|i: int| 0 <= i && i + t.len() <= s.len() && #[trigger] s.subrange(i, i + t.len()) == t
}

/// The most characters that a completion time can have: chrono's `%Y` has at most seven
/// (a sign and six digits, for its years -262144 to 262143), and each other field of
/// `%Y-%m-%d %H:%M:%S UTC` a fixed width.
pub const MAX_TIME_TEXT_LEN: usize = 32;

/// Relies on chrono::Utc::now, formatted by chrono as `%Y-%m-%d %H:%M:%S UTC`: the current
/// time, which depends on the clock alone; the text is short, as chrono's `%Y` is at most a
/// sign and six digits and the other fields have fixed widths.
#[verifier::external_body]
pub(crate) fn utc_now_text() -> (r: String)
    ensures
        r@.len() <= MAX_TIME_TEXT_LEN,
{
    chrono::Utc::now().format("%Y-%m-%d %H:%M:%S UTC").to_string()
}

/// The certificate of the wipe of `device` by operation `id`, completed at `completion_time`.
pub fn generate_completion_certificate(
    device: &str,
    id: &OperationId,
    completion_time: String,
    verification: VerificationOutcome,
) -> (r: WipeCertificate)
    ensures
        r@ == certificate_of(device@, id.value, completion_time@, verification),
{
    let mut steps: Vec<String> = Vec::new();
    steps.push(String::from_str("LUKS encryption applied"));
    steps.push(String::from_str("Filled with encrypted random data"));
    steps.push(String::from_str("Encryption keys destroyed"));
    steps.push(String::from_str("LUKS header overwritten"));
    assert(steps.deep_view() =~= completed_steps());
    let verification_status = match verification {
        VerificationOutcome::Performed => String::from_str("VERIFIED SECURE"),
        VerificationOutcome::Skipped => String::from_str("NOT VERIFIED (verification skipped)"),
    };
    WipeCertificate {
        operation_id: id.text(),
        device: String::from_str(device),
        method: String::from_str("LUKS2 AES-XTS-256 Encryption"),
        key_size: KEY_SIZE_BITS,
        hash_algorithm: String::from_str("SHA-256"),
        process_steps: steps,
        security_status: String::from_str("Data is cryptographically unrecoverable"),
        completion_time,
        verification_status,
    }
}

impl WipeCertificate {
    /// The human-readable rendering of this certificate.
    pub fn to_text(&self) -> (r: String)
        requires
            self.process_steps@.len() < u64::MAX,
        ensures
            r@ == certificate_text(self@),
    {
        let mut r = String::from_str("LUKS CRYPTO WIPE COMPLETION CERTIFICATE\nOperation ID: ");
        r.append(self.operation_id.as_str());
        r.append("\nDevice: ");
        r.append(self.device.as_str());
        r.append("\nMethod: ");
        r.append(self.method.as_str());
        r.append("\nKey Size: ");
        r.append(decimal_text(self.key_size as u64).as_str());
        r.append(" bits\nHash: ");
        r.append(self.hash_algorithm.as_str());
        r.append("\nProcess:\n");
        let ghost head = r@;
        let ghost steps = self.process_steps.deep_view();
        let mut i: usize = 0;
        assert(steps.subrange(0, 0) =~= Seq::<Seq<char>>::empty());
        assert(head =~= head + steps_text(steps.subrange(0, 0)));
        while i < self.process_steps.len()
            invariant
                steps == self.process_steps.deep_view(),
                self.process_steps@.len() < u64::MAX,
                i <= self.process_steps@.len(),
                r@ == head + steps_text(steps.subrange(0, i as int)),
            decreases self.process_steps@.len() - i,
        {
            let ghost sub = steps.subrange(0, i + 1);
            assert(sub.drop_last() =~= steps.subrange(0, i as int));
            assert(sub.last() == self.process_steps@[i as int]@);
            r.append("  ");
            r.append(decimal_text((i + 1) as u64).as_str());
            r.append(". ");
            r.append(self.process_steps[i].as_str());
            r.append("\n");
            i = i + 1;
            assert(r@ =~= head + steps_text(sub));
        }
        assert(steps.subrange(0, self.process_steps@.len() as int) =~= steps);
        r.append("Security: ");
        r.append(self.security_status.as_str());
        r.append("\nCompletion Time: ");
        r.append(self.completion_time.as_str());
        r.append("\nStatus: ");
        r.append(self.verification_status.as_str());
        r
    }
}

/// The rendering of a certificate names its operation and its device verbatim.
pub proof fn lemma_text_names_operation_and_device(c: CertificateView)
    ensures
        contains_text(certificate_text(c), c.operation_id),
        contains_text(certificate_text(c), c.device),
{
    let t = certificate_text(c);
    let a = text_heading();
    let b = a + c.operation_id + "\nDevice: "@;
    let ka: int = a.len() as int;
    let kb: int = b.len() as int;
    let ke: int = kb + c.device.len();
    let rest = t.skip(ke);
    assert(t.subrange(0, ke) =~= b + c.device);
    assert(t =~= t.subrange(0, ke) + rest);
    assert(t.subrange(ka, ka + c.operation_id.len()) =~= c.operation_id);
    assert(t.subrange(kb, ke) =~= c.device);
}

} // verus!

verus! {

/// Whether `p` never uses the character `c`.
pub open spec fn lacks(p: Seq<char>, c: char) -> bool {
    forall|j: int| 0 <= j < p.len() ==> p[j] != c
}

/// A run of `p` in `a + b` lies within `a` or within `b` when a character that `p` lacks
/// stands at the seam: the last of `a` or the first of `b`.
proof fn lemma_seam(a: Seq<char>, b: Seq<char>, p: Seq<char>)
    requires
        (a.len() > 0 && lacks(p, a.last())) || (b.len() > 0 && lacks(p, b[0])),
        !contains_text(a, p),
        !contains_text(b, p),
    ensures
        !contains_text(a + b, p),
{
    let s = a + b;
    if contains_text(s, p) {
        let i = choose|i: int| 0 <= i && i + p.len() <= s.len() && #[trigger] s.subrange(i, i + p.len()) == p;
        if i + p.len() <= a.len() {
            assert(a.subrange(i, i + p.len()) =~= s.subrange(i, i + p.len()));
        } else if i >= a.len() {
            let k = i - a.len();
            assert(b.subrange(k, k + p.len()) =~= s.subrange(i, i + p.len()));
        } else if a.len() > 0 && lacks(p, a.last()) {
            assert(p[a.len() - 1 - i] == s.subrange(i, i + p.len())[a.len() - 1 - i]);
        } else {
            assert(p[a.len() - i] == s.subrange(i, i + p.len())[a.len() - i]);
        }
    }
}

/// Nothing shorter than `p` holds it.
proof fn lemma_short(s: Seq<char>, p: Seq<char>)
    requires
        s.len() < p.len(),
    ensures
        !contains_text(s, p),
{
}

proof fn lemma_hex_len(x: nat, w: nat)
    ensures
        crate::text::hex_digits(x, w).len() == w,
    decreases w,
{
    if w > 0 {
        lemma_hex_len(x / 16, (w - 1) as nat);
    }
}

/// The numbered step list holds no run of `p` when every step and the count are short and
/// `p` has no blank, line break or period.
proof fn lemma_steps_omit(steps: Seq<Seq<char>>, p: Seq<char>)
    requires
        steps.len() < 10,
        p.len() >= 64,
        forall|i: int| 0 <= i < steps.len() ==> #[trigger] steps[i].len() < 64,
        lacks(p, ' '),
        lacks(p, '\n'),
        lacks(p, '.'),
    ensures
        !contains_text(steps_text(steps), p),
        steps.len() > 0 ==> steps_text(steps).last() == '\n',
    decreases steps.len(),
{
    reveal_strlit("  ");
    reveal_strlit(". ");
    reveal_strlit("\n");
    if steps.len() > 0 {
        let prev = steps.drop_last();
        assert forall|i: int| 0 <= i < prev.len() implies #[trigger] prev[i].len() < 64 by {
            assert(prev[i] == steps[i]);
        }
        lemma_steps_omit(prev, p);
        let d = decimal_digits(steps.len());
        assert(d.len() == 1);
        let a0 = steps_text(prev);
        let a1 = a0 + "  "@;
        let a2 = a1 + d;
        let a3 = a2 + ". "@;
        let a4 = a3 + steps.last();
        lemma_short("  "@, p);
        lemma_seam(a0, "  "@, p);
        lemma_short(d, p);
        lemma_seam(a1, d, p);
        lemma_short(". "@, p);
        lemma_seam(a2, ". "@, p);
        lemma_short(steps.last(), p);
        lemma_seam(a3, steps.last(), p);
        lemma_short("\n"@, p);
        lemma_seam(a4, "\n"@, p);
    }
}

/// The rendered certificate never holds the session's passphrase, unless the device path,
/// which comes from outside, holds it itself. The completion time is too short to hold it.
pub proof fn lemma_text_omits_passphrase(
    device: Seq<char>,
    id: u128,
    time: Seq<char>,
    verification: VerificationOutcome,
    p: Seq<char>,
)
    requires
        crate::keygen::is_passphrase(p),
        !contains_text(device, p),
        time.len() <= MAX_TIME_TEXT_LEN,
    ensures
        !contains_text(certificate_text(certificate_of(device, id, time, verification)), p),
{
    assert(lacks(p, ' ') && lacks(p, '\n') && lacks(p, '.') && lacks(p, '-')) by {
        assert forall|j: int| 0 <= j < p.len() implies p[j] != ' ' && p[j] != '\n' && p[j] != '.' && p[j] != '-' by {
            crate::keygen::lemma_alphabet_has_no_separator(p[j]);
        }
    }
    reveal_strlit("LUKS CRYPTO WIPE COMPLETION CERTIFICATE\nOperation ID: ");
    reveal_strlit("\nDevice: ");
    reveal_strlit("\nMethod: ");
    reveal_strlit("LUKS2 AES-XTS-256 Encryption");
    reveal_strlit("\nKey Size: ");
    reveal_strlit(" bits\nHash: ");
    reveal_strlit("SHA-256");
    reveal_strlit("\nProcess:\n");
    reveal_strlit("Security: ");
    reveal_strlit("Data is cryptographically unrecoverable");
    reveal_strlit("\nCompletion Time: ");
    reveal_strlit("\nStatus: ");
    reveal_strlit("VERIFIED SECURE");
    reveal_strlit("NOT VERIFIED (verification skipped)");
    reveal_strlit("LUKS encryption applied");
    reveal_strlit("Filled with encrypted random data");
    reveal_strlit("Encryption keys destroyed");
    reveal_strlit("LUKS header overwritten");
    let c = certificate_of(device, id, time, verification);
    lemma_hex_len(id as nat, 32);
    assert(c.operation_id.len() == 36);
    reveal_with_fuel(decimal_digits, 4);
    assert(decimal_digits(512).len() == 3);
    let steps = completed_steps();
    assert forall|i: int| 0 <= i < steps.len() implies #[trigger] steps[i].len() < 64 by {}
    lemma_steps_omit(steps, p);
    lemma_short(time, p);

    let t0 = text_heading() + c.operation_id;
    lemma_short(text_heading(), p);
    lemma_short(c.operation_id, p);
    lemma_seam(text_heading(), c.operation_id, p);
    let t1 = t0 + "\nDevice: "@;
    lemma_seam(t0, "\nDevice: "@, p);
    let t2 = t1 + device;
    lemma_seam(t1, device, p);
    let t3 = t2 + "\nMethod: "@;
    lemma_seam(t2, "\nMethod: "@, p);
    let t4 = t3 + c.method;
    lemma_seam(t3, c.method, p);
    let t5 = t4 + "\nKey Size: "@;
    lemma_seam(t4, "\nKey Size: "@, p);
    let t6 = t5 + decimal_digits(c.key_size);
    lemma_seam(t5, decimal_digits(c.key_size), p);
    let t7 = t6 + " bits\nHash: "@;
    lemma_seam(t6, " bits\nHash: "@, p);
    let t8 = t7 + c.hash_algorithm;
    lemma_seam(t7, c.hash_algorithm, p);
    let t9 = t8 + "\nProcess:\n"@;
    lemma_seam(t8, "\nProcess:\n"@, p);
    let t10 = t9 + steps_text(c.process_steps);
    lemma_seam(t9, steps_text(c.process_steps), p);
    let t11 = t10 + "Security: "@;
    lemma_seam(t10, "Security: "@, p);
    let t12 = t11 + c.security_status;
    lemma_seam(t11, c.security_status, p);
    let t13 = t12 + "\nCompletion Time: "@;
    lemma_seam(t12, "\nCompletion Time: "@, p);
    let t14 = t13 + time;
    lemma_seam(t13, time, p);
    let t15 = t14 + "\nStatus: "@;
    lemma_seam(t14, "\nStatus: "@, p);
    lemma_seam(t15, c.verification_status, p);
    assert(t15 + c.verification_status == certificate_text(c));
}

} // verus!
