//! The wipe session: the staged state machine that drives the destruction of one device.
//!
//! `Idle → Preparing → KeyGenerated → ContainerCreated → ContainerOpened → Overwriting →
//! Closed → KeysDestroyed → Verifying (optional) → Complete`, with `Failed` reachable from
//! every stage. The session decides; its caller performs each action it asks for and
//! reports back how it went. Each step hands out the progress events to deliver, in order.

use vstd::prelude::*;
use crate::certificate::{
    certificate_of, generate_completion_certificate, utc_now_text, VerificationOutcome, WipeCertificate,
    MAX_TIME_TEXT_LEN,
};
use crate::identity::{mapper_name_of, mapper_path, mapper_path_of, OperationId};
use crate::keygen::{generate_random_passphrase, is_passphrase};
use crate::overwrite::{
    fraction_ppm, lemma_fraction_monotone, lemma_fraction_whole, scaled_fraction, OverwritePass,
    OVERWRITE_BLOCK_SIZE, PROGRESS_FULL,
};
use crate::readback::{ReadbackFinding, ReadbackPass};
use crate::registry::MapperRegistry;
use crate::text::{decimal_digits, decimal_text, digit_char, digit_str};

verus! {

/// Bytes at the start of the raw device that hold the container header and key slots,
/// overwritten when the keys are destroyed: 10 MiB.
pub const HEADER_REGION_BYTES: u64 = 10485760;

/// Format attempts allowed on removable media, which may transiently reject a format
/// right after being unmounted.
pub const REMOVABLE_FORMAT_ATTEMPTS: u32 = 3;

/// Progress, in parts per million, at the end of each stage.
pub const PROGRESS_PREPARED: u32 = 50000;
pub const PROGRESS_KEY_GENERATED: u32 = 100000;
pub const PROGRESS_CONTAINER_CREATED: u32 = 200000;
pub const PROGRESS_CONTAINER_OPENED: u32 = 250000;
pub const PROGRESS_OVERWRITTEN: u32 = 750000;
pub const PROGRESS_CLOSED: u32 = 800000;
pub const PROGRESS_KEYS_DESTROYED: u32 = 900000;

/// The share of the overwrite pass and of the read-back in the overall progress.
pub const OVERWRITE_SPAN: u32 = 500000;
pub const READBACK_SPAN: u32 = 100000;

/// The format attempts allowed for a device: a bounded retry on removable media only.
pub open spec fn max_format_attempts(removable: bool) -> nat {
    if removable {
        REMOVABLE_FORMAT_ATTEMPTS as nat
    } else {
        1
    }
}

/// Overall progress while `written` of `size` bytes are overwritten.
pub open spec fn overwrite_progress(written: nat, size: nat) -> nat {
    if size == 0 {
        PROGRESS_CONTAINER_OPENED as nat
    } else {
        (PROGRESS_CONTAINER_OPENED as int + (OVERWRITE_SPAN as int * written as int) / size as int) as nat
    }
}

/// Overall progress while `read` of `size` bytes are read back.
pub open spec fn readback_progress(read: nat, size: nat) -> nat {
    if size == 0 {
        PROGRESS_KEYS_DESTROYED as nat
    } else {
        (PROGRESS_KEYS_DESTROYED as int + (READBACK_SPAN as int * read as int) / size as int) as nat
    }
}

/// `part` of `whole` as a percentage with one decimal, rounded down.
pub open spec fn percent_text(part: nat, whole: nat) -> Seq<char> {
    let t: nat = fraction_ppm(part, whole) / 1000;
    decimal_digits(t / 10) + seq!['.', digit_char(t % 10), '%']
}

/// The device a session destroys.
pub struct WipeTarget {
    pub path: String,
    pub size_bytes: u64,
    pub is_partition: bool,
    pub is_removable: bool,
}

/// The stages of a session.
#[derive(Clone, Copy, Debug, PartialEq, Eq, Structural)]
pub enum Stage {
    Idle,
    Preparing,
    KeyGenerated,
    ContainerCreated,
    ContainerOpened,
    Overwriting,
    Closed,
    KeysDestroyed,
    Verifying,
    Complete,
    Failed,
}

/// The outcome a session waits for.
#[derive(Clone, Copy, Debug, PartialEq, Eq, Structural)]
pub enum Pending {
    Start,
    Unmount,
    Format,
    RetryPause,
    Open,
    Overwrite,
    Close,
    DestroyHeader,
    Verify,
    Nothing,
}

/// Why a session failed. Each carries the diagnostic of the operation that failed.
#[derive(Debug, Clone)]
pub enum WipeError {
    Unmount { device: String, cause: String },
    ContainerFormat { device: String, diagnostic: String },
    DeviceBusy { device: String },
    ContainerOpen { diagnostic: String },
    OverwriteIo { offset: u64, diagnostic: String },
    ContainerClose { diagnostic: String },
    KeyDestruction { diagnostic: String },
    Verification { reason: String },
}

/// One progress event: overall progress in parts per million, and a status line.
#[derive(Debug, Clone)]
pub struct ProgressEvent {
    pub progress: u32,
    pub status: String,
}

/// What the session asks its caller to do next.
pub enum Action {
    /// Free the device and its partitions (see the unmount guard).
    EnsureUnmounted { device: String, is_partition: bool },
    /// Format the device as an encrypted container with this passphrase and parameters.
    FormatContainer { device: String, passphrase: String, cipher: String, key_size: u32, hash: String },
    /// Wait a moment before the next format attempt.
    PauseBeforeRetry,
    /// Open the container under this mapper name.
    OpenContainer { device: String, mapper: String, passphrase: String },
    /// Overwrite the mapped device block by block, through the session's overwrite methods.
    Overwrite { mapped_device: String, size: u64 },
    /// Close the mapper.
    CloseContainer { mapper: String },
    /// Overwrite the leading `length` bytes of the raw device with fresh random bytes.
    DestroyHeader { device: String, length: u64 },
    /// Read the raw device back block by block, through the session's read-back methods.
    Verify { device: String, size: u64 },
    /// The session is complete.
    Finish(WipeCertificate),
    /// The session failed.
    Abort(WipeError),
}

/// How the last action went.
pub enum Outcome {
    Done,
    Failed(String),
}

/// The events to deliver, in order, and the next action.
pub struct Step {
    pub events: Vec<ProgressEvent>,
    pub action: Action,
}

pub open spec fn event_progress(events: Seq<ProgressEvent>) -> Seq<u32> {
    events.map_values(|e: ProgressEvent| e.progress)
}

/// Events as (progress, status line) pairs.
pub open spec fn event_views(events: Seq<ProgressEvent>) -> Seq<(u32, Seq<char>)> {
    events.map_values(|e: ProgressEvent| (e.progress, e.status@))
}

pub open spec fn non_decreasing(s: Seq<u32>) -> bool {
    forall|i: int, j: int| 0 <= i <= j < s.len() ==> s[i] <= s[j]
}

/// The mathematical value of a [`WipeError`].
pub enum WipeErrorView {
    Unmount(Seq<char>, Seq<char>),
    ContainerFormat(Seq<char>, Seq<char>),
    DeviceBusy(Seq<char>),
    ContainerOpen(Seq<char>),
    OverwriteIo(nat, Seq<char>),
    ContainerClose(Seq<char>),
    KeyDestruction(Seq<char>),
    Verification(Seq<char>),
}

impl View for WipeError {
    type V = WipeErrorView;

    open spec fn view(&self) -> WipeErrorView {
        match self {
            WipeError::Unmount { device, cause } => WipeErrorView::Unmount(device@, cause@),
            WipeError::ContainerFormat { device, diagnostic } => WipeErrorView::ContainerFormat(device@, diagnostic@),
            WipeError::DeviceBusy { device } => WipeErrorView::DeviceBusy(device@),
            WipeError::ContainerOpen { diagnostic } => WipeErrorView::ContainerOpen(diagnostic@),
            WipeError::OverwriteIo { offset, diagnostic } => WipeErrorView::OverwriteIo(*offset as nat, diagnostic@),
            WipeError::ContainerClose { diagnostic } => WipeErrorView::ContainerClose(diagnostic@),
            WipeError::KeyDestruction { diagnostic } => WipeErrorView::KeyDestruction(diagnostic@),
            WipeError::Verification { reason } => WipeErrorView::Verification(reason@),
        }
    }
}

impl View for Outcome {
    /// The diagnostic of a failed action; none when it succeeded.
    type V = Option<Seq<char>>;

    open spec fn view(&self) -> Option<Seq<char>> {
        match self {
            Outcome::Done => None,
            Outcome::Failed(d) => Some(d@),
        }
    }
}

/// The reason given when the read-back found structure or stopped early.
pub open spec fn readback_reason(finding: Option<ReadbackFinding>) -> Seq<char> {
    match finding {
        Some(ReadbackFinding::HeaderRemains) => "the container header signature is still present"@,
        Some(ReadbackFinding::ZeroBlock(_)) => "a block of the device reads back as all zeros"@,
        None => "the device could not be read back in full"@,
    }
}

/// One wipe session. It owns the passphrase, which lives only in memory.
pub struct WipeSession {
    id: OperationId,
    target: WipeTarget,
    verify: bool,
    started_at: String,
    passphrase: Option<String>,
    mapper: String,
    stage: Stage,
    pending: Pending,
    progress: u32,
    format_attempts: u32,
    mapper_open: bool,
    claimed: bool,
    overwrite: OverwritePass,
    readback: ReadbackPass,
    reported: Ghost<Seq<u32>>,
}

impl WipeSession {
    pub closed spec fn spec_id(&self) -> u128 {
        self.id.value
    }

    pub closed spec fn spec_device(&self) -> Seq<char> {
        self.target.path@
    }

    pub closed spec fn spec_size(&self) -> nat {
        self.target.size_bytes as nat
    }

    pub closed spec fn spec_is_partition(&self) -> bool {
        self.target.is_partition
    }

    pub closed spec fn spec_is_removable(&self) -> bool {
        self.target.is_removable
    }

    pub closed spec fn spec_verify(&self) -> bool {
        self.verify
    }

    pub closed spec fn spec_stage(&self) -> Stage {
        self.stage
    }

    pub closed spec fn spec_pending(&self) -> Pending {
        self.pending
    }

    /// The last progress reported, in parts per million.
    pub closed spec fn spec_progress(&self) -> nat {
        self.progress as nat
    }

    /// Every progress value this session has reported, in order.
    pub closed spec fn reported(&self) -> Seq<u32> {
        self.reported@
    }

    /// The passphrase, while the session still keeps it.
    pub closed spec fn spec_passphrase(&self) -> Option<Seq<char>> {
        match self.passphrase {
            Some(p) => Some(p@),
            None => None,
        }
    }

    pub closed spec fn spec_format_attempts(&self) -> nat {
        self.format_attempts as nat
    }

    /// Whether the session's mapper is open.
    pub closed spec fn spec_mapper_open(&self) -> bool {
        self.mapper_open
    }

    /// Whether the session holds its claim on the device in the registry.
    pub closed spec fn spec_claimed(&self) -> bool {
        self.claimed
    }

    pub closed spec fn spec_overwrite(&self) -> OverwritePass {
        self.overwrite
    }

    pub closed spec fn spec_readback(&self) -> ReadbackPass {
        self.readback
    }

    /// The session's claim, if it holds one, is in `registry`.
    pub open spec fn claimed_in(&self, registry: MapperRegistry) -> bool {
        self.spec_claimed() ==> registry.holds(self.spec_device(), self.spec_id())
    }

    /// Whether two values are the same session: same identifier, device and options.
    pub open spec fn same_session(&self, other: &WipeSession) -> bool {
        &&& self.spec_id() == other.spec_id()
        &&& self.spec_device() == other.spec_device()
        &&& self.spec_size() == other.spec_size()
        &&& self.spec_is_partition() == other.spec_is_partition()
        &&& self.spec_is_removable() == other.spec_is_removable()
        &&& self.spec_verify() == other.spec_verify()
        &&& self.spec_started_at() == other.spec_started_at()
    }

    /// The reported progress never went down, and the last report is the current progress.
    pub closed spec fn history_ok(&self) -> bool {
        &&& self.progress <= PROGRESS_FULL
        &&& non_decreasing(self.reported@)
        &&& (forall|i: int| 0 <= i < self.reported@.len() ==> #[trigger] self.reported@[i] <= self.progress)
        &&& (self.reported@.len() > 0 ==> self.reported@.last() == self.progress)
        &&& (self.reported@.len() == 0 ==> self.progress == 0)
    }

    /// What holds in every state: the mapper name, the two passes, the history, the
    /// passphrase's shape.
    pub closed spec fn wf_except_control(&self) -> bool {
        &&& self.mapper@ == mapper_name_of(self.id.value as nat)
        &&& self.overwrite.wf()
        &&& self.overwrite.spec_device_size() == self.target.size_bytes
        &&& self.overwrite.spec_block_size() == OVERWRITE_BLOCK_SIZE
        &&& self.readback.wf()
        &&& self.readback.spec_device_size() == self.target.size_bytes
        &&& self.readback.spec_block_size() == OVERWRITE_BLOCK_SIZE
        &&& (self.mapper_open ==> self.claimed)
        &&& (self.passphrase matches Some(p) ==> is_passphrase(p@))
    }

    pub closed spec fn wf(&self) -> bool {
        &&& self.wf_except_control()
        &&& self.history_ok()
        &&& ((self.stage is Complete || self.stage is Failed) <==> self.pending is Nothing)
        &&& match self.pending {
            Pending::Start => self.stage is Idle && self.progress == 0 && !self.claimed && !self.mapper_open
                && self.passphrase is None
                && self.overwrite.spec_written() == 0 && self.readback.spec_read() == 0,
            Pending::Unmount => self.stage is Preparing && self.progress == 0 && self.claimed && !self.mapper_open
                && self.passphrase is None
                && self.overwrite.spec_written() == 0 && self.readback.spec_read() == 0,
            Pending::Format => {
                &&& self.stage is KeyGenerated
                &&& self.progress == PROGRESS_KEY_GENERATED
                &&& 1 <= self.format_attempts <= max_format_attempts(self.target.is_removable)
                &&& self.passphrase is Some
                &&& self.claimed
                &&& !self.mapper_open
                &&& self.overwrite.spec_written() == 0
                            &&& self.readback.spec_read() == 0
            },
            Pending::RetryPause => {
                &&& self.stage is KeyGenerated
                &&& self.progress == PROGRESS_KEY_GENERATED
                &&& 1 <= self.format_attempts < max_format_attempts(self.target.is_removable)
                &&& self.passphrase is Some
                &&& self.claimed
                &&& !self.mapper_open
                &&& self.overwrite.spec_written() == 0
                            &&& self.readback.spec_read() == 0
            },
            Pending::Open => {
                &&& self.stage is ContainerCreated
                &&& self.progress == PROGRESS_CONTAINER_CREATED
                &&& self.passphrase is Some
                &&& self.claimed
                &&& !self.mapper_open
                &&& self.overwrite.spec_written() == 0
                            &&& self.readback.spec_read() == 0
            },
            Pending::Overwrite => {
                &&& (self.stage is ContainerOpened && self.overwrite.spec_written() == 0 || self.stage is Overwriting)
                &&& self.progress == overwrite_progress(self.overwrite.spec_written(), self.target.size_bytes as nat)
                &&& self.passphrase is None
                &&& self.mapper_open
                &&& self.readback.spec_read() == 0
            },
            Pending::Close => {
                &&& (self.stage is ContainerOpened || self.stage is Overwriting)
                &&& self.progress == PROGRESS_OVERWRITTEN
                &&& self.passphrase is None
                &&& self.mapper_open
                &&& self.readback.spec_read() == 0
            },
            Pending::DestroyHeader => {
                &&& self.stage is Closed
                &&& self.progress == PROGRESS_CLOSED
                &&& self.passphrase is None
                &&& !self.claimed
                &&& !self.mapper_open
                &&& self.readback.spec_read() == 0
            },
            Pending::Verify => {
                &&& self.stage is Verifying
                &&& self.verify
                &&& self.progress == readback_progress(self.readback.spec_read(), self.target.size_bytes as nat)
                &&& self.passphrase is None
                &&& !self.claimed
                &&& !self.mapper_open
            },
            Pending::Nothing => {
                &&& self.passphrase is None
                &&& (self.stage is Complete ==> self.progress == PROGRESS_FULL && !self.claimed && !self.mapper_open)
            },
        }
    }

    /// A session that will wipe `target`, reading it back afterwards when `verify` is set.
    pub fn start(target: WipeTarget, verify: bool) -> (r: WipeSession)
        ensures
            r.wf(),
            r.spec_device() == target.path@,
            r.spec_size() == target.size_bytes,
            r.spec_is_partition() == target.is_partition,
            r.spec_is_removable() == target.is_removable,
            r.spec_verify() == verify,
            r.spec_stage() is Idle,
            r.spec_pending() is Start,
            r.reported().len() == 0,
            !r.spec_claimed(),
    {
        let id = OperationId::generate();
        let mapper = id.mapper_name();
        let size = target.size_bytes;
        WipeSession {
            id,
            target,
            verify,
            started_at: utc_now_text(),
            passphrase: None,
            mapper,
            stage: Stage::Idle,
            pending: Pending::Start,
            progress: 0,
            format_attempts: 0,
            mapper_open: false,
            claimed: false,
            overwrite: OverwritePass::new(size, OVERWRITE_BLOCK_SIZE),
            readback: ReadbackPass::new(size, OVERWRITE_BLOCK_SIZE),
            reported: Ghost(Seq::empty()),
        }
    }

    pub fn operation_id(&self) -> (r: OperationId)
        ensures
            r.value == self.spec_id(),
    {
        self.id
    }

    pub fn stage(&self) -> (r: Stage)
        ensures
            r == self.spec_stage(),
    {
        self.stage
    }

    pub fn pending(&self) -> (r: Pending)
        ensures
            r == self.spec_pending(),
    {
        self.pending
    }

    pub fn progress(&self) -> (r: u32)
        ensures
            r == self.spec_progress(),
    {
        self.progress
    }

    pub fn device(&self) -> (r: &str)
        ensures
            r@ == self.spec_device(),
    {
        self.target.path.as_str()
    }

    /// When the session started, as the clock gave it.
    pub closed spec fn spec_started_at(&self) -> Seq<char> {
        self.started_at@
    }

    /// When the session started, as the clock gave it.
    pub fn started_at(&self) -> (r: &str)
        ensures
            r@ == self.spec_started_at(),
    {
        self.started_at.as_str()
    }

    /// The mapper name under which the container is opened.
    pub fn mapper_name(&self) -> (r: &str)
        requires
            self.wf(),
        ensures
            r@ == mapper_name_of(self.spec_id() as nat),
    {
        self.mapper.as_str()
    }

    pub fn overwrite_pass(&self) -> (r: &OverwritePass)
        ensures
            *r == self.spec_overwrite(),
    {
        &self.overwrite
    }

    pub fn readback_pass(&self) -> (r: &ReadbackPass)
        ensures
            *r == self.spec_readback(),
    {
        &self.readback
    }

    /// Appends one event, never below the progress reported so far.
    fn emit(&mut self, events: &mut Vec<ProgressEvent>, progress: u32, status: String)
        requires
            old(self).history_ok(),
            old(self).progress <= progress <= PROGRESS_FULL,
        ensures
            final(self).history_ok(),
            *final(self) == (WipeSession { progress, reported: Ghost(old(self).reported@.push(progress)), ..*old(self) }),
            event_progress(final(events)@) == event_progress(old(events)@).push(progress),
            event_views(final(events)@) == event_views(old(events)@).push((progress, status@)),
    {
        let ghost before = event_progress(events@);
        let ghost views = event_views(events@);
        let ghost text = status@;
        events.push(ProgressEvent { progress, status });
        assert(event_progress(events@) =~= before.push(progress));
        assert(event_views(events@) =~= views.push((progress, text)));
        self.progress = progress;
        self.reported = Ghost(self.reported@.push(progress));
    }
}

/// The next stage and awaited outcome after `outcome` (`None` for success), given whether
/// the device was free in the registry.
pub open spec fn control_step(s: WipeSession, outcome: Option<Seq<char>>, claim_free: bool) -> (Stage, Pending) {
    let done = outcome is None;
    let failed = (Stage::Failed, Pending::Nothing);
    match s.spec_pending() {
        Pending::Start => if claim_free {
            (Stage::Preparing, Pending::Unmount)
        } else {
            failed
        },
        Pending::Unmount => if done {
            (Stage::KeyGenerated, Pending::Format)
        } else {
            failed
        },
        Pending::Format => if done {
            (Stage::ContainerCreated, Pending::Open)
        } else if s.spec_format_attempts() < max_format_attempts(s.spec_is_removable()) {
            (Stage::KeyGenerated, Pending::RetryPause)
        } else {
            failed
        },
        Pending::RetryPause => (Stage::KeyGenerated, Pending::Format),
        Pending::Open => if done {
            (Stage::ContainerOpened, Pending::Overwrite)
        } else {
            failed
        },
        Pending::Overwrite => if done && s.spec_overwrite().spec_complete() {
            (s.spec_stage(), Pending::Close)
        } else {
            failed
        },
        Pending::Close => if done {
            (Stage::Closed, Pending::DestroyHeader)
        } else {
            failed
        },
        Pending::DestroyHeader => if done {
            if s.spec_verify() {
                (Stage::Verifying, Pending::Verify)
            } else {
                (Stage::Complete, Pending::Nothing)
            }
        } else {
            failed
        },
        Pending::Verify => if done && s.spec_readback().spec_complete() && s.spec_readback().spec_finding() is None {
            (Stage::Complete, Pending::Nothing)
        } else {
            failed
        },
        Pending::Nothing => (s.spec_stage(), Pending::Nothing),
    }
}

/// The error a session fails with, from what it was waiting for and the outcome.
pub open spec fn failure_of(s: WipeSession, outcome: Option<Seq<char>>) -> WipeErrorView {
    let diagnostic = match outcome {
        Some(d) => d,
        None => Seq::empty(),
    };
    match s.spec_pending() {
        Pending::Unmount => WipeErrorView::Unmount(s.spec_device(), diagnostic),
        Pending::Start => WipeErrorView::DeviceBusy(s.spec_device()),
        Pending::Format => WipeErrorView::ContainerFormat(s.spec_device(), diagnostic),
        Pending::Open => WipeErrorView::ContainerOpen(diagnostic),
        Pending::Overwrite => WipeErrorView::OverwriteIo(
            s.spec_overwrite().spec_written(),
            if outcome is None {
                "the overwrite ended before the whole device was covered"@
            } else {
                diagnostic
            },
        ),
        Pending::Close => WipeErrorView::ContainerClose(diagnostic),
        Pending::DestroyHeader => WipeErrorView::KeyDestruction(diagnostic),
        _ => WipeErrorView::Verification(
            if outcome is None {
                readback_reason(s.spec_readback().spec_finding())
            } else {
                diagnostic
            },
        ),
    }
}

pub open spec fn verification_outcome(verify: bool) -> VerificationOutcome {
    if verify {
        VerificationOutcome::Performed
    } else {
        VerificationOutcome::Skipped
    }
}

/// The action that goes with the new state `t` of session `s` after `outcome`.
pub open spec fn action_fits(s: WipeSession, t: WipeSession, outcome: Option<Seq<char>>, a: Action) -> bool {
    match t.spec_pending() {
        Pending::Start => false,
        Pending::Unmount => a matches Action::EnsureUnmounted { device, is_partition } && device@ == s.spec_device()
            && is_partition == s.spec_is_partition(),
        Pending::Format => a matches Action::FormatContainer { device, passphrase, cipher, key_size, hash } && device@
            == s.spec_device() && t.spec_passphrase() == Some(passphrase@) && cipher@ == "aes-xts-plain64"@ && key_size
            == 512 && hash@ == "sha256"@,
        Pending::RetryPause => a is PauseBeforeRetry,
        Pending::Open => a matches Action::OpenContainer { device, mapper, passphrase } && device@ == s.spec_device()
            && mapper@ == mapper_name_of(s.spec_id() as nat) && s.spec_passphrase() == Some(passphrase@),
        Pending::Overwrite => a matches Action::Overwrite { mapped_device, size } && mapped_device@ == mapper_path_of(
            mapper_name_of(s.spec_id() as nat),
        ) && size == s.spec_size(),
        Pending::Close => a matches Action::CloseContainer { mapper } && mapper@ == mapper_name_of(s.spec_id() as nat),
        Pending::DestroyHeader => a matches Action::DestroyHeader { device, length } && device@ == s.spec_device()
            && length == HEADER_REGION_BYTES,
        Pending::Verify => a matches Action::Verify { device, size } && device@ == s.spec_device() && size
            == s.spec_size(),
        Pending::Nothing => if t.spec_stage() is Complete {
            a matches Action::Finish(c) && c@ == certificate_of(
                s.spec_device(),
                s.spec_id(),
                c.completion_time@,
                verification_outcome(s.spec_verify()),
            ) && c.completion_time@.len() <= MAX_TIME_TEXT_LEN
        } else {
            a matches Action::Abort(e) && e@ == failure_of(s, outcome)
        },
    }
}

/// `prefix` followed by `part` of `whole` as a percentage with one decimal.
fn percent_status(prefix: &str, part: u64, whole: u64) -> (r: String)
    requires
        part <= whole,
    ensures
        r@ == prefix@ + percent_text(part as nat, whole as nat),
{
    let ppm = scaled_fraction(PROGRESS_FULL, part, whole);
    let t = ppm / 1000;
    let mut r = String::from_str(prefix);
    r.append(decimal_text((t / 10) as u64).as_str());
    r.append(".");
    r.append(digit_str((t % 10) as u64));
    r.append("%");
    proof {
        reveal_strlit(".");
        reveal_strlit("%");
        assert(r@ =~= prefix@ + percent_text(part as nat, whole as nat));
    }
    r
}

impl WipeSession {
    fn format_action(&self, passphrase: String) -> (r: Action)
        ensures
            r matches Action::FormatContainer { device, passphrase: p, cipher, key_size, hash } && device@
                == self.spec_device() && p@ == passphrase@ && cipher@ == "aes-xts-plain64"@ && key_size == 512
                && hash@ == "sha256"@,
    {
        Action::FormatContainer {
            device: self.target.path.clone(),
            passphrase,
            cipher: String::from_str("aes-xts-plain64"),
            key_size: 512,
            hash: String::from_str("sha256"),
        }
    }

    /// Ends the session with `error`.
    fn fail(&mut self, events: Vec<ProgressEvent>, error: WipeError) -> (r: Step)
        requires
            old(self).wf_except_control(),
            old(self).history_ok(),
        ensures
            final(self).wf(),
            final(self).same_session(old(self)),
            final(self).reported() == old(self).reported(),
            final(self).spec_stage() is Failed,
            final(self).spec_pending() is Nothing,
            final(self).spec_claimed() == old(self).spec_claimed(),
            final(self).spec_format_attempts() == old(self).spec_format_attempts(),
            r.events@ == events@,
            r.action matches Action::Abort(e) && e@ == error@,
    {
        self.stage = Stage::Failed;
        self.pending = Pending::Nothing;
        self.passphrase = None;
        Step { events, action: Action::Abort(error) }
    }

    /// Completes the session and hands out its certificate.
    fn finish(&mut self, events: Vec<ProgressEvent>, verification: VerificationOutcome) -> (r: Step)
        requires
            old(self).history_ok(),
            old(self).wf_except_control(),
            !old(self).spec_claimed(),
            !old(self).spec_mapper_open(),
        ensures
            final(self).wf(),
            final(self).same_session(old(self)),
            final(self).reported() == old(self).reported().push(PROGRESS_FULL),
            final(self).spec_stage() is Complete,
            final(self).spec_pending() is Nothing,
            !final(self).spec_claimed(),
            final(self).spec_format_attempts() == old(self).spec_format_attempts(),
            event_progress(r.events@) == event_progress(events@).push(PROGRESS_FULL),
            event_views(r.events@) == event_views(events@).push((PROGRESS_FULL, "Operation complete!"@)),
            r.action matches Action::Finish(c) && c@ == certificate_of(
                old(self).spec_device(),
                old(self).spec_id(),
                c.completion_time@,
                verification,
            ) && c.completion_time@.len() <= MAX_TIME_TEXT_LEN,
    {
        let mut events = events;
        self.emit(&mut events, PROGRESS_FULL, String::from_str("Operation complete!"));
        self.stage = Stage::Complete;
        self.pending = Pending::Nothing;
        self.passphrase = None;
        let certificate = generate_completion_certificate(self.target.path.as_str(), &self.id, utc_now_text(), verification);
        Step { events, action: Action::Finish(certificate) }
    }
}

/// Format attempts made after one step: the first attempt follows the unmount, each retry
/// follows a pause.
pub open spec fn format_attempts_after(s: WipeSession, outcome: Option<Seq<char>>) -> nat {
    match s.spec_pending() {
        Pending::Unmount => if outcome is None {
            1
        } else {
            s.spec_format_attempts()
        },
        Pending::RetryPause => s.spec_format_attempts() + 1,
        _ => s.spec_format_attempts(),
    }
}

/// The events of one step: each stage reports its fixed weight with a status line.
pub open spec fn step_events(s: WipeSession, outcome: Option<Seq<char>>, claim_free: bool) -> Seq<(u32, Seq<char>)> {
    let done = outcome is None;
    match s.spec_pending() {
        Pending::Start => if claim_free {
            seq![(0u32, "Starting LUKS crypto wipe for "@ + s.spec_device()), (0u32, "Preparing device..."@)]
        } else {
            Seq::empty()
        },
        Pending::Unmount => if done {
            seq![
                (PROGRESS_PREPARED, "Device prepared"@),
                (PROGRESS_PREPARED, "Generating cryptographic key..."@),
                (PROGRESS_KEY_GENERATED, "Cryptographic key generated"@),
                (PROGRESS_KEY_GENERATED, "Setting up LUKS encryption..."@),
            ]
        } else {
            Seq::empty()
        },
        Pending::Format => if done {
            seq![
                (PROGRESS_CONTAINER_CREATED, "LUKS encryption setup complete"@),
                (PROGRESS_CONTAINER_CREATED, "Opening encrypted partition..."@),
            ]
        } else {
            Seq::empty()
        },
        Pending::Open => if done {
            seq![
                (PROGRESS_CONTAINER_OPENED, "Encrypted partition opened"@),
                (PROGRESS_CONTAINER_OPENED, "Starting secure data overwrite..."@),
            ]
        } else {
            Seq::empty()
        },
        Pending::Overwrite => if done && s.spec_overwrite().spec_complete() {
            seq![(PROGRESS_OVERWRITTEN, "Data overwrite complete"@), (PROGRESS_OVERWRITTEN, "Closing encrypted partition..."@)]
        } else {
            Seq::empty()
        },
        Pending::Close => if done {
            seq![(PROGRESS_CLOSED, "Encrypted partition closed"@), (PROGRESS_CLOSED, "Destroying encryption keys..."@)]
        } else {
            Seq::empty()
        },
        Pending::DestroyHeader => if done {
            if s.spec_verify() {
                seq![(PROGRESS_KEYS_DESTROYED, "Keys and headers destroyed"@), (PROGRESS_KEYS_DESTROYED, "Starting verification..."@)]
            } else {
                seq![(PROGRESS_KEYS_DESTROYED, "Keys and headers destroyed"@), (PROGRESS_FULL, "Operation complete!"@)]
            }
        } else {
            Seq::empty()
        },
        Pending::Verify => if done && s.spec_readback().spec_complete() && s.spec_readback().spec_finding() is None {
            seq![(PROGRESS_FULL, "Operation complete!"@)]
        } else {
            Seq::empty()
        },
        _ => Seq::empty(),
    }
}

/// Whether a step may change the registry: the first step claims the device, before
/// anything is unmounted; a failed unmount, a format that fails for good, a failed open or a
/// successful close gives the claim back.
pub open spec fn registry_touched(s: WipeSession, outcome: Option<Seq<char>>) -> bool {
    ||| s.spec_pending() is Start
    ||| s.spec_pending() is Unmount && outcome is Some
    ||| s.spec_pending() is Format && outcome is Some
    ||| s.spec_pending() is Open && outcome is Some
    ||| s.spec_pending() is Close && outcome is None
}

/// What one step of a session guarantees: `t` and `registry_after` follow `s` and
/// `registry_before` on `outcome` (`None` for success) with the events and action of `r`.
pub open spec fn step_ok(
    s: WipeSession,
    t: WipeSession,
    registry_before: MapperRegistry,
    registry_after: MapperRegistry,
    outcome: Option<Seq<char>>,
    r: Step,
) -> bool {
    &&& t.wf()
    &&& registry_after.wf()
    &&& t.same_session(&s)
    &&& t.reported() == s.reported() + event_progress(r.events@)
    &&& event_views(r.events@) == step_events(s, outcome, !registry_before.is_claimed(s.spec_device()))
    &&& (t.spec_stage(), t.spec_pending()) == control_step(s, outcome, !registry_before.is_claimed(s.spec_device()))
    &&& action_fits(s, t, outcome, r.action)
    &&& t.spec_format_attempts() == format_attempts_after(s, outcome)
    &&& (s.spec_passphrase() is Some && t.spec_passphrase() is Some ==> t.spec_passphrase() == s.spec_passphrase())
    &&& (s.claimed_in(registry_before) ==> t.claimed_in(registry_after))
    &&& (registry_touched(s, outcome) || registry_after == registry_before)
    &&& forall|d: Seq<char>, o: u128|
        #[trigger] registry_before.holds(d, o) && o != s.spec_id() ==> registry_after.holds(d, o)
    &&& forall|d: Seq<char>, o: u128|
        #[trigger] registry_after.holds(d, o) ==> registry_before.holds(d, o) || (d == s.spec_device() && o
            == s.spec_id())
}

impl WipeSession {
    /// Takes the outcome of the last action (ignored for the first step) and returns the
    /// progress events to deliver, in order, and the next action.
    pub fn advance(&mut self, outcome: Outcome, registry: &mut MapperRegistry) -> (r: Step)
        requires
            old(self).wf(),
            old(registry).wf(),
            !(old(self).spec_pending() is Nothing),
        ensures
            step_ok(*old(self), *final(self), *old(registry), *final(registry), outcome@, r),
    {
        match self.pending {
            Pending::Start => self.on_start(outcome, registry),
            Pending::Unmount => self.on_unmount(outcome, registry),
            Pending::Format => self.on_format(outcome, registry),
            Pending::RetryPause => self.on_retry_pause(outcome, registry),
            Pending::Open => self.on_open(outcome, registry),
            Pending::Overwrite => self.on_overwrite(outcome, registry),
            Pending::Close => self.on_close(outcome, registry),
            Pending::DestroyHeader => self.on_destroy_header(outcome, registry),
            Pending::Verify => self.on_verify(outcome, registry),
            Pending::Nothing => {
                let events: Vec<ProgressEvent> = Vec::new();
                self.fail(events, WipeError::Verification { reason: String::new() })
            },
        }
    }

    fn on_start(&mut self, outcome: Outcome, registry: &mut MapperRegistry) -> (r: Step)
        requires
            old(self).wf(),
            old(registry).wf(),
            old(self).spec_pending() is Start,
        ensures
            step_ok(*old(self), *final(self), *old(registry), *final(registry), outcome@, r),
    {
        let mut events: Vec<ProgressEvent> = Vec::new();
        assert(event_progress(events@) =~= Seq::<u32>::empty());
        assert(event_views(events@) =~= Seq::<(u32, Seq<char>)>::empty());
        let ghost (s0, o, free) = (*self, outcome@, !registry.is_claimed(self.spec_device()));
        if !registry.acquire(self.target.path.as_str(), self.id.value) {
            let device = self.target.path.clone();
            return self.fail(events, WipeError::DeviceBusy { device });
        }
        self.claimed = true;
        assert(final(registry).holds(self.spec_device(), self.spec_id()));
        let status = String::from_str("Starting LUKS crypto wipe for ").concat(self.target.path.as_str());
        self.emit(&mut events, 0, status);
        self.emit(&mut events, 0, String::from_str("Preparing device..."));
        self.stage = Stage::Preparing;
        self.pending = Pending::Unmount;
        let action = Action::EnsureUnmounted {
            device: self.target.path.clone(),
            is_partition: self.target.is_partition,
        };
        assert(self.reported() =~= old(self).reported() + event_progress(events@));
        assert(event_views(events@) =~= step_events(s0, o, free));
        Step { events, action }
    }

    fn on_unmount(&mut self, outcome: Outcome, registry: &mut MapperRegistry) -> (r: Step)
        requires
            old(self).wf(),
            old(registry).wf(),
            old(self).spec_pending() is Unmount,
        ensures
            step_ok(*old(self), *final(self), *old(registry), *final(registry), outcome@, r),
    {
        let mut events: Vec<ProgressEvent> = Vec::new();
        assert(event_progress(events@) =~= Seq::<u32>::empty());
        assert(event_views(events@) =~= Seq::<(u32, Seq<char>)>::empty());
        let ghost (s0, o, free) = (*self, outcome@, !registry.is_claimed(self.spec_device()));
        match outcome {
            Outcome::Done => {
                self.emit(&mut events, PROGRESS_PREPARED, String::from_str("Device prepared"));
                self.emit(&mut events, PROGRESS_PREPARED, String::from_str("Generating cryptographic key..."));
                let passphrase = generate_random_passphrase();
                self.emit(&mut events, PROGRESS_KEY_GENERATED, String::from_str("Cryptographic key generated"));
                self.emit(&mut events, PROGRESS_KEY_GENERATED, String::from_str("Setting up LUKS encryption..."));
                self.passphrase = Some(passphrase.clone());
                self.format_attempts = 1;
                self.stage = Stage::KeyGenerated;
                self.pending = Pending::Format;
                let action = self.format_action(passphrase);
                assert(self.reported() =~= old(self).reported() + event_progress(events@));
                assert(event_views(events@) =~= step_events(s0, o, free));
                Step { events, action }
            },
            Outcome::Failed(cause) => {
                registry.release(self.target.path.as_str(), self.id.value);
                self.claimed = false;
                let device = self.target.path.clone();
                self.fail(events, WipeError::Unmount { device, cause })
            },
        }
    }

    fn on_format(&mut self, outcome: Outcome, registry: &mut MapperRegistry) -> (r: Step)
        requires
            old(self).wf(),
            old(registry).wf(),
            old(self).spec_pending() is Format,
        ensures
            step_ok(*old(self), *final(self), *old(registry), *final(registry), outcome@, r),
    {
        let mut events: Vec<ProgressEvent> = Vec::new();
        assert(event_progress(events@) =~= Seq::<u32>::empty());
        assert(event_views(events@) =~= Seq::<(u32, Seq<char>)>::empty());
        let ghost (s0, o, free) = (*self, outcome@, !registry.is_claimed(self.spec_device()));
        match outcome {
            Outcome::Done => {
                {
                    self.emit(&mut events, PROGRESS_CONTAINER_CREATED, String::from_str("LUKS encryption setup complete"));
                    self.emit(&mut events, PROGRESS_CONTAINER_CREATED, String::from_str("Opening encrypted partition..."));
                    self.stage = Stage::ContainerCreated;
                    self.pending = Pending::Open;
                    let passphrase = match &self.passphrase {
                        Some(p) => p.clone(),
                        None => String::new(),
                    };
                    let action = Action::OpenContainer {
                        device: self.target.path.clone(),
                        mapper: self.mapper.clone(),
                        passphrase,
                    };
                    assert(self.reported() =~= old(self).reported() + event_progress(events@));
                    assert(event_views(events@) =~= step_events(s0, o, free));
                    Step { events, action }
                }
            },
            Outcome::Failed(diagnostic) => {
                if self.format_attempts < max_attempts(self.target.is_removable) {
                    self.pending = Pending::RetryPause;
                    Step { events, action: Action::PauseBeforeRetry }
                } else {
                    registry.release(self.target.path.as_str(), self.id.value);
                    self.claimed = false;
                    let device = self.target.path.clone();
                    self.fail(events, WipeError::ContainerFormat { device, diagnostic })
                }
            },
        }
    }

    fn on_retry_pause(&mut self, outcome: Outcome, registry: &mut MapperRegistry) -> (r: Step)
        requires
            old(self).wf(),
            old(registry).wf(),
            old(self).spec_pending() is RetryPause,
        ensures
            step_ok(*old(self), *final(self), *old(registry), *final(registry), outcome@, r),
    {
        let mut events: Vec<ProgressEvent> = Vec::new();
        assert(event_progress(events@) =~= Seq::<u32>::empty());
        assert(event_views(events@) =~= Seq::<(u32, Seq<char>)>::empty());
        let ghost (s0, o, free) = (*self, outcome@, !registry.is_claimed(self.spec_device()));
        self.format_attempts = self.format_attempts + 1;
        self.pending = Pending::Format;
        let passphrase = match &self.passphrase {
            Some(p) => p.clone(),
            None => String::new(),
        };
        let action = self.format_action(passphrase);
        Step { events, action }
    }

    fn on_open(&mut self, outcome: Outcome, registry: &mut MapperRegistry) -> (r: Step)
        requires
            old(self).wf(),
            old(registry).wf(),
            old(self).spec_pending() is Open,
        ensures
            step_ok(*old(self), *final(self), *old(registry), *final(registry), outcome@, r),
    {
        let mut events: Vec<ProgressEvent> = Vec::new();
        assert(event_progress(events@) =~= Seq::<u32>::empty());
        assert(event_views(events@) =~= Seq::<(u32, Seq<char>)>::empty());
        let ghost (s0, o, free) = (*self, outcome@, !registry.is_claimed(self.spec_device()));
        match outcome {
            Outcome::Done => {
                self.passphrase = None;
                self.mapper_open = true;
                self.stage = Stage::ContainerOpened;
                self.emit(&mut events, PROGRESS_CONTAINER_OPENED, String::from_str("Encrypted partition opened"));
                self.emit(&mut events, PROGRESS_CONTAINER_OPENED, String::from_str("Starting secure data overwrite..."));
                self.pending = Pending::Overwrite;
                proof {
                    self.overwrite.lemma_wf_bounds();
                }
                let action = Action::Overwrite {
                    mapped_device: mapper_path(self.mapper.as_str()),
                    size: self.target.size_bytes,
                };
                assert(self.reported() =~= old(self).reported() + event_progress(events@));
                assert(event_views(events@) =~= step_events(s0, o, free));
                Step { events, action }
            },
            Outcome::Failed(diagnostic) => {
                registry.release(self.target.path.as_str(), self.id.value);
                self.claimed = false;
                self.fail(events, WipeError::ContainerOpen { diagnostic })
            },
        }
    }

    fn on_overwrite(&mut self, outcome: Outcome, registry: &mut MapperRegistry) -> (r: Step)
        requires
            old(self).wf(),
            old(registry).wf(),
            old(self).spec_pending() is Overwrite,
        ensures
            step_ok(*old(self), *final(self), *old(registry), *final(registry), outcome@, r),
    {
        let mut events: Vec<ProgressEvent> = Vec::new();
        assert(event_progress(events@) =~= Seq::<u32>::empty());
        assert(event_views(events@) =~= Seq::<(u32, Seq<char>)>::empty());
        let ghost (s0, o, free) = (*self, outcome@, !registry.is_claimed(self.spec_device()));
        proof {
            self.overwrite.lemma_wf_bounds();
        }
        match outcome {
            Outcome::Done => {
                if self.overwrite.is_complete() {
                    proof {
                        if self.target.size_bytes > 0 {
                            lemma_fraction_whole(OVERWRITE_SPAN as nat, self.target.size_bytes as nat);
                        }
                    }
                    self.emit(&mut events, PROGRESS_OVERWRITTEN, String::from_str("Data overwrite complete"));
                    self.emit(&mut events, PROGRESS_OVERWRITTEN, String::from_str("Closing encrypted partition..."));
                    self.pending = Pending::Close;
                    let action = Action::CloseContainer { mapper: self.mapper.clone() };
                    assert(self.reported() =~= old(self).reported() + event_progress(events@));
                    assert(event_views(events@) =~= step_events(s0, o, free));
                    Step { events, action }
                } else {
                    let offset = self.overwrite.bytes_written();
                    self.fail(
                        events,
                        WipeError::OverwriteIo {
                            offset,
                            diagnostic: String::from_str("the overwrite ended before the whole device was covered"),
                        },
                    )
                }
            },
            Outcome::Failed(diagnostic) => {
                let offset = self.overwrite.bytes_written();
                self.fail(events, WipeError::OverwriteIo { offset, diagnostic })
            },
        }
    }

    fn on_close(&mut self, outcome: Outcome, registry: &mut MapperRegistry) -> (r: Step)
        requires
            old(self).wf(),
            old(registry).wf(),
            old(self).spec_pending() is Close,
        ensures
            step_ok(*old(self), *final(self), *old(registry), *final(registry), outcome@, r),
    {
        let mut events: Vec<ProgressEvent> = Vec::new();
        assert(event_progress(events@) =~= Seq::<u32>::empty());
        assert(event_views(events@) =~= Seq::<(u32, Seq<char>)>::empty());
        let ghost (s0, o, free) = (*self, outcome@, !registry.is_claimed(self.spec_device()));
        match outcome {
            Outcome::Done => {
                self.mapper_open = false;
                registry.release(self.target.path.as_str(), self.id.value);
                self.claimed = false;
                self.stage = Stage::Closed;
                self.emit(&mut events, PROGRESS_CLOSED, String::from_str("Encrypted partition closed"));
                self.emit(&mut events, PROGRESS_CLOSED, String::from_str("Destroying encryption keys..."));
                self.pending = Pending::DestroyHeader;
                let action = Action::DestroyHeader {
                    device: self.target.path.clone(),
                    length: HEADER_REGION_BYTES,
                };
                assert(self.reported() =~= old(self).reported() + event_progress(events@));
                assert(event_views(events@) =~= step_events(s0, o, free));
                Step { events, action }
            },
            Outcome::Failed(diagnostic) => self.fail(events, WipeError::ContainerClose { diagnostic }),
        }
    }

    fn on_destroy_header(&mut self, outcome: Outcome, registry: &mut MapperRegistry) -> (r: Step)
        requires
            old(self).wf(),
            old(registry).wf(),
            old(self).spec_pending() is DestroyHeader,
        ensures
            step_ok(*old(self), *final(self), *old(registry), *final(registry), outcome@, r),
    {
        let mut events: Vec<ProgressEvent> = Vec::new();
        assert(event_progress(events@) =~= Seq::<u32>::empty());
        assert(event_views(events@) =~= Seq::<(u32, Seq<char>)>::empty());
        let ghost (s0, o, free) = (*self, outcome@, !registry.is_claimed(self.spec_device()));
        match outcome {
            Outcome::Done => {
                self.stage = Stage::KeysDestroyed;
                self.emit(&mut events, PROGRESS_KEYS_DESTROYED, String::from_str("Keys and headers destroyed"));
                if self.verify {
                    self.emit(&mut events, PROGRESS_KEYS_DESTROYED, String::from_str("Starting verification..."));
                    self.stage = Stage::Verifying;
                    self.pending = Pending::Verify;
                    proof {
                        self.readback.lemma_wf_bounds();
                    }
                    let action = Action::Verify { device: self.target.path.clone(), size: self.target.size_bytes };
                    assert(self.reported() =~= old(self).reported() + event_progress(events@));
                    assert(event_views(events@) =~= step_events(s0, o, free));
                    Step { events, action }
                } else {
                    let r = self.finish(events, VerificationOutcome::Skipped);
                    assert(self.reported() =~= old(self).reported() + event_progress(r.events@));
                    assert(event_views(r.events@) =~= step_events(s0, o, free));
                    r
                }
            },
            Outcome::Failed(diagnostic) => self.fail(events, WipeError::KeyDestruction { diagnostic }),
        }
    }

    fn on_verify(&mut self, outcome: Outcome, registry: &mut MapperRegistry) -> (r: Step)
        requires
            old(self).wf(),
            old(registry).wf(),
            old(self).spec_pending() is Verify,
        ensures
            step_ok(*old(self), *final(self), *old(registry), *final(registry), outcome@, r),
    {
        let mut events: Vec<ProgressEvent> = Vec::new();
        assert(event_progress(events@) =~= Seq::<u32>::empty());
        assert(event_views(events@) =~= Seq::<(u32, Seq<char>)>::empty());
        let ghost (s0, o, free) = (*self, outcome@, !registry.is_claimed(self.spec_device()));
        proof {
            self.readback.lemma_wf_bounds();
        }
        match outcome {
            Outcome::Done => {
                let finding = self.readback.finding();
                if self.readback.is_complete() && finding.is_none() {
                    let r = self.finish(events, VerificationOutcome::Performed);
                    assert(self.reported() =~= old(self).reported() + event_progress(r.events@));
                    assert(event_views(r.events@) =~= step_events(s0, o, free));
                    r
                } else {
                    let reason = readback_reason_text(finding);
                    self.fail(events, WipeError::Verification { reason })
                }
            },
            Outcome::Failed(reason) => self.fail(events, WipeError::Verification { reason }),
        }
    }
}

/// The format attempts allowed for a device.
pub fn max_attempts(removable: bool) -> (r: u32)
    ensures
        r == max_format_attempts(removable),
{
    if removable {
        REMOVABLE_FORMAT_ATTEMPTS
    } else {
        1
    }
}

fn readback_reason_text(finding: Option<ReadbackFinding>) -> (r: String)
    ensures
        r@ == readback_reason(finding),
{
    match finding {
        Some(ReadbackFinding::HeaderRemains) => String::from_str("the container header signature is still present"),
        Some(ReadbackFinding::ZeroBlock(_)) => String::from_str("a block of the device reads back as all zeros"),
        None => String::from_str("the device could not be read back in full"),
    }
}

impl WipeSession {
    /// Records a new progress value without an event list.
    fn note_progress(&mut self, progress: u32)
        requires
            old(self).history_ok(),
            old(self).progress <= progress <= PROGRESS_FULL,
        ensures
            final(self).history_ok(),
            *final(self) == (WipeSession { progress, reported: Ghost(old(self).reported@.push(progress)), ..*old(self) }),
    {
        self.progress = progress;
        self.reported = Ghost(self.reported@.push(progress));
    }

    /// Fills `buf` with fresh unpredictable bytes and returns how many of them form the next
    /// block of the overwrite pass.
    pub fn next_overwrite_block(&self, buf: &mut Vec<u8>) -> (r: usize)
        requires
            self.wf(),
            self.spec_pending() is Overwrite,
            !self.spec_overwrite().spec_complete(),
            old(buf)@.len() >= OVERWRITE_BLOCK_SIZE,
        ensures
            r == self.spec_overwrite().spec_next_len(),
            final(buf)@.len() == old(buf)@.len(),
            r <= final(buf)@.len(),
    {
        self.overwrite.next_block(buf)
    }

    /// Records that the next block of the overwrite pass was written in full, and returns the
    /// progress event to deliver.
    pub fn overwrite_block_written(&mut self) -> (r: ProgressEvent)
        requires
            old(self).wf(),
            old(self).spec_pending() is Overwrite,
            !old(self).spec_overwrite().spec_complete(),
        ensures
            final(self).wf(),
            final(self).same_session(old(self)),
            final(self).spec_stage() is Overwriting,
            final(self).spec_pending() is Overwrite,
            final(self).spec_claimed() == old(self).spec_claimed(),
            final(self).spec_mapper_open() == old(self).spec_mapper_open(),
            final(self).spec_overwrite().spec_written() == old(self).spec_overwrite().spec_written()
                + old(self).spec_overwrite().spec_next_len(),
            final(self).spec_overwrite().spec_writes() == old(self).spec_overwrite().spec_writes() + 1,
            final(self).spec_overwrite().spec_blocks() == old(self).spec_overwrite().spec_blocks().push(
                old(self).spec_overwrite().spec_next_len() as u64,
            ),
            final(self).spec_overwrite().spec_device_size() == old(self).spec_overwrite().spec_device_size(),
            final(self).spec_overwrite().spec_block_size() == old(self).spec_overwrite().spec_block_size(),
            r.progress == overwrite_progress(final(self).spec_overwrite().spec_written(), final(self).spec_size()),
            r.status@ == "Overwriting with encrypted random data: "@ + percent_text(
                final(self).spec_overwrite().spec_written(),
                final(self).spec_size(),
            ),
            final(self).reported() == old(self).reported().push(r.progress),
    {
        let ghost before = self.overwrite.spec_written();
        self.overwrite.record_block();
        proof {
            self.overwrite.lemma_wf_bounds();
        }
        let written = self.overwrite.bytes_written();
        let size = self.target.size_bytes;
        let progress = PROGRESS_CONTAINER_OPENED + scaled_fraction(OVERWRITE_SPAN, written, size);
        proof {
            lemma_fraction_monotone(OVERWRITE_SPAN as nat, before, written as nat, size as nat);
        }
        self.note_progress(progress);
        self.stage = Stage::Overwriting;
        let status = percent_status("Overwriting with encrypted random data: ", written, size);
        ProgressEvent { progress, status }
    }

    /// The length of the next block of the read-back.
    pub fn next_readback_len(&self) -> (r: usize)
        requires
            self.wf(),
            self.spec_pending() is Verify,
            !self.spec_readback().spec_complete(),
        ensures
            r == self.spec_readback().spec_next_len(),
            0 < r <= OVERWRITE_BLOCK_SIZE,
    {
        self.readback.next_len()
    }

    /// Inspects the next block of the read-back, read in full into the first `len` bytes of
    /// `block`, and returns the progress event to deliver.
    pub fn readback_block(&mut self, block: &Vec<u8>, len: usize) -> (r: ProgressEvent)
        requires
            old(self).wf(),
            old(self).spec_pending() is Verify,
            !old(self).spec_readback().spec_complete(),
            len == old(self).spec_readback().spec_next_len(),
            len <= block@.len(),
        ensures
            final(self).wf(),
            final(self).same_session(old(self)),
            final(self).spec_stage() is Verifying,
            final(self).spec_pending() is Verify,
            final(self).spec_claimed() == old(self).spec_claimed(),
            final(self).spec_readback().spec_read() == old(self).spec_readback().spec_read() + len,
            final(self).spec_readback().spec_finding() == (match old(self).spec_readback().spec_finding() {
                Some(f) => Some(f),
                None => crate::readback::finding_of(
                    old(self).spec_readback().spec_read(),
                    block@.subrange(0, len as int),
                ),
            }),
            r.progress == readback_progress(final(self).spec_readback().spec_read(), final(self).spec_size()),
            r.status@ == "Verifying wipe: "@ + percent_text(final(self).spec_readback().spec_read(), final(self).spec_size()),
            final(self).reported() == old(self).reported().push(r.progress),
    {
        let ghost before = self.readback.spec_read();
        self.readback.inspect(block, len);
        proof {
            self.readback.lemma_wf_bounds();
        }
        let read = self.readback.bytes_read();
        let size = self.target.size_bytes;
        let progress = PROGRESS_KEYS_DESTROYED + scaled_fraction(READBACK_SPAN, read, size);
        proof {
            lemma_fraction_monotone(READBACK_SPAN as nat, before, read as nat, size as nat);
        }
        self.note_progress(progress);
        let status = percent_status("Verifying wipe: ", read, size);
        ProgressEvent { progress, status }
    }
}

/// The progress a session reports never goes down, and a completed session's last report
/// is the whole operation.
pub proof fn lemma_progress_history(s: WipeSession)
    requires
        s.wf(),
    ensures
        non_decreasing(s.reported()),
        forall|i: int| 0 <= i < s.reported().len() ==> #[trigger] s.reported()[i] <= PROGRESS_FULL,
        s.spec_stage() is Complete ==> s.reported().len() > 0 && s.reported().last() == PROGRESS_FULL,
{
}

/// Two sessions on the same device never both have their mapper open: a session opens its
/// container only after claiming the device, and the registry holds one claim per device.
pub proof fn lemma_exclusive_mapper(registry: MapperRegistry, a: WipeSession, b: WipeSession)
    requires
        registry.wf(),
        a.wf(),
        b.wf(),
        a.claimed_in(registry),
        b.claimed_in(registry),
        a.spec_device() == b.spec_device(),
        a.spec_id() != b.spec_id(),
    ensures
        !(a.spec_mapper_open() && b.spec_mapper_open()),
        !(a.spec_stage() is ContainerOpened && b.spec_stage() is ContainerOpened),
{
    if a.spec_claimed() && b.spec_claimed() {
        crate::registry::lemma_single_holder(registry, a.spec_device(), a.spec_id(), b.spec_id());
    }
}

/// The certificate of a session depends on its device, identifier and verification option,
/// never on its passphrase.
pub proof fn lemma_certificate_ignores_passphrase(a: WipeSession, b: WipeSession, time: Seq<char>)
    requires
        a.same_session(&b),
    ensures
        certificate_of(a.spec_device(), a.spec_id(), time, verification_outcome(a.spec_verify()))
            == certificate_of(b.spec_device(), b.spec_id(), time, verification_outcome(b.spec_verify())),
{
}

/// The passphrase lives from key generation until the container is opened: a session
/// waiting on a format, a retry pause or the open holds one; before key generation and from
/// the open on it holds none.
pub proof fn lemma_passphrase_lifetime(s: WipeSession)
    requires
        s.wf(),
    ensures
        s.spec_pending() is Format || s.spec_pending() is RetryPause || s.spec_pending() is Open ==> (
        s.spec_passphrase() matches Some(p) && is_passphrase(p)),
        s.spec_pending() is Start || s.spec_pending() is Unmount || s.spec_pending() is Overwrite
            || s.spec_pending() is Close || s.spec_pending() is DestroyHeader || s.spec_pending() is Verify
            || s.spec_pending() is Nothing ==> s.spec_passphrase() is None,
        s.spec_pending() is Format || s.spec_pending() is RetryPause ==> 1 <= s.spec_format_attempts()
            <= max_format_attempts(s.spec_is_removable()),
{
}

/// A retried format, and the open after it, use the passphrase generated for the first
/// format attempt.
pub proof fn lemma_retry_keeps_passphrase(
    s: WipeSession,
    t: WipeSession,
    registry_before: MapperRegistry,
    registry_after: MapperRegistry,
    outcome: Option<Seq<char>>,
    r: Step,
)
    requires
        s.wf(),
        step_ok(s, t, registry_before, registry_after, outcome, r),
        s.spec_pending() is Format || s.spec_pending() is RetryPause,
        t.spec_pending() is Format || t.spec_pending() is RetryPause || t.spec_pending() is Open,
    ensures
        s.spec_passphrase() is Some,
        t.spec_passphrase() == s.spec_passphrase(),
{
    lemma_passphrase_lifetime(s);
    lemma_passphrase_lifetime(t);
}

/// A failed format is retried after a pause while fewer than the device's allowed attempts
/// were made, at most three and only for removable media; after the last allowed attempt the
/// session fails with the format error and the last diagnostic, and never opens.
pub proof fn lemma_format_budget(
    s: WipeSession,
    t: WipeSession,
    registry_before: MapperRegistry,
    registry_after: MapperRegistry,
    diagnostic: Seq<char>,
    r: Step,
)
    requires
        s.wf(),
        s.spec_pending() is Format,
        step_ok(s, t, registry_before, registry_after, Some(diagnostic), r),
    ensures
        s.spec_format_attempts() < max_format_attempts(s.spec_is_removable()) ==> t.spec_pending() is RetryPause
            && r.action is PauseBeforeRetry,
        s.spec_format_attempts() >= max_format_attempts(s.spec_is_removable()) ==> t.spec_stage() is Failed
            && (r.action matches Action::Abort(e) && e@ == WipeErrorView::ContainerFormat(
            s.spec_device(),
            diagnostic,
        )),
        max_format_attempts(s.spec_is_removable()) <= REMOVABLE_FORMAT_ATTEMPTS,
        !s.spec_is_removable() ==> max_format_attempts(s.spec_is_removable()) == 1,
        !(r.action is OpenContainer),
{
}

/// The certificate a session finishes with never holds a passphrase that its device path
/// does not hold.
pub proof fn lemma_finished_certificate_omits_passphrase(
    s: WipeSession,
    t: WipeSession,
    outcome: Option<Seq<char>>,
    c: WipeCertificate,
    p: Seq<char>,
)
    requires
        action_fits(s, t, outcome, Action::Finish(c)),
        is_passphrase(p),
        !crate::certificate::contains_text(s.spec_device(), p),
    ensures
        !crate::certificate::contains_text(crate::certificate::certificate_text(c@), p),
{
    crate::certificate::lemma_text_omits_passphrase(
        s.spec_device(),
        s.spec_id(),
        c.completion_time@,
        verification_outcome(s.spec_verify()),
        p,
    );
}

} // verus!
