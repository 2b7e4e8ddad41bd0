//! The overwrite pass: sequential blocks of unpredictable bytes that cover the
//! mapped device exactly once, the last block truncated to what remains.

use rand::RngCore;
use vstd::prelude::*;

verus! {

/// Size of one overwrite block: 1 MiB.
pub const OVERWRITE_BLOCK_SIZE: usize = 1048576;

/// Parts per million that stand for a whole operation.
pub const PROGRESS_FULL: u32 = 1000000;

/// `n / d` rounded up.
pub open spec fn ceil_div(n: nat, d: nat) -> nat
    recommends
        d > 0,
{
    ((n + d - 1) / d as int) as nat
}

/// The sum of a sequence of block lengths.
pub open spec fn total(s: Seq<u64>) -> nat
    decreases s.len(),
{
    if s.len() == 0 {
        0
    } else {
        total(s.drop_last()) + s.last() as nat
    }
}

/// `part` out of `whole`, in parts per million, rounded down; an empty whole counts as done.
pub open spec fn fraction_ppm(part: nat, whole: nat) -> nat {
    if whole == 0 {
        PROGRESS_FULL as nat
    } else {
        (PROGRESS_FULL as nat * part) / whole
    }
}

/// Relies on rand's RngCore::fill_bytes on the thread-local generator, which fills the
/// whole slice from a cryptographically secure source and keeps its length.
#[verifier::external_body]
fn fill_random(buf: &mut Vec<u8>)
    ensures
        final(buf)@.len() == old(buf)@.len(),
{
    rand::thread_rng().fill_bytes(buf.as_mut_slice());
}

/// The state of one overwrite pass over a device of `device_size` bytes.
pub struct OverwritePass {
    device_size: u64,
    block_size: u64,
    written: u64,
    writes: u64,
    blocks: Ghost<Seq<u64>>,
}

impl OverwritePass {
    pub closed spec fn spec_device_size(&self) -> nat {
        self.device_size as nat
    }

    pub closed spec fn spec_block_size(&self) -> nat {
        self.block_size as nat
    }

    pub closed spec fn spec_written(&self) -> nat {
        self.written as nat
    }

    pub closed spec fn spec_writes(&self) -> nat {
        self.writes as nat
    }

    /// The lengths of the blocks written so far, in order.
    pub closed spec fn spec_blocks(&self) -> Seq<u64> {
        self.blocks@
    }

    pub open spec fn spec_complete(&self) -> bool {
        self.spec_written() == self.spec_device_size()
    }

    /// The length of the next block: a full block, or what remains of the device.
    pub open spec fn spec_next_len(&self) -> nat {
        if self.spec_device_size() - self.spec_written() < self.spec_block_size() {
            (self.spec_device_size() - self.spec_written()) as nat
        } else {
            self.spec_block_size()
        }
    }

    /// The well-formedness of a pass: what was written is the sum of the blocks, every block
    /// but the last is full, and nothing beyond the device was covered.
    pub closed spec fn wf(&self) -> bool {
        &&& 0 < self.block_size
        &&& self.block_size <= usize::MAX
        &&& self.written <= self.device_size
        &&& self.blocks@.len() == self.writes
        &&& total(self.blocks@) == self.written
        &&& forall|i: int| 0 <= i < self.blocks@.len() ==> 0 < #[trigger] self.blocks@[i] <= self.block_size
        &&& (self.written < self.device_size ==> self.written == self.writes * self.block_size)
        &&& (self.writes > 0 ==> (self.writes - 1) * self.block_size < self.device_size)
        &&& (self.written < self.device_size ==> forall|i: int|
            0 <= i < self.blocks@.len() ==> #[trigger] self.blocks@[i] == self.block_size)
        &&& forall|i: int| 0 <= i < self.blocks@.len() - 1 ==> #[trigger] self.blocks@[i] == self.block_size
    }

    /// What a well-formed pass promises its users: a positive block size that fits in
    /// memory, and no byte written beyond the device.
    pub proof fn lemma_wf_bounds(&self)
        requires
            self.wf(),
        ensures
            0 < self.spec_block_size() <= usize::MAX,
            self.spec_written() <= self.spec_device_size(),
    {
    }

    /// A pass over `device_size` bytes in blocks of `block_size` bytes, nothing written yet.
    pub fn new(device_size: u64, block_size: usize) -> (r: OverwritePass)
        requires
            block_size > 0,
        ensures
            r.wf(),
            r.spec_device_size() == device_size,
            r.spec_block_size() == block_size,
            r.spec_written() == 0,
            r.spec_writes() == 0,
            r.spec_blocks() == Seq::<u64>::empty(),
    {
        OverwritePass {
            device_size,
            block_size: block_size as u64,
            written: 0,
            writes: 0,
            blocks: Ghost(Seq::empty()),
        }
    }

    pub fn device_size(&self) -> (r: u64)
        ensures
            r == self.spec_device_size(),
    {
        self.device_size
    }

    pub fn bytes_written(&self) -> (r: u64)
        ensures
            r == self.spec_written(),
    {
        self.written
    }

    pub fn writes(&self) -> (r: u64)
        ensures
            r == self.spec_writes(),
    {
        self.writes
    }

    pub fn is_complete(&self) -> (r: bool)
        ensures
            r == self.spec_complete(),
    {
        self.written == self.device_size
    }

    /// The length of the next block to write.
    pub fn next_len(&self) -> (r: usize)
        requires
            self.wf(),
            !self.spec_complete(),
        ensures
            r == self.spec_next_len(),
            0 < r <= self.spec_block_size(),
            r <= self.spec_device_size() - self.spec_written(),
    {
        let remaining = self.device_size - self.written;
        if remaining < self.block_size {
            remaining as usize
        } else {
            self.block_size as usize
        }
    }

    /// Fills `buf` with fresh unpredictable bytes and returns how many of them form the next block.
    pub fn next_block(&self, buf: &mut Vec<u8>) -> (r: usize)
        requires
            self.wf(),
            !self.spec_complete(),
            old(buf)@.len() >= self.spec_block_size(),
        ensures
            r == self.spec_next_len(),
            final(buf)@.len() == old(buf)@.len(),
            r <= final(buf)@.len(),
    {
        fill_random(buf);
        self.next_len()
    }

    /// Records that the next block was written in full.
    pub fn record_block(&mut self)
        requires
            old(self).wf(),
            !old(self).spec_complete(),
        ensures
            final(self).wf(),
            final(self).spec_device_size() == old(self).spec_device_size(),
            final(self).spec_block_size() == old(self).spec_block_size(),
            final(self).spec_writes() == old(self).spec_writes() + 1,
            final(self).spec_written() == old(self).spec_written() + old(self).spec_next_len(),
            final(self).spec_blocks() == old(self).spec_blocks().push(old(self).spec_next_len() as u64),
    {
        let n = self.next_len() as u64;
        let ghost old_blocks = self.blocks@;
        proof {
            assert(self.writes * self.block_size < self.device_size);
            assert(self.writes <= self.writes * self.block_size) by (nonlinear_arith)
                requires
                    self.block_size >= 1,
            ;
            assert((self.writes + 1) * self.block_size == self.writes * self.block_size + self.block_size)
                by (nonlinear_arith);
        }
        self.written = self.written + n;
        self.writes = self.writes + 1;
        self.blocks = Ghost(old_blocks.push(n));
        proof {
            assert(self.blocks@.drop_last() =~= old_blocks);
            assert forall|i: int| 0 <= i < self.blocks@.len() - 1 implies #[trigger] self.blocks@[i] == self.block_size by {
                assert(self.blocks@[i] == old_blocks[i]);
            }
            if self.written < self.device_size {
                assert forall|i: int| 0 <= i < self.blocks@.len() implies #[trigger] self.blocks@[i] == self.block_size by {
                    if i < old_blocks.len() {
                        assert(self.blocks@[i] == old_blocks[i]);
                    }
                }
            }
        }
    }

    /// How much of the pass is done, in parts per million.
    pub fn fraction(&self) -> (r: u32)
        requires
            self.wf(),
        ensures
            r == fraction_ppm(self.spec_written(), self.spec_device_size()),
            r <= PROGRESS_FULL,
    {
        scaled_fraction(PROGRESS_FULL, self.written, self.device_size)
    }
}

/// `scale * part / whole`, rounded down; `scale` when `whole` is zero.
pub fn scaled_fraction(scale: u32, part: u64, whole: u64) -> (r: u32)
    requires
        part <= whole,
    ensures
        whole == 0 ==> r == scale,
        whole > 0 ==> r == (scale as int * part as int) / whole as int,
        r <= scale,
{
    if whole == 0 {
        scale
    } else {
        proof {
            assert(scale as int * part as int <= 0xffff_ffff * 0xffff_ffff_ffff_ffff) by (nonlinear_arith)
                requires
                    scale <= 0xffff_ffff,
                    part <= 0xffff_ffff_ffff_ffff,
            ;
        }
        let num: u128 = scale as u128 * part as u128;
        proof {
            assert(scale as int * part as int <= scale as int * whole as int) by (nonlinear_arith)
                requires
                    part <= whole,
            ;
            assert((scale as int * part as int) / whole as int <= scale) by (nonlinear_arith)
                requires
                    scale as int * part as int <= scale as int * whole as int,
                    whole > 0,
            ;
        }
        (num / whole as u128) as u32
    }
}

/// A rounded-down fraction grows with its part.
pub proof fn lemma_fraction_monotone(scale: nat, a: nat, b: nat, whole: nat)
    requires
        a <= b,
        whole > 0,
    ensures
        (scale * a) / whole <= (scale * b) / whole,
{
    assert(scale * a <= scale * b) by (nonlinear_arith)
        requires
            a <= b,
    ;
    vstd::arithmetic::div_mod::lemma_div_is_ordered((scale * a) as int, (scale * b) as int, whole as int);
}

/// A whole of itself is the full scale.
pub proof fn lemma_fraction_whole(scale: nat, whole: nat)
    requires
        whole > 0,
    ensures
        (scale * whole) / whole == scale,
{
    vstd::arithmetic::div_mod::lemma_div_multiples_vanish(scale as int, whole as int);
    assert(whole * scale == scale * whole) by (nonlinear_arith);
}

/// A complete pass made exactly `ceil(D / B)` writes whose lengths add up to exactly `D`:
/// every block but the last is `B` long, and the last holds exactly what remained.
pub proof fn lemma_complete_pass(p: OverwritePass)
    requires
        p.wf(),
        p.spec_complete(),
    ensures
        p.spec_writes() == ceil_div(p.spec_device_size(), p.spec_block_size()),
        p.spec_blocks().len() == p.spec_writes(),
        total(p.spec_blocks()) == p.spec_device_size(),
        forall|i: int| 0 <= i < p.spec_blocks().len() ==> #[trigger] p.spec_blocks()[i] <= p.spec_block_size(),
        forall|i: int| 0 <= i < p.spec_blocks().len() - 1 ==> #[trigger] p.spec_blocks()[i] == p.spec_block_size(),
        p.spec_writes() > 0 ==> 0 < p.spec_blocks().last() && p.spec_blocks().last() == p.spec_device_size() - (
        p.spec_writes() - 1) * p.spec_block_size(),
{
    let s = p.spec_blocks();
    if s.len() > 0 {
        let t = s.drop_last();
        assert forall|i: int| 0 <= i < t.len() implies #[trigger] t[i] == p.spec_block_size() by {
            assert(t[i] == s[i]);
        }
        lemma_total_uniform(t, p.spec_block_size());
    }
    let d = p.spec_device_size() as int;
    let b = p.spec_block_size() as int;
    let k = p.spec_writes() as int;
    if d == 0 {
        assert(k == 0) by {
            if k > 0 {
                assert((k - 1) * b >= 0) by (nonlinear_arith)
                    requires
                        k >= 1,
                        b > 0,
                ;
            }
        }
        assert((0 + b - 1) / b == 0) by (nonlinear_arith)
            requires
                b > 0,
        ;
    } else {
        assert(k > 0) by {
            if k == 0 {
                assert(total(p.spec_blocks()) == 0);
            }
        }
        assert(k * b >= d) by {
            let s = p.spec_blocks();
            lemma_total_bounded(s, p.spec_block_size());
            assert(total(s) <= s.len() * b);
        }
        assert((d + b - 1) / b == k) by (nonlinear_arith)
            requires
                k * b >= d,
                (k - 1) * b < d,
                b > 0,
        ;
    }
}

/// Blocks that are all `b` long add up to `len * b`.
pub proof fn lemma_total_uniform(s: Seq<u64>, b: nat)
    requires
        forall|i: int| 0 <= i < s.len() ==> #[trigger] s[i] == b,
    ensures
        total(s) == s.len() * b,
    decreases s.len(),
{
    if s.len() > 0 {
        let t = s.drop_last();
        assert forall|i: int| 0 <= i < t.len() implies #[trigger] t[i] == b by {
            assert(t[i] == s[i]);
        }
        lemma_total_uniform(t, b);
        assert(t.len() * b + b == s.len() * b) by (nonlinear_arith)
            requires
                t.len() + 1 == s.len(),
        ;
    }
}

/// A sequence of blocks no longer than `b` adds up to at most `len * b`.
pub proof fn lemma_total_bounded(s: Seq<u64>, b: nat)
    requires
        forall|i: int| 0 <= i < s.len() ==> #[trigger] s[i] <= b,
    ensures
        total(s) <= s.len() * b,
    decreases s.len(),
{
    if s.len() > 0 {
        let t = s.drop_last();
        assert forall|i: int| 0 <= i < t.len() implies #[trigger] t[i] <= b by {
            assert(t[i] == s[i]);
        }
        lemma_total_bounded(t, b);
        assert(s.last() <= b);
        assert(t.len() * b + b == s.len() * b) by (nonlinear_arith)
            requires
                t.len() + 1 == s.len(),
        ;
    }
}

} // verus!
