//! The optional read-back verification of the raw device.
//!
//! Policy: the overwrite fills the device with unpredictable bytes and the header
//! region is overwritten with unpredictable bytes too, so the raw device must show no
//! structure. A read-back fails when the container's header signature is still found at
//! the start of the device, when a block reads back as all zeros (a region that the pass
//! did not reach), or when the device cannot be read in full.

use vstd::prelude::*;

verus! {

/// The signature that opens a LUKS header.
pub open spec fn header_magic() -> Seq<u8> {
    seq![0x4cu8, 0x55u8, 0x4bu8, 0x53u8, 0xbau8, 0xbeu8]
}

pub open spec fn starts_with_header(b: Seq<u8>) -> bool {
    b.len() >= 6 && b.subrange(0, 6) == header_magic()
}

pub open spec fn all_zero(b: Seq<u8>) -> bool {
    forall|i: int| 0 <= i < b.len() ==> b[i] == 0
}

/// What a read-back found.
#[derive(Clone, Copy, Debug, PartialEq, Eq, Structural)]
pub enum ReadbackFinding {
    /// The container header signature is still at the start of the device.
    HeaderRemains,
    /// The block at this offset reads back as all zeros.
    ZeroBlock(u64),
}

/// The finding for one block read at `offset`, if it shows structure.
pub open spec fn finding_of(offset: nat, b: Seq<u8>) -> Option<ReadbackFinding> {
    if offset == 0 && starts_with_header(b) {
        Some(ReadbackFinding::HeaderRemains)
    } else if b.len() > 0 && all_zero(b) {
        Some(ReadbackFinding::ZeroBlock(offset as u64))
    } else {
        None
    }
}

pub struct ReadbackPass {
    device_size: u64,
    block_size: u64,
    read: u64,
    finding: Option<ReadbackFinding>,
}

impl ReadbackPass {
    pub closed spec fn spec_device_size(&self) -> nat {
        self.device_size as nat
    }

    pub closed spec fn spec_block_size(&self) -> nat {
        self.block_size as nat
    }

    pub closed spec fn spec_read(&self) -> nat {
        self.read as nat
    }

    /// The first finding so far.
    pub closed spec fn spec_finding(&self) -> Option<ReadbackFinding> {
        self.finding
    }

    pub open spec fn spec_complete(&self) -> bool {
        self.spec_read() == self.spec_device_size()
    }

    pub open spec fn spec_next_len(&self) -> nat {
        if self.spec_device_size() - self.spec_read() < self.spec_block_size() {
            (self.spec_device_size() - self.spec_read()) as nat
        } else {
            self.spec_block_size()
        }
    }

    pub closed spec fn wf(&self) -> bool {
        &&& 0 < self.block_size <= usize::MAX
        &&& self.read <= self.device_size
    }

    pub proof fn lemma_wf_bounds(&self)
        requires
            self.wf(),
        ensures
            0 < self.spec_block_size() <= usize::MAX,
            self.spec_read() <= self.spec_device_size(),
    {
    }

    /// A read-back of `device_size` bytes in blocks of `block_size` bytes.
    pub fn new(device_size: u64, block_size: usize) -> (r: ReadbackPass)
        requires
            block_size > 0,
        ensures
            r.wf(),
            r.spec_device_size() == device_size,
            r.spec_block_size() == block_size,
            r.spec_read() == 0,
            r.spec_finding() is None,
    {
        ReadbackPass { device_size, block_size: block_size as u64, read: 0, finding: None }
    }

    pub fn bytes_read(&self) -> (r: u64)
        ensures
            r == self.spec_read(),
    {
        self.read
    }

    pub fn device_size(&self) -> (r: u64)
        ensures
            r == self.spec_device_size(),
    {
        self.device_size
    }

    pub fn is_complete(&self) -> (r: bool)
        ensures
            r == self.spec_complete(),
    {
        self.read == self.device_size
    }

    pub fn finding(&self) -> (r: Option<ReadbackFinding>)
        ensures
            r == self.spec_finding(),
    {
        self.finding
    }

    /// The length of the next block to read.
    pub fn next_len(&self) -> (r: usize)
        requires
            self.wf(),
            !self.spec_complete(),
        ensures
            r == self.spec_next_len(),
            0 < r <= self.spec_block_size(),
    {
        let remaining = self.device_size - self.read;
        if remaining < self.block_size {
            remaining as usize
        } else {
            self.block_size as usize
        }
    }

    /// Inspects the next block, read in full into the first `len` bytes of `block`.
    pub fn inspect(&mut self, block: &Vec<u8>, len: usize)
        requires
            old(self).wf(),
            !old(self).spec_complete(),
            len == old(self).spec_next_len(),
            len <= block@.len(),
        ensures
            final(self).wf(),
            final(self).spec_device_size() == old(self).spec_device_size(),
            final(self).spec_block_size() == old(self).spec_block_size(),
            final(self).spec_read() == old(self).spec_read() + len,
            final(self).spec_finding() == (match old(self).spec_finding() {
                Some(f) => Some(f),
                None => finding_of(old(self).spec_read(), block@.subrange(0, len as int)),
            }),
    {
        let ghost b = block@.subrange(0, len as int);
        if self.finding.is_none() {
            if self.read == 0 && has_header_magic(block, len) {
                self.finding = Some(ReadbackFinding::HeaderRemains);
            } else if len > 0 && is_all_zero(block, len) {
                self.finding = Some(ReadbackFinding::ZeroBlock(self.read));
            }
        }
        self.read = self.read + len as u64;
    }
}

fn has_header_magic(block: &Vec<u8>, len: usize) -> (r: bool)
    requires
        len <= block@.len(),
    ensures
        r == starts_with_header(block@.subrange(0, len as int)),
{
    let ghost b = block@.subrange(0, len as int);
    if len < 6 {
        return false;
    }
    let r = block[0] == 0x4c && block[1] == 0x55 && block[2] == 0x4b && block[3] == 0x53 && block[4] == 0xba
        && block[5] == 0xbe;
    assert(r ==> b.subrange(0, 6) =~= header_magic());
    assert(b.subrange(0, 6) == header_magic() ==> r) by {
        if b.subrange(0, 6) == header_magic() {
            assert(b.subrange(0, 6)[0] == block@[0]);
            assert(b.subrange(0, 6)[1] == block@[1]);
            assert(b.subrange(0, 6)[2] == block@[2]);
            assert(b.subrange(0, 6)[3] == block@[3]);
            assert(b.subrange(0, 6)[4] == block@[4]);
            assert(b.subrange(0, 6)[5] == block@[5]);
        }
    }
    r
}

fn is_all_zero(block: &Vec<u8>, len: usize) -> (r: bool)
    requires
        len <= block@.len(),
    ensures
        r == all_zero(block@.subrange(0, len as int)),
{
    let mut i: usize = 0;
    while i < len
        invariant
            len <= block@.len(),
            i <= len,
            forall|j: int| 0 <= j < i ==> block@[j] == 0,
        decreases len - i,
    {
        if block[i] != 0 {
            assert(block@.subrange(0, len as int)[i as int] != 0);
            return false;
        }
        i = i + 1;
    }
    true
}

} // verus!
