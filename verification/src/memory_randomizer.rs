use crate::hashing::{sha256, sha256_digest};
use crate::native::{spelled_by, u128_to_native, u32_to_native};
use rand::rngs::StdRng;
use std::collections::HashMap;
use vstd::prelude::*;

verus! {

broadcast use vstd::std_specs::hash::group_hash_axioms;

/// Addresses are handed out in whole pages of this size.
pub const PAGE_SIZE: u64 = 0x1000;

pub const STACK_MIN: u64 = 0x7000_0000;

pub const STACK_MAX: u64 = 0x7FFF_FFFF;

pub const HEAP_MIN: u64 = 0x1000_0000;

pub const HEAP_MAX: u64 = 0x1FFF_FFFF;

pub const MMAP_MIN: u64 = 0x2000_0000;

pub const MMAP_MAX: u64 = 0x2FFF_FFFF;

pub const VDSO_MIN: u64 = 0x1000;

pub const VDSO_MAX: u64 = 0xFFFF;

/// Regeneration may flip the bits of a base that this mask selects.
pub const REGENERATION_MASK: u64 = 0xFFFF_FFFF;

/// Bytes of fresh randomness that go into a layout hash.
pub const SEED_LEN: usize = 16;

/// Where the regions of one process lie.
#[derive(Clone, Copy, Debug, PartialEq, Eq)]
pub struct MemoryLayout {
    pub pid: u32,
    pub stack_base: u64,
    pub heap_base: u64,
    pub mmap_base: u64,
    pub vdso_offset: u64,
    pub layout_hash: [u8; 32],
    pub regeneration_count: u32,
}

/// Why a layout cannot be applied.
#[derive(Clone, Copy, Debug, PartialEq, Eq, Structural)]
pub enum LayoutError {
    /// No layout was ever drawn for this process.
    NoLayout { pid: u32 },
}

/// `rand::rngs::StdRng`, the generator that layouts are drawn from.
#[verifier::external_type_specification]
#[verifier::external_body]
pub struct ExStdRng(StdRng);

/// `Rng::gen_range` on a half-open range of `u64`: some value of the range.
/// rand panics on an empty range.
#[verifier::external_body]
fn random_in(rng: &mut StdRng, min: u64, max: u64) -> (value: u64)
    requires
        min < max,
    ensures
        min <= value < max,
{
    rand::Rng::gen_range(rng, min..max)
}

/// `Rng::gen` for `u64`: any value.
#[verifier::external_body]
fn random_u64(rng: &mut StdRng) -> u64 {
    rand::Rng::gen::<u64>(rng)
}

/// `Rng::gen` for sixteen bytes: any bytes.
#[verifier::external_body]
fn random_seed(rng: &mut StdRng) -> [u8; 16] {
    rand::Rng::gen::<[u8; 16]>(rng)
}

/// `address` is the start of the page that holds some address of
/// `min..max`.
pub open spec fn page_base_within(address: u64, min: u64, max: u64) -> bool {
    &&& address % PAGE_SIZE == 0
    &&& address < max
    &&& min < address + PAGE_SIZE
}

/// `hash` is the digest of sixteen bytes of seed, the process id and the
/// time, the two numbers in the machine's byte order.
pub open spec fn is_layout_hash(hash: Seq<u8>, pid: u32, now_nanos: u128) -> bool {
    exists|seed: Seq<u8>, pid_bytes: Seq<u8>, time_bytes: Seq<u8>|
        #![trigger sha256(seed + pid_bytes + time_bytes)]
        {
            &&& seed.len() == SEED_LEN
            &&& pid_bytes.len() == 4
            &&& time_bytes.len() == 16
            &&& spelled_by(pid as nat, pid_bytes)
            &&& spelled_by(now_nanos as nat, time_bytes)
            &&& hash == sha256(seed + pid_bytes + time_bytes)
        }
}

/// `layout` is a first layout of `pid`: page-aligned bases in their regions,
/// a vDSO offset in its range, and no regeneration yet.
pub open spec fn is_fresh_layout(layout: MemoryLayout, pid: u32, now_nanos: u128) -> bool {
    &&& layout.pid == pid
    &&& page_base_within(layout.stack_base, STACK_MIN, STACK_MAX)
    &&& layout.stack_base >= STACK_MIN
    &&& page_base_within(layout.heap_base, HEAP_MIN, HEAP_MAX)
    &&& layout.heap_base >= HEAP_MIN
    &&& page_base_within(layout.mmap_base, MMAP_MIN, MMAP_MAX)
    &&& layout.mmap_base >= MMAP_MIN
    &&& VDSO_MIN <= layout.vdso_offset < VDSO_MAX
    &&& is_layout_hash(layout.layout_hash@, pid, now_nanos)
    &&& layout.regeneration_count == 0
}

/// `next` regenerates `prev`: one more regeneration, bases that differ from
/// the old ones in their low 32 bits at most, a fresh offset and hash.
pub open spec fn is_regeneration(next: MemoryLayout, prev: MemoryLayout, now_nanos: u128) -> bool {
    &&& next.pid == prev.pid
    &&& next.regeneration_count == prev.regeneration_count + 1
    &&& next.stack_base ^ prev.stack_base <= REGENERATION_MASK
    &&& next.heap_base ^ prev.heap_base <= REGENERATION_MASK
    &&& next.mmap_base ^ prev.mmap_base <= REGENERATION_MASK
    &&& VDSO_MIN <= next.vdso_offset < VDSO_MAX
    &&& is_layout_hash(next.layout_hash@, prev.pid, now_nanos)
}

/// Flips in `base` the bits that `noise` and the regeneration mask share.
pub fn perturb(base: u64, noise: u64) -> (moved: u64)
    ensures
        moved == base ^ (noise & REGENERATION_MASK),
        moved ^ base <= REGENERATION_MASK,
{
    let flip = noise & REGENERATION_MASK;
    let moved = base ^ flip;
    assert((base ^ (noise & 0xFFFF_FFFFu64)) ^ base <= 0xFFFF_FFFFu64) by (bit_vector);
    moved
}

/// Rounds an address down to the start of its page.
pub fn page_floor(address: u64) -> (base: u64)
    ensures
        base == address - address % PAGE_SIZE,
        base == address & !0xFFFu64,
{
    let base = address & !0xFFF;
    assert(address & !0xFFFu64 == address - address % 0x1000u64) by (bit_vector);
    base
}

/// Draws and keeps the memory layouts of processes.
pub struct MemoryRandomizer {
    layouts: HashMap<u32, MemoryLayout>,
    rng: StdRng,
}

impl View for MemoryRandomizer {
    type V = Map<u32, MemoryLayout>;

    closed spec fn view(&self) -> Map<u32, MemoryLayout> {
        self.layouts@
    }
}

impl MemoryRandomizer {
    /// Every layout is kept under the process it belongs to. A randomizer
    /// made by `new` and changed by its own methods alone is well formed.
    pub open spec fn wf(&self) -> bool {
        forall|pid: u32| #[trigger] self@.contains_key(pid) ==> self@[pid].pid == pid
    }

    /// Whether the layout of `pid`, if it has one, can count one more
    /// regeneration.
    pub open spec fn can_regenerate(&self, pid: u32) -> bool {
        self@.contains_key(pid) ==> self@[pid].regeneration_count < u32::MAX
    }

    /// A randomizer without layouts that draws from `rng`.
    pub fn new(rng: StdRng) -> (randomizer: MemoryRandomizer)
        ensures
            randomizer@ == Map::<u32, MemoryLayout>::empty(),
            randomizer.wf(),
    {
        MemoryRandomizer { layouts: HashMap::new(), rng }
    }

    /// Draws a first layout for `pid` and keeps it in place of any older one.
    pub fn randomize_for_pid(&mut self, pid: u32, now_nanos: u128) -> (layout: MemoryLayout)
        requires
            old(self).wf(),
        ensures
            is_fresh_layout(layout, pid, now_nanos),
            final(self)@ == old(self)@.insert(pid, layout),
            final(self).wf(),
    {
        let layout = MemoryLayout {
            pid,
            stack_base: self.generate_random_address(STACK_MIN, STACK_MAX),
            heap_base: self.generate_random_address(HEAP_MIN, HEAP_MAX),
            mmap_base: self.generate_random_address(MMAP_MIN, MMAP_MAX),
            vdso_offset: random_in(&mut self.rng, VDSO_MIN, VDSO_MAX),
            layout_hash: self.generate_layout_hash(pid, now_nanos),
            regeneration_count: 0,
        };
        self.layouts.insert(pid, layout);
        layout
    }

    /// Moves the layout of `pid` within its regions and counts the
    /// regeneration; a process without a layout gets a first one.
    pub fn regenerate_layout(&mut self, pid: u32, now_nanos: u128) -> (layout: MemoryLayout)
        requires
            old(self).wf(),
            old(self).can_regenerate(pid),
        ensures
            old(self)@.contains_key(pid) ==> is_regeneration(layout, old(self)@[pid], now_nanos),
            !old(self)@.contains_key(pid) ==> is_fresh_layout(layout, pid, now_nanos),
            final(self)@ == old(self)@.insert(pid, layout),
            final(self).wf(),
            layout.pid == pid,
    {
        let found = match self.layouts.get(&pid) {
            Some(layout) => Some(*layout),
            None => None,
        };
        match found {
            Some(prev) => {
                let layout = MemoryLayout {
                    pid: prev.pid,
                    stack_base: perturb(prev.stack_base, random_u64(&mut self.rng)),
                    heap_base: perturb(prev.heap_base, random_u64(&mut self.rng)),
                    mmap_base: perturb(prev.mmap_base, random_u64(&mut self.rng)),
                    vdso_offset: random_in(&mut self.rng, VDSO_MIN, VDSO_MAX),
                    layout_hash: self.generate_layout_hash(pid, now_nanos),
                    regeneration_count: prev.regeneration_count + 1,
                };
                self.layouts.insert(pid, layout);
                layout
            },
            None => self.randomize_for_pid(pid, now_nanos),
        }
    }

    /// The layout to apply to `pid`, or the news that it has none.
    pub fn apply_layout_to_process(&self, pid: u32) -> (found: Result<MemoryLayout, LayoutError>)
        ensures
            self@.contains_key(pid) ==> found == Ok::<MemoryLayout, LayoutError>(self@[pid]),
            !self@.contains_key(pid) ==> found == Err::<MemoryLayout, LayoutError>(
                LayoutError::NoLayout { pid },
            ),
            self.wf() ==> (found matches Ok(layout) ==> layout.pid == pid),
    {
        match self.layouts.get(&pid) {
            Some(layout) => Ok(*layout),
            None => Err(LayoutError::NoLayout { pid }),
        }
    }

    /// A random page start: the page of some address of `min..max`.
    pub fn generate_random_address(&mut self, min: u64, max: u64) -> (address: u64)
        requires
            min < max,
        ensures
            page_base_within(address, min, max),
            min % PAGE_SIZE == 0 ==> address >= min,
            final(self)@ == old(self)@,
    {
        let raw = random_in(&mut self.rng, min, max);
        page_floor(raw)
    }

    /// A hash that ties a layout to its process and its time of drawing,
    /// salted with fresh randomness.
    pub fn generate_layout_hash(&mut self, pid: u32, now_nanos: u128) -> (hash: [u8; 32])
        ensures
            is_layout_hash(hash@, pid, now_nanos),
            final(self)@ == old(self)@,
    {
        let seed = random_seed(&mut self.rng);
        let pid_bytes = u32_to_native(pid);
        let time_bytes = u128_to_native(now_nanos);
        let mut preimage: Vec<u8> = Vec::new();
        preimage.extend_from_slice(seed.as_slice());
        preimage.extend_from_slice(pid_bytes.as_slice());
        preimage.extend_from_slice(time_bytes.as_slice());
        assert(preimage@ =~= seed@ + pid_bytes@ + time_bytes@);
        sha256_digest(preimage.as_slice())
    }
}

} // verus!
