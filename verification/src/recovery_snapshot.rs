use crate::ebpf_monitor::SyscallStat;
use crate::hashing::{hex_digit, hex_encode, hex_of, sha256, sha256_digest, HASH_INPUT_LIMIT};
use crate::memory_randomizer::MemoryLayout;
use vstd::prelude::*;

verus! {

/// Snapshots kept on disk before the oldest are removed.
pub const DEFAULT_MAX_SNAPSHOTS: usize = 10;

/// What a process is doing.
#[derive(Clone, Copy, Debug, PartialEq, Eq, Structural)]
pub enum ProcessState {
    Running,
    Frozen,
    Collapsing,
    Regenerating,
}

/// The registers that a snapshot keeps.
#[derive(Clone, Copy, Debug, PartialEq, Eq, Structural)]
pub struct RegisterSet {
    pub instruction_pointer: u64,
    pub stack_pointer: u64,
    pub frame_pointer: u64,
    pub flags: u64,
}

/// A mapped range of addresses, `end` excluded.
#[derive(Clone, Copy, Debug, PartialEq, Eq, Structural)]
pub struct MemoryRange {
    pub start: u64,
    pub end: u64,
}

/// An open file by descriptor and inode.
#[derive(Clone, Copy, Debug, PartialEq, Eq, Structural)]
pub struct FileDescriptor {
    pub fd: u32,
    pub inode: u64,
}

/// A process as the kernel state holds it.
#[derive(Clone, Debug, PartialEq, Eq)]
pub struct KernelProcess {
    pub children: Vec<u32>,
    pub registers: RegisterSet,
    pub open_files: Vec<FileDescriptor>,
}

/// A process as a snapshot holds it.
#[derive(Clone, Debug, PartialEq, Eq)]
pub struct ProcessSnapshot {
    pub pid: u32,
    pub state: ProcessState,
    pub registers: Option<RegisterSet>,
    pub memory_ranges: Vec<MemoryRange>,
    pub open_files: Vec<FileDescriptor>,
    pub children: Vec<u32>,
}

/// The layout of one process at the time of a snapshot.
#[derive(Clone, Copy, Debug, PartialEq, Eq)]
pub struct MemoryLayoutSnapshot {
    pub layout: MemoryLayout,
}

/// The syscall statistics at the time of a snapshot.
#[derive(Clone, Debug, PartialEq, Eq)]
pub struct SyscallStateSnapshot {
    pub stats: Vec<(u32, SyscallStat)>,
}

/// The public key material at the time of a snapshot.
#[derive(Clone, Debug, PartialEq, Eq)]
pub struct CryptoStateSnapshot {
    pub public_key: Vec<u8>,
}

/// Everything that a snapshot keeps.
#[derive(Clone, Debug, PartialEq, Eq)]
pub struct KernelSnapshot {
    pub snapshot_id: String,
    pub timestamp: u64,
    pub processes: Vec<ProcessSnapshot>,
    pub memory_layouts: Vec<MemoryLayoutSnapshot>,
    pub syscall_state: SyscallStateSnapshot,
    pub crypto_state: CryptoStateSnapshot,
    /// Hexadecimal SHA-256 of the serialised snapshot; empty until sealed.
    pub checksum: String,
}

/// The state that snapshots are taken of and restored to.
#[derive(Clone, Debug, PartialEq, Eq)]
pub struct QuantumKernel {
    pub processes: Vec<(u32, KernelProcess)>,
    pub memory_layouts: Vec<MemoryLayout>,
    pub syscall_state: SyscallStateSnapshot,
    pub crypto_state: CryptoStateSnapshot,
}

/// Why a snapshot could not be taken or restored.
#[derive(Clone, Copy, Debug, PartialEq, Eq, Structural)]
pub enum SnapshotError {
    /// The stored checksum is not that of the stored bytes.
    ChecksumMismatch,
    /// The snapshot of this process holds no registers to restore.
    MissingRegisters { pid: u32 },
}

/// A process of the kernel state by its contents.
pub struct KernelProcessModel {
    pub pid: u32,
    pub children: Seq<u32>,
    pub registers: RegisterSet,
    pub open_files: Seq<FileDescriptor>,
}

/// A process snapshot by its contents.
pub struct ProcessSnapshotModel {
    pub pid: u32,
    pub state: ProcessState,
    pub registers: Option<RegisterSet>,
    pub memory_ranges: Seq<MemoryRange>,
    pub open_files: Seq<FileDescriptor>,
    pub children: Seq<u32>,
}

impl View for ProcessSnapshot {
    type V = ProcessSnapshotModel;

    open spec fn view(&self) -> ProcessSnapshotModel {
        ProcessSnapshotModel {
            pid: self.pid,
            state: self.state,
            registers: self.registers,
            memory_ranges: self.memory_ranges@,
            open_files: self.open_files@,
            children: self.children@,
        }
    }
}

/// The process `entry` of a kernel state by its contents.
pub open spec fn process_model(entry: (u32, KernelProcess)) -> KernelProcessModel {
    KernelProcessModel {
        pid: entry.0,
        children: entry.1.children@,
        registers: entry.1.registers,
        open_files: entry.1.open_files@,
    }
}

/// The snapshot of a process: frozen, with its registers, files and
/// children, and with no memory contents.
pub open spec fn frozen(process: KernelProcessModel) -> ProcessSnapshotModel {
    ProcessSnapshotModel {
        pid: process.pid,
        state: ProcessState::Frozen,
        registers: Some(process.registers),
        memory_ranges: Seq::empty(),
        open_files: process.open_files,
        children: process.children,
    }
}

/// The process that a snapshot restores, if the snapshot holds registers.
pub open spec fn thawed(snapshot: ProcessSnapshotModel) -> Option<KernelProcessModel> {
    match snapshot.registers {
        Some(registers) => Some(
            KernelProcessModel {
                pid: snapshot.pid,
                children: snapshot.children,
                registers,
                open_files: snapshot.open_files,
            },
        ),
        None => None,
    }
}

/// The lower-case hexadecimal digits of a number, without leading zeros.
pub open spec fn lower_hex(value: nat) -> Seq<char>
    decreases value,
{
    if value < 16 {
        seq![hex_digit(value as int)]
    } else {
        lower_hex(value / 16).push(hex_digit((value % 16) as int))
    }
}

/// The decimal digits of a number.
pub open spec fn decimal(value: nat) -> Seq<char>
    decreases value,
{
    if value < 10 {
        seq![(0x30 + value) as char]
    } else {
        decimal(value / 10).push((0x30 + value % 10) as char)
    }
}

/// The name of the snapshot taken at `timestamp`.
pub open spec fn snapshot_name(timestamp: u128) -> Seq<char> {
    "snapshot_"@ + lower_hex(timestamp as nat)
}

/// Where the memory of `pid` can be read.
pub open spec fn proc_mem_path(pid: u32) -> Seq<char> {
    "/proc/"@ + decimal(pid as nat) + "/mem"@
}

/// The checksum of serialised bytes: their SHA-256 in hexadecimal.
pub open spec fn spec_checksum(data: Seq<u8>) -> Seq<char> {
    hex_of(sha256(data))
}

/// `format!` with `{:x}`: the prefix, then the number in lower-case
/// hexadecimal.
#[verifier::external_body]
fn format_snapshot_name(timestamp: u128) -> (name: String)
    ensures
        name@ == snapshot_name(timestamp),
{
    format!("snapshot_{:x}", timestamp)
}

/// `format!` with `{}`: the process id in decimal between the two parts of
/// the path.
#[verifier::external_body]
fn format_mem_path(pid: u32) -> (path: String)
    ensures
        path@ == proc_mem_path(pid),
{
    format!("/proc/{}/mem", pid)
}

/// Whether entry `j` is older than entry `i`; of two entries modified at the
/// same time the one listed first counts as older.
pub open spec fn precedes(modified: Seq<u64>, j: int, i: int) -> bool {
    modified[j] < modified[i] || (modified[j] == modified[i] && j < i)
}

/// How many of the first `upto` entries are older than entry `i`.
pub open spec fn older_among(modified: Seq<u64>, i: int, upto: int) -> nat
    decreases upto,
{
    if upto <= 0 {
        0
    } else {
        older_among(modified, i, upto - 1) + if precedes(modified, upto - 1, i) {
            1nat
        } else {
            0nat
        }
    }
}

/// The number of entries older than entry `i`: its place in the order of age.
pub open spec fn age_rank(modified: Seq<u64>, i: int) -> int {
    older_among(modified, i, modified.len() as int) as int
}

/// Entry `i` is stale when more than `max` entries exist and fewer than the
/// excess are older than it: the stale entries are the oldest ones beyond
/// the `max` newest.
pub open spec fn is_stale(modified: Seq<u64>, max: nat, i: int) -> bool {
    &&& 0 <= i < modified.len()
    &&& modified.len() > max
    &&& age_rank(modified, i) < modified.len() - max
}

/// An entry is not older than itself, so fewer entries are older than it
/// than there are entries.
proof fn lemma_older_among_bounded(modified: Seq<u64>, i: int, upto: int)
    requires
        0 <= i < modified.len(),
        0 <= upto <= modified.len(),
    ensures
        older_among(modified, i, upto) <= upto,
        upto > i ==> older_among(modified, i, upto) < upto,
    decreases upto,
{
    if upto > 0 {
        lemma_older_among_bounded(modified, i, upto - 1);
    }
}

/// Whatever is older than an older entry is older than the entry itself.
proof fn lemma_older_entry_has_fewer_older(modified: Seq<u64>, j: int, i: int, upto: int)
    requires
        0 <= i < modified.len(),
        0 <= j < modified.len(),
        0 <= upto <= modified.len(),
        precedes(modified, j, i),
    ensures
        older_among(modified, j, upto) <= older_among(modified, i, upto),
        upto > j ==> older_among(modified, j, upto) < older_among(modified, i, upto),
    decreases upto,
{
    if upto > 0 {
        lemma_older_entry_has_fewer_older(modified, j, i, upto - 1);
    }
}

/// No two entries have the same place in the order of age.
proof fn lemma_age_rank_injective(modified: Seq<u64>, i: int, j: int)
    requires
        0 <= i < modified.len(),
        0 <= j < modified.len(),
        i != j,
    ensures
        age_rank(modified, i) != age_rank(modified, j),
{
    if precedes(modified, j, i) {
        lemma_older_entry_has_fewer_older(modified, j, i, modified.len() as int);
    } else {
        assert(precedes(modified, i, j));
        lemma_older_entry_has_fewer_older(modified, i, j, modified.len() as int);
    }
}

/// Some entry has `rank` entries older than itself.
pub open spec fn place_is_taken(modified: Seq<u64>, rank: int) -> bool {
    exists|i: int| 0 <= i < modified.len() && #[trigger] age_rank(modified, i) == rank
}

/// Every place in the order of age is taken by some entry.
proof fn lemma_age_ranks_cover(modified: Seq<u64>)
    ensures
        forall|rank: int| 0 <= rank < modified.len() ==> #[trigger] place_is_taken(modified, rank),
{
    let n = modified.len() as int;
    let entries = vstd::set_lib::set_int_range(0, n);
    let rank_of = |i: int| age_rank(modified, i);
    let ranks = entries.map(rank_of);
    vstd::set_lib::lemma_int_range(0, n);
    assert(vstd::relations::injective_on(rank_of, entries)) by {
        assert forall|i: int, j: int|
            entries.contains(i) && entries.contains(j) && #[trigger] rank_of(i)
                == #[trigger] rank_of(j) implies i == j by {
            if i != j {
                lemma_age_rank_injective(modified, i, j);
            }
        }
    }
    vstd::set_lib::lemma_map_size(entries, ranks, rank_of);
    assert(ranks.subset_of(entries)) by {
        assert forall|rank: int| ranks.contains(rank) implies entries.contains(rank) by {
            let i = choose|i: int| entries.contains(i) && rank_of(i) == rank;
            lemma_older_among_bounded(modified, i, n);
        }
    }
    vstd::set_lib::lemma_subset_equality(ranks, entries);
    assert forall|rank: int| 0 <= rank < n implies #[trigger] place_is_taken(modified, rank) by {
        assert(entries.contains(rank));
        assert(ranks.contains(rank));
        let i = choose|i: int| entries.contains(i) && rank_of(i) == rank;
        assert(0 <= i < n && age_rank(modified, i) == rank);
    }
}

/// The stale entries are the oldest: none of them was modified after an
/// entry that stays.
pub proof fn lemma_stale_are_oldest(modified: Seq<u64>, max: nat, gone: int, kept: int)
    requires
        is_stale(modified, max, gone),
        0 <= kept < modified.len(),
        !is_stale(modified, max, kept),
    ensures
        modified[gone] <= modified[kept],
{
    if modified[kept] < modified[gone] {
        lemma_older_entry_has_fewer_older(modified, kept, gone, modified.len() as int);
    }
}

/// As many entries are stale as there are beyond `max`: a list that names
/// each stale entry once is as long as the excess.
pub proof fn lemma_stale_count(modified: Seq<u64>, max: nat, stale: Seq<usize>)
    requires
        max < modified.len() <= usize::MAX,
        forall|a: int, b: int| 0 <= a < b < stale.len() ==> stale[a] < stale[b],
        forall|k: int| 0 <= k < stale.len() ==> is_stale(modified, max, #[trigger] stale[k] as int),
        forall|i: int| is_stale(modified, max, i) ==> stale.contains(i as usize),
    ensures
        stale.len() == modified.len() - max,
{
    let n = modified.len() as int;
    let excess = n - max;
    let listed = stale.to_set();
    let rank_of = |i: usize| age_rank(modified, i as int);
    let places = vstd::set_lib::set_int_range(0, excess);
    assert(stale.no_duplicates());
    stale.unique_seq_to_set();
    vstd::seq_lib::seq_to_set_is_finite(stale);
    vstd::set_lib::lemma_int_range(0, excess);
    lemma_age_ranks_cover(modified);
    assert(vstd::relations::injective_on(rank_of, listed)) by {
        assert forall|i: usize, j: usize|
            listed.contains(i) && listed.contains(j) && #[trigger] rank_of(i)
                == #[trigger] rank_of(j) implies i == j by {
            let a = choose|a: int| 0 <= a < stale.len() && stale[a] == i;
            let b = choose|b: int| 0 <= b < stale.len() && stale[b] == j;
            assert(is_stale(modified, max, stale[a] as int));
            assert(is_stale(modified, max, stale[b] as int));
            if i != j {
                lemma_age_rank_injective(modified, i as int, j as int);
            }
        }
    }
    assert(listed.map(rank_of) =~= places) by {
        assert forall|rank: int| listed.map(rank_of).contains(rank) implies places.contains(
            rank,
        ) by {
            let i = choose|i: usize| listed.contains(i) && rank_of(i) == rank;
            let a = choose|a: int| 0 <= a < stale.len() && stale[a] == i;
            assert(is_stale(modified, max, stale[a] as int));
        }
        assert forall|rank: int| places.contains(rank) implies listed.map(rank_of).contains(
            rank,
        ) by {
            assert(place_is_taken(modified, rank));
            let i = choose|i: int| 0 <= i < n && age_rank(modified, i) == rank;
            assert(is_stale(modified, max, i));
            assert(stale.contains(i as usize));
            assert(listed.contains(i as usize));
            assert(rank_of(i as usize) == rank);
        }
    }
    vstd::set_lib::lemma_map_size(listed, places, rank_of);
}

/// `snapshots` are the frozen images of `processes`, in the same order.
pub open spec fn captures_processes(
    snapshots: Seq<ProcessSnapshot>,
    processes: Seq<(u32, KernelProcess)>,
) -> bool {
    &&& snapshots.len() == processes.len()
    &&& forall|i: int|
        0 <= i < snapshots.len() ==> (#[trigger] snapshots[i])@ == frozen(
            process_model(processes[i]),
        )
}

/// `snapshots` hold `layouts`, in the same order.
pub open spec fn captures_layouts(
    snapshots: Seq<MemoryLayoutSnapshot>,
    layouts: Seq<MemoryLayout>,
) -> bool {
    &&& snapshots.len() == layouts.len()
    &&& forall|i: int| 0 <= i < snapshots.len() ==> (#[trigger] snapshots[i]).layout == layouts[i]
}

/// `snapshot` is the unsealed image of `kernel` taken at `timestamp`.
pub open spec fn captures(snapshot: KernelSnapshot, kernel: QuantumKernel, timestamp: u128) -> bool {
    &&& snapshot.snapshot_id@ == snapshot_name(timestamp)
    &&& snapshot.timestamp == timestamp % 0x1_0000_0000_0000_0000
    &&& captures_processes(snapshot.processes@, kernel.processes@)
    &&& captures_layouts(snapshot.memory_layouts@, kernel.memory_layouts@)
    &&& snapshot.syscall_state.stats@ == kernel.syscall_state.stats@
    &&& snapshot.crypto_state.public_key@ == kernel.crypto_state.public_key@
    &&& snapshot.checksum@ == Seq::<char>::empty()
}

/// `processes` are what `snapshots` restore, in the same order.
pub open spec fn restores_processes(
    processes: Seq<(u32, KernelProcess)>,
    snapshots: Seq<ProcessSnapshot>,
) -> bool {
    &&& processes.len() == snapshots.len()
    &&& forall|i: int|
        0 <= i < processes.len() ==> thawed(snapshots[i]@) == Some(
            process_model(#[trigger] processes[i]),
        )
}

/// `kernel` is the state that `snapshot` restores.
pub open spec fn restores(kernel: QuantumKernel, snapshot: KernelSnapshot) -> bool {
    &&& restores_processes(kernel.processes@, snapshot.processes@)
    &&& captures_layouts(snapshot.memory_layouts@, kernel.memory_layouts@)
    &&& kernel.syscall_state.stats@ == snapshot.syscall_state.stats@
    &&& kernel.crypto_state.public_key@ == snapshot.crypto_state.public_key@
}

/// `pid` belongs to the first of `snapshots` that holds no registers.
pub open spec fn first_without_registers(snapshots: Seq<ProcessSnapshot>, pid: u32) -> bool {
    exists|i: int|
        {
            &&& 0 <= i < snapshots.len()
            &&& (#[trigger] snapshots[i]).registers is None
            &&& snapshots[i].pid == pid
            &&& forall|j: int| 0 <= j < i ==> (#[trigger] snapshots[j]).registers is Some
        }
}

/// A copy of a list of plain items.
pub fn copy_of<T: Copy>(items: &Vec<T>) -> (copy: Vec<T>)
    ensures
        copy@ == items@,
{
    let mut copy: Vec<T> = Vec::new();
    let mut i: usize = 0;
    while i < items.len()
        invariant
            i <= items.len(),
            copy@ == items@.take(i as int),
        decreases items.len() - i,
    {
        copy.push(items[i]);
        assert(copy@ =~= items@.take(i + 1));
        i = i + 1;
    }
    assert(items@.take(i as int) =~= items@);
    copy
}

impl QuantumKernel {
    /// A kernel state without processes.
    pub fn new() -> (kernel: QuantumKernel)
        ensures
            kernel.processes@.len() == 0,
            kernel.memory_layouts@.len() == 0,
            kernel.syscall_state.stats@.len() == 0,
            kernel.crypto_state.public_key@.len() == 0,
    {
        QuantumKernel {
            processes: Vec::new(),
            memory_layouts: Vec::new(),
            syscall_state: SyscallStateSnapshot { stats: Vec::new() },
            crypto_state: CryptoStateSnapshot { public_key: Vec::new() },
        }
    }

    /// A copy of the syscall statistics.
    pub fn syscall_state(&self) -> (state: SyscallStateSnapshot)
        ensures
            state.stats@ == self.syscall_state.stats@,
    {
        SyscallStateSnapshot { stats: copy_of(&self.syscall_state.stats) }
    }

    /// A copy of the key material.
    pub fn crypto_state(&self) -> (state: CryptoStateSnapshot)
        ensures
            state.public_key@ == self.crypto_state.public_key@,
    {
        CryptoStateSnapshot { public_key: copy_of(&self.crypto_state.public_key) }
    }

    /// Adds the layout that a snapshot holds.
    pub fn restore_memory_layout(&mut self, snapshot: &MemoryLayoutSnapshot)
        ensures
            final(self).memory_layouts@ == old(self).memory_layouts@.push(snapshot.layout),
            final(self).processes == old(self).processes,
            final(self).syscall_state == old(self).syscall_state,
            final(self).crypto_state == old(self).crypto_state,
    {
        self.memory_layouts.push(snapshot.layout);
    }

    /// Puts back the syscall statistics that a snapshot holds.
    pub fn restore_syscall_state(&mut self, state: &SyscallStateSnapshot)
        ensures
            final(self).syscall_state.stats@ == state.stats@,
            final(self).processes == old(self).processes,
            final(self).memory_layouts == old(self).memory_layouts,
            final(self).crypto_state == old(self).crypto_state,
    {
        self.syscall_state = SyscallStateSnapshot { stats: copy_of(&state.stats) };
    }

    /// Puts back the key material that a snapshot holds.
    pub fn restore_crypto_state(&mut self, state: &CryptoStateSnapshot)
        ensures
            final(self).crypto_state.public_key@ == state.public_key@,
            final(self).processes == old(self).processes,
            final(self).memory_layouts == old(self).memory_layouts,
            final(self).syscall_state == old(self).syscall_state,
    {
        self.crypto_state = CryptoStateSnapshot { public_key: copy_of(&state.public_key) };
    }
}

/// Takes and restores snapshots of the kernel state.
pub struct SnapshotManager {
    snapshot_dir: String,
    max_snapshots: usize,
    encryption_key: Option<[u8; 32]>,
}

impl SnapshotManager {
    pub closed spec fn spec_snapshot_dir(&self) -> Seq<char> {
        self.snapshot_dir@
    }

    pub closed spec fn spec_max_snapshots(&self) -> usize {
        self.max_snapshots
    }

    pub closed spec fn spec_encryption_key(&self) -> Option<[u8; 32]> {
        self.encryption_key
    }

    /// A manager of the snapshots under `snapshot_dir` that keeps the ten
    /// newest and encrypts nothing.
    pub fn new(snapshot_dir: &str) -> (manager: SnapshotManager)
        ensures
            manager.spec_snapshot_dir() == snapshot_dir@,
            manager.spec_max_snapshots() == DEFAULT_MAX_SNAPSHOTS,
            manager.spec_encryption_key() is None,
    {
        SnapshotManager {
            snapshot_dir: snapshot_dir.to_owned(),
            max_snapshots: DEFAULT_MAX_SNAPSHOTS,
            encryption_key: None,
        }
    }

    pub fn snapshot_dir(&self) -> (dir: &str)
        ensures
            dir@ == self.spec_snapshot_dir(),
    {
        self.snapshot_dir.as_str()
    }

    pub fn max_snapshots(&self) -> (max: usize)
        ensures
            max == self.spec_max_snapshots(),
    {
        self.max_snapshots
    }

    /// The image of `kernel_state` at `timestamp`, not yet sealed with a
    /// checksum.
    pub fn take_snapshot(&self, kernel_state: &QuantumKernel, timestamp: u128) -> (taken: Result<
        KernelSnapshot,
        SnapshotError,
    >)
        ensures
            taken matches Ok(snapshot) && captures(snapshot, *kernel_state, timestamp),
    {
        let processes = match self.capture_processes(kernel_state) {
            Ok(processes) => processes,
            Err(error) => {
                return Err(error);
            },
        };
        let memory_layouts = match self.capture_memory_layouts(kernel_state) {
            Ok(layouts) => layouts,
            Err(error) => {
                return Err(error);
            },
        };
        Ok(
            KernelSnapshot {
                snapshot_id: format_snapshot_name(timestamp),
                timestamp: (timestamp % 0x1_0000_0000_0000_0000) as u64,
                processes,
                memory_layouts,
                syscall_state: kernel_state.syscall_state(),
                crypto_state: kernel_state.crypto_state(),
                checksum: String::new(),
            },
        )
    }

    /// Seals `snapshot` with the checksum of its serialised bytes.
    pub fn seal_snapshot(&self, snapshot: KernelSnapshot, snapshot_bytes: &[u8]) -> (sealed:
        KernelSnapshot)
        requires
            snapshot_bytes@.len() < HASH_INPUT_LIMIT,
        ensures
            sealed.checksum@ == spec_checksum(snapshot_bytes@),
            sealed.snapshot_id == snapshot.snapshot_id,
            sealed.timestamp == snapshot.timestamp,
            sealed.processes == snapshot.processes,
            sealed.memory_layouts == snapshot.memory_layouts,
            sealed.syscall_state == snapshot.syscall_state,
            sealed.crypto_state == snapshot.crypto_state,
    {
        let mut sealed = snapshot;
        sealed.checksum = self.calculate_checksum(snapshot_bytes);
        sealed
    }

    /// The kernel state that `snapshot` holds, provided that its checksum is
    /// that of `snapshot_bytes` and every process in it has registers.
    pub fn restore_snapshot(&self, snapshot: &KernelSnapshot, snapshot_bytes: &[u8]) -> (restored:
        Result<QuantumKernel, SnapshotError>)
        requires
            snapshot_bytes@.len() < HASH_INPUT_LIMIT,
        ensures
            snapshot.checksum@ != spec_checksum(snapshot_bytes@) ==> restored == Err::<
                QuantumKernel,
                SnapshotError,
            >(SnapshotError::ChecksumMismatch),
            snapshot.checksum@ == spec_checksum(snapshot_bytes@) ==> match restored {
                Ok(kernel) => restores(kernel, *snapshot),
                Err(SnapshotError::MissingRegisters { pid }) => first_without_registers(
                    snapshot.processes@,
                    pid,
                ),
                Err(SnapshotError::ChecksumMismatch) => false,
            },
    {
        let calculated = self.calculate_checksum(snapshot_bytes);
        if calculated != snapshot.checksum {
            return Err(SnapshotError::ChecksumMismatch);
        }
        let mut kernel = QuantumKernel::new();
        let mut i: usize = 0;
        while i < snapshot.processes.len()
            invariant
                i <= snapshot.processes.len(),
                kernel.processes@.len() == i,
                kernel.memory_layouts@.len() == 0,
                forall|j: int|
                    0 <= j < i ==> thawed(snapshot.processes@[j]@) == Some(
                        process_model(#[trigger] kernel.processes@[j]),
                    ),
                forall|j: int| 0 <= j < i ==> (#[trigger] snapshot.processes@[j]).registers is Some,
                snapshot.checksum@ == spec_checksum(snapshot_bytes@),
            decreases snapshot.processes.len() - i,
        {
            let ghost before = kernel.processes@;
            match self.restore_process(&mut kernel, &snapshot.processes[i]) {
                Ok(()) => {},
                Err(error) => {
                    assert(snapshot.processes@[i as int].registers is None);
                    return Err(error);
                },
            }
            assert forall|j: int| 0 <= j < i + 1 implies thawed(snapshot.processes@[j]@) == Some(
                process_model(#[trigger] kernel.processes@[j]),
            ) by {
                if j < i {
                    assert(kernel.processes@[j] == kernel.processes@.drop_last()[j]);
                    assert(kernel.processes@[j] == before[j]);
                }
            }
            i = i + 1;
        }
        let mut k: usize = 0;
        while k < snapshot.memory_layouts.len()
            invariant
                k <= snapshot.memory_layouts.len(),
                kernel.memory_layouts@.len() == k,
                restores_processes(kernel.processes@, snapshot.processes@),
                forall|j: int|
                    0 <= j < k ==> (#[trigger] snapshot.memory_layouts@[j]).layout
                        == kernel.memory_layouts@[j],
                snapshot.checksum@ == spec_checksum(snapshot_bytes@),
            decreases snapshot.memory_layouts.len() - k,
        {
            kernel.restore_memory_layout(&snapshot.memory_layouts[k]);
            k = k + 1;
        }
        kernel.restore_syscall_state(&snapshot.syscall_state);
        kernel.restore_crypto_state(&snapshot.crypto_state);
        Ok(kernel)
    }

    /// Adds to `kernel` the process that `snapshot` holds; a snapshot
    /// without registers restores nothing.
    pub fn restore_process(&self, kernel: &mut QuantumKernel, snapshot: &ProcessSnapshot) -> (done:
        Result<(), SnapshotError>)
        ensures
            snapshot.registers is None ==> done == Err::<(), SnapshotError>(
                SnapshotError::MissingRegisters { pid: snapshot.pid },
            ) && *final(kernel) == *old(kernel),
            snapshot.registers is Some ==> {
                &&& done == Ok::<(), SnapshotError>(())
                &&& final(kernel).processes@.len() == old(kernel).processes@.len() + 1
                &&& final(kernel).processes@.drop_last() == old(kernel).processes@
                &&& thawed(snapshot@) == Some(process_model(final(kernel).processes@.last()))
                &&& final(kernel).memory_layouts == old(kernel).memory_layouts
                &&& final(kernel).syscall_state == old(kernel).syscall_state
                &&& final(kernel).crypto_state == old(kernel).crypto_state
            },
    {
        match snapshot.registers {
            Some(registers) => {
                let process = KernelProcess {
                    children: copy_of(&snapshot.children),
                    registers,
                    open_files: copy_of(&snapshot.open_files),
                };
                kernel.processes.push((snapshot.pid, process));
                assert(kernel.processes@.drop_last() =~= old(kernel).processes@);
                Ok(())
            },
            None => Err(SnapshotError::MissingRegisters { pid: snapshot.pid }),
        }
    }

    /// Where the memory of `pid` can be read.
    pub fn memory_path(&self, pid: u32) -> (path: String)
        ensures
            path@ == proc_mem_path(pid),
    {
        format_mem_path(pid)
    }

    /// The frozen image of every process of `kernel`, in order.
    pub fn capture_processes(&self, kernel: &QuantumKernel) -> (captured: Result<
        Vec<ProcessSnapshot>,
        SnapshotError,
    >)
        ensures
            captured matches Ok(snapshots) && captures_processes(snapshots@, kernel.processes@),
    {
        let mut snapshots: Vec<ProcessSnapshot> = Vec::new();
        let mut i: usize = 0;
        while i < kernel.processes.len()
            invariant
                i <= kernel.processes.len(),
                snapshots@.len() == i,
                forall|j: int|
                    0 <= j < i ==> (#[trigger] snapshots@[j])@ == frozen(
                        process_model(kernel.processes@[j]),
                    ),
            decreases kernel.processes.len() - i,
        {
            let pid = kernel.processes[i].0;
            let mem_path = self.memory_path(pid);
            let memory_ranges = match self.capture_memory_ranges(mem_path.as_str()) {
                Ok(ranges) => ranges,
                Err(error) => {
                    return Err(error);
                },
            };
            let snapshot = ProcessSnapshot {
                pid,
                state: ProcessState::Frozen,
                registers: Some(kernel.processes[i].1.registers),
                memory_ranges,
                open_files: copy_of(&kernel.processes[i].1.open_files),
                children: copy_of(&kernel.processes[i].1.children),
            };
            snapshots.push(snapshot);
            i = i + 1;
        }
        Ok(snapshots)
    }

    /// The memory ranges behind `mem_path`. Memory contents are not part of
    /// a snapshot, so there are none.
    pub fn capture_memory_ranges(&self, mem_path: &str) -> (captured: Result<
        Vec<MemoryRange>,
        SnapshotError,
    >)
        ensures
            captured matches Ok(ranges) && ranges@ == Seq::<MemoryRange>::empty(),
    {
        Ok(Vec::new())
    }

    /// The layout of every process of `kernel`, in order.
    pub fn capture_memory_layouts(&self, kernel: &QuantumKernel) -> (captured: Result<
        Vec<MemoryLayoutSnapshot>,
        SnapshotError,
    >)
        ensures
            captured matches Ok(snapshots) && captures_layouts(
                snapshots@,
                kernel.memory_layouts@,
            ),
    {
        let mut snapshots: Vec<MemoryLayoutSnapshot> = Vec::new();
        let mut i: usize = 0;
        while i < kernel.memory_layouts.len()
            invariant
                i <= kernel.memory_layouts.len(),
                snapshots@.len() == i,
                forall|j: int|
                    0 <= j < i ==> (#[trigger] snapshots@[j]).layout == kernel.memory_layouts@[j],
            decreases kernel.memory_layouts.len() - i,
        {
            snapshots.push(MemoryLayoutSnapshot { layout: kernel.memory_layouts[i] });
            i = i + 1;
        }
        Ok(snapshots)
    }

    /// The checksum of serialised bytes: their SHA-256 in hexadecimal.
    pub fn calculate_checksum(&self, data: &[u8]) -> (checksum: String)
        requires
            data@.len() < HASH_INPUT_LIMIT,
        ensures
            checksum@ == spec_checksum(data@),
    {
        let digest = sha256_digest(data);
        hex_encode(digest.as_slice())
    }

    /// Which of the snapshots on disk are to be removed, given the time at
    /// which each was modified: by position, in rising order.
    pub fn stale_snapshots(&self, modified: &[u64]) -> (stale: Vec<usize>)
        ensures
            forall|a: int, b: int| 0 <= a < b < stale@.len() ==> stale@[a] < stale@[b],
            forall|k: int|
                0 <= k < stale@.len() ==> is_stale(
                    modified@,
                    self.spec_max_snapshots() as nat,
                    #[trigger] stale@[k] as int,
                ),
            forall|i: int|
                is_stale(modified@, self.spec_max_snapshots() as nat, i) ==> stale@.contains(
                    i as usize,
                ),
            stale@.len() == if modified@.len() > self.spec_max_snapshots() {
                modified@.len() - self.spec_max_snapshots()
            } else {
                0
            },
    {
        let n = modified.len();
        let mut stale: Vec<usize> = Vec::new();
        if n <= self.max_snapshots {
            return stale;
        }
        let excess = n - self.max_snapshots;
        let mut i: usize = 0;
        while i < n
            invariant
                i <= n,
                n == modified@.len(),
                n > self.max_snapshots,
                excess == n - self.max_snapshots,
                forall|a: int, b: int| 0 <= a < b < stale@.len() ==> stale@[a] < stale@[b],
                forall|k: int|
                    0 <= k < stale@.len() ==> (#[trigger] stale@[k]) < i && is_stale(
                        modified@,
                        self.max_snapshots as nat,
                        stale@[k] as int,
                    ),
                forall|j: int|
                    0 <= j < i && is_stale(modified@, self.max_snapshots as nat, j)
                        ==> stale@.contains(j as usize),
            decreases n - i,
        {
            let mut older: usize = 0;
            let mut j: usize = 0;
            while j < n
                invariant
                    j <= n,
                    i < n,
                    n == modified@.len(),
                    older == older_among(modified@, i as int, j as int),
                    older <= j,
                decreases n - j,
            {
                if modified[j] < modified[i] || (modified[j] == modified[i] && j < i) {
                    older = older + 1;
                }
                j = j + 1;
            }
            if older < excess {
                let ghost before = stale@;
                stale.push(i);
                proof {
                    assert forall|j: int|
                        0 <= j < i + 1 && is_stale(
                            modified@,
                            self.max_snapshots as nat,
                            j,
                        ) implies stale@.contains(j as usize) by {
                        if j < i {
                            let at = choose|at: int| 0 <= at < before.len() && before[at] == j as usize;
                            assert(stale@[at] == j as usize);
                        } else {
                            assert(stale@[before.len() as int] == i);
                        }
                    }
                }
            }
            i = i + 1;
        }
        proof {
            lemma_stale_count(modified@, self.max_snapshots as nat, stale@);
        }
        stale
    }
}

/// What was captured is what is restored: the frozen images of any
/// processes thaw to those processes.
pub proof fn lemma_capture_then_restore(
    processes: Seq<(u32, KernelProcess)>,
    snapshots: Seq<ProcessSnapshot>,
)
    requires
        captures_processes(snapshots, processes),
    ensures
        restores_processes(processes, snapshots),
        forall|pid: u32| !first_without_registers(snapshots, pid),
{
    assert forall|i: int| 0 <= i < processes.len() implies thawed(snapshots[i]@) == Some(
        process_model(#[trigger] processes[i]),
    ) by {
        assert(snapshots[i]@ == frozen(process_model(processes[i])));
    }
}

} // verus!
