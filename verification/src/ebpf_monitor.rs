use crate::native::{spelled_by, u32_from_native, u64_from_native};
use dashmap::DashMap;
use std::collections::HashMap;
use vstd::prelude::*;

verus! {

broadcast use vstd::std_specs::hash::group_hash_axioms;

/// Scores are fixed-point numbers in thousandths: `SCORE_ONE` stands for 1.0.
pub const SCORE_ONE: u32 = 1000;

/// A freshly computed score strictly above this value raises an alert.
pub const ALERT_THRESHOLD: u32 = 800;

/// Share of the score given to a class whose error rate is above three in ten.
pub const ERROR_RATE_WEIGHT: u32 = 400;

/// Share of the score given to a class whose average duration is above
/// `SLOW_CALL_NS`.
pub const SLOW_CALL_WEIGHT: u32 = 300;

/// Share of the score given to a class seen more than `BUSY_CALL_COUNT` times.
pub const BUSY_CALL_WEIGHT: u32 = 300;

pub const SLOW_CALL_NS: u64 = 100_000_000;

pub const BUSY_CALL_COUNT: u64 = 1000;

/// Bytes of a raw sample that `decode_sample` reads.
pub const SAMPLE_LEN: usize = 16;

/// One observed syscall invocation: entry and exit stamps and the return code.
#[derive(Clone, Copy, Debug, PartialEq, Eq, Structural)]
pub struct TraceRecord {
    pub pid: u32,
    pub syscall_id: u32,
    pub start_ts: u64,
    pub end_ts: u64,
    pub return_code: i64,
}

/// Running statistics of one syscall class.
#[derive(Clone, Copy, Debug, PartialEq, Eq, Structural)]
pub struct SyscallStat {
    pub count: u64,
    pub error_count: u64,
    /// Two-tap average: each new duration weighs as much as all history.
    pub avg_duration_ns: u64,
    /// Heuristic suspicion in thousandths, always derived from the other fields.
    pub suspicious_score: u32,
}

/// Notice that a syscall class has just scored above `ALERT_THRESHOLD`.
#[derive(Clone, Copy, Debug, PartialEq, Eq, Structural)]
pub struct Alert {
    pub syscall_id: u32,
    pub score: u32,
}

/// What the kernel probe hands over for one slow syscall.
#[derive(Clone, Copy, Debug, PartialEq, Eq, Structural)]
pub struct PerfSample {
    pub pid: u32,
    pub syscall_id: u32,
    pub duration_ns: u64,
}

/// Time between entry and exit; zero where the exit stamp precedes the entry.
pub open spec fn spec_duration(event: TraceRecord) -> u64 {
    if event.end_ts >= event.start_ts {
        (event.end_ts - event.start_ts) as u64
    } else {
        0
    }
}

/// The additive heuristic: 0.4 for an error rate above 0.3, 0.3 for an average
/// duration above 100 ms, 0.3 for more than 1000 calls, capped at 1.0.
pub open spec fn spec_suspicious_score(count: u64, error_count: u64, avg_duration_ns: u64) -> u32 {
    let errors: int = if 10 * error_count > 3 * count { ERROR_RATE_WEIGHT as int } else { 0 };
    let slow: int = if avg_duration_ns > SLOW_CALL_NS { SLOW_CALL_WEIGHT as int } else { 0 };
    let busy: int = if count > BUSY_CALL_COUNT { BUSY_CALL_WEIGHT as int } else { 0 };
    let total = errors + slow + busy;
    if total > SCORE_ONE { SCORE_ONE } else { total as u32 }
}

/// The statistics that follow `prev` once `event` has been counted.
pub open spec fn spec_update(prev: SyscallStat, event: TraceRecord) -> SyscallStat
    recommends
        prev.count < u64::MAX,
{
    let count = (prev.count + 1) as u64;
    let error_count = if event.return_code < 0 {
        (prev.error_count + 1) as u64
    } else {
        prev.error_count
    };
    let avg_duration_ns = ((prev.avg_duration_ns + spec_duration(event)) / 2) as u64;
    SyscallStat {
        count,
        error_count,
        avg_duration_ns,
        suspicious_score: spec_suspicious_score(count, error_count, avg_duration_ns),
    }
}

/// The alert, if any, that a freshly computed statistic raises.
pub open spec fn spec_alert(syscall_id: u32, stat: SyscallStat) -> Option<Alert> {
    if stat.suspicious_score > ALERT_THRESHOLD {
        Some(Alert { syscall_id, score: stat.suspicious_score })
    } else {
        None
    }
}

/// The statistics of `syscall_id` in `stats`, or the empty statistics of a
/// class not seen yet.
pub open spec fn stat_or_blank(stats: Map<u32, SyscallStat>, syscall_id: u32) -> SyscallStat {
    if stats.contains_key(syscall_id) {
        stats[syscall_id]
    } else {
        SyscallStat::blank()
    }
}

/// The statistics reached from `start` by counting `events` in order.
pub open spec fn replay(start: SyscallStat, events: Seq<TraceRecord>) -> SyscallStat
    decreases events.len(),
{
    if events.len() == 0 {
        start
    } else {
        spec_update(replay(start, events.drop_last()), events.last())
    }
}

/// How many of `events` returned a negative code.
pub open spec fn failures(events: Seq<TraceRecord>) -> nat
    decreases events.len(),
{
    if events.len() == 0 {
        0
    } else {
        failures(events.drop_last()) + if events.last().return_code < 0 { 1nat } else { 0nat }
    }
}

impl TraceRecord {
    /// Time between entry and exit, clamped to zero for a malformed record.
    pub fn duration(&self) -> (d: u64)
        ensures
            d == spec_duration(*self),
    {
        if self.end_ts >= self.start_ts {
            self.end_ts - self.start_ts
        } else {
            0
        }
    }
}

impl PerfSample {
    /// The sample as a trace record: it carries a duration and no return code,
    /// so the record starts at zero and reports success.
    pub fn to_record(&self) -> (event: TraceRecord)
        ensures
            event == (TraceRecord {
                pid: self.pid,
                syscall_id: self.syscall_id,
                start_ts: 0,
                end_ts: self.duration_ns,
                return_code: 0,
            }),
            spec_duration(event) == self.duration_ns,
    {
        TraceRecord {
            pid: self.pid,
            syscall_id: self.syscall_id,
            start_ts: 0,
            end_ts: self.duration_ns,
            return_code: 0,
        }
    }
}

impl SyscallStat {
    /// Statistics of a class before its first record.
    pub open spec fn blank() -> SyscallStat {
        SyscallStat { count: 0, error_count: 0, avg_duration_ns: 0, suspicious_score: 0 }
    }

    /// Errors never outnumber calls, and the score is the heuristic of the
    /// other three fields.
    pub open spec fn wf(self) -> bool {
        &&& self.error_count <= self.count
        &&& self.suspicious_score == spec_suspicious_score(
            self.count,
            self.error_count,
            self.avg_duration_ns,
        )
    }

    pub fn new() -> (stat: SyscallStat)
        ensures
            stat == SyscallStat::blank(),
            stat.wf(),
    {
        SyscallStat { count: 0, error_count: 0, avg_duration_ns: 0, suspicious_score: 0 }
    }

    /// Counts one more record.
    pub fn update(&self, event: &TraceRecord) -> (next: SyscallStat)
        requires
            self.count < u64::MAX,
            self.error_count <= self.count,
        ensures
            next == spec_update(*self, *event),
            next.wf(),
    {
        let count = self.count + 1;
        let error_count = if event.return_code < 0 {
            self.error_count + 1
        } else {
            self.error_count
        };
        let duration = event.duration();
        let avg_duration_ns = midpoint(self.avg_duration_ns, duration);
        let mut next = SyscallStat { count, error_count, avg_duration_ns, suspicious_score: 0 };
        next.suspicious_score = EBPFMonitor::calculate_suspicious_score(&next);
        next
    }
}

/// `(a + b) / 2` rounded down, without leaving 64 bits.
pub fn midpoint(a: u64, b: u64) -> (m: u64)
    ensures
        m == (a + b) / 2,
{
    let low: u64 = if a % 2 == 1 && b % 2 == 1 { 1 } else { 0 };
    a / 2 + b / 2 + low
}

/// `dashmap::DashMap`, a sharded concurrent hash map; what it holds is
/// spoken of through `stat_entries` alone.
#[verifier::external_type_specification]
#[verifier::external_body]
#[verifier::reject_recursive_types(K)]
#[verifier::reject_recursive_types(V)]
#[verifier::reject_recursive_types(S)]
pub struct ExDashMap<K, V, S>(DashMap<K, V, S>);

/// The entries that a concurrent map of statistics holds.
pub uninterp spec fn stat_entries(map: DashMap<u32, SyscallStat>) -> Map<u32, SyscallStat>;

/// The statistics before any record has been seen.
pub open spec fn no_stats() -> Map<u32, SyscallStat> {
    Map::empty()
}

/// `pairs` names every entry of `stats` exactly once, in some order.
pub open spec fn lists_entries(pairs: Seq<(u32, SyscallStat)>, stats: Map<u32, SyscallStat>) -> bool {
    &&& forall|i: int|
        0 <= i < pairs.len() ==> stats.contains_key(#[trigger] pairs[i].0) && stats[pairs[i].0]
            == pairs[i].1
    &&& forall|id: u32| #[trigger]
        stats.contains_key(id) ==> exists|i: int| 0 <= i < pairs.len() && #[trigger] pairs[i].0 == id
    &&& forall|i: int, j: int|
        0 <= i < j < pairs.len() ==> #[trigger] pairs[i].0 != #[trigger] pairs[j].0
}

/// `DashMap::new`: the fresh map holds no entry.
#[verifier::external_body]
fn stats_new() -> (map: DashMap<u32, SyscallStat>)
    ensures
        stat_entries(map) == no_stats(),
{
    DashMap::new()
}

/// `DashMap::get`: the value stored under `id`, copied out, or `None` where the
/// map has no such key.
#[verifier::external_body]
fn stats_get(map: &DashMap<u32, SyscallStat>, id: u32) -> (found: Option<SyscallStat>)
    ensures
        found == (if stat_entries(*map).contains_key(id) {
            Some(stat_entries(*map)[id])
        } else {
            None
        }),
{
    map.get(&id).map(|entry| *entry.value())
}

/// `DashMap::insert`: afterwards `id` maps to `stat` and every other key is
/// as before. The map is borrowed exclusively, so no other thread interleaves.
#[verifier::external_body]
fn stats_insert(map: &mut DashMap<u32, SyscallStat>, id: u32, stat: SyscallStat)
    ensures
        stat_entries(*final(map)) == stat_entries(*old(map)).insert(id, stat),
{
    map.insert(id, stat);
}

/// `DashMap::iter`: walks every entry once, in an order that the map's hasher
/// decides; each entry is copied out as a pair.
#[verifier::external_body]
fn stats_pairs(map: &DashMap<u32, SyscallStat>) -> (pairs: Vec<(u32, SyscallStat)>)
    ensures
        lists_entries(pairs@, stat_entries(*map)),
{
    map.iter().map(|entry| (*entry.key(), *entry.value())).collect()
}

/// Live statistics per syscall class. Counting a record takes the monitor
/// exclusively; reading and copying share it.
pub struct EBPFMonitor {
    syscall_stats: DashMap<u32, SyscallStat>,
}

impl View for EBPFMonitor {
    type V = Map<u32, SyscallStat>;

    closed spec fn view(&self) -> Map<u32, SyscallStat> {
        stat_entries(self.syscall_stats)
    }
}

/// Every statistic of `stats` is well formed.
pub open spec fn all_well_formed(stats: Map<u32, SyscallStat>) -> bool {
    forall|id: u32| #[trigger] stats.contains_key(id) ==> stats[id].wf()
}

impl EBPFMonitor {
    /// Every stored statistic is well formed. A monitor made by `new` and
    /// changed by `record` alone is.
    pub open spec fn wf(&self) -> bool {
        all_well_formed(self@)
    }

    /// Whether one more record of `syscall_id` can be counted in 64 bits.
    pub open spec fn has_room(&self, syscall_id: u32) -> bool {
        stat_or_blank(self@, syscall_id).count < u64::MAX
    }

    /// A monitor that has seen no record.
    pub fn new() -> (monitor: EBPFMonitor)
        ensures
            monitor@ == no_stats(),
            monitor.wf(),
    {
        EBPFMonitor { syscall_stats: stats_new() }
    }

    /// The heuristic score of `stat`, from its counters alone.
    pub fn calculate_suspicious_score(stat: &SyscallStat) -> (score: u32)
        ensures
            score == spec_suspicious_score(stat.count, stat.error_count, stat.avg_duration_ns),
            score <= SCORE_ONE,
    {
        let mut score: u32 = 0;
        let errors: u128 = 10u128 * (stat.error_count as u128);
        let calls: u128 = 3u128 * (stat.count as u128);
        if errors > calls {
            score = score + ERROR_RATE_WEIGHT;
        }
        if stat.avg_duration_ns > SLOW_CALL_NS {
            score = score + SLOW_CALL_WEIGHT;
        }
        if stat.count > BUSY_CALL_COUNT {
            score = score + BUSY_CALL_WEIGHT;
        }
        if score > SCORE_ONE {
            SCORE_ONE
        } else {
            score
        }
    }

    /// The statistics of one class, if it has been seen. Statistics handed
    /// out are well formed: errors never outnumber calls.
    pub fn get(&self, syscall_id: u32) -> (found: Option<SyscallStat>)
        ensures
            found == (if self@.contains_key(syscall_id) {
                Some(self@[syscall_id])
            } else {
                None
            }),
            self.wf() ==> (found matches Some(stat) ==> stat.wf()),
    {
        stats_get(&self.syscall_stats, syscall_id)
    }

    /// Counts `event` under its syscall class, creating the class on first
    /// sight, and reports an alert where the new score is above the threshold.
    pub fn record(&mut self, event: &TraceRecord) -> (alert: Option<Alert>)
        requires
            old(self).wf(),
            old(self).has_room(event.syscall_id),
        ensures
            final(self).wf(),
            final(self)@ == old(self)@.insert(
                event.syscall_id,
                spec_update(stat_or_blank(old(self)@, event.syscall_id), *event),
            ),
            alert == spec_alert(event.syscall_id, final(self)@[event.syscall_id]),
    {
        let prev = match stats_get(&self.syscall_stats, event.syscall_id) {
            Some(stat) => stat,
            None => SyscallStat::new(),
        };
        let next = prev.update(event);
        stats_insert(&mut self.syscall_stats, event.syscall_id, next);
        if next.suspicious_score > ALERT_THRESHOLD {
            Some(Alert { syscall_id: event.syscall_id, score: next.suspicious_score })
        } else {
            None
        }
    }

    /// The highest score among the syscall classes of a window; zero where
    /// none of them has been seen.
    pub fn peak_score(&self, syscall_ids: &[u32]) -> (peak: u32)
        ensures
            forall|k: int|
                0 <= k < syscall_ids@.len() ==> stat_or_blank(
                    self@,
                    #[trigger] syscall_ids@[k],
                ).suspicious_score <= peak,
            peak == 0 || exists|k: int|
                0 <= k < syscall_ids@.len() && stat_or_blank(
                    self@,
                    #[trigger] syscall_ids@[k],
                ).suspicious_score == peak,
            self.wf() ==> peak <= SCORE_ONE,
    {
        let mut peak: u32 = 0;
        let mut i: usize = 0;
        while i < syscall_ids.len()
            invariant
                i <= syscall_ids.len(),
                forall|k: int|
                    0 <= k < i ==> stat_or_blank(
                        self@,
                        #[trigger] syscall_ids@[k],
                    ).suspicious_score <= peak,
                peak == 0 || exists|k: int|
                    0 <= k < i && stat_or_blank(
                        self@,
                        #[trigger] syscall_ids@[k],
                    ).suspicious_score == peak,
            decreases syscall_ids.len() - i,
        {
            let score = match stats_get(&self.syscall_stats, syscall_ids[i]) {
                Some(stat) => stat.suspicious_score,
                None => 0,
            };
            if score > peak {
                peak = score;
            }
            i = i + 1;
        }
        peak
    }

    /// A copy of the statistics as they stand.
    pub fn snapshot(&self) -> (snap: HashMap<u32, SyscallStat>)
        ensures
            snap@ == self@,
            self.wf() ==> all_well_formed(snap@),
    {
        let pairs = stats_pairs(&self.syscall_stats);
        let mut snap: HashMap<u32, SyscallStat> = HashMap::new();
        let mut i: usize = 0;
        while i < pairs.len()
            invariant
                i <= pairs.len(),
                lists_entries(pairs@, self@),
                forall|id: u32| #[trigger]
                    snap@.contains_key(id) <==> exists|j: int|
                        0 <= j < i && #[trigger] pairs@[j].0 == id,
                forall|id: u32| #[trigger] snap@.contains_key(id) ==> snap@[id] == self@[id],
            decreases pairs.len() - i,
        {
            let (id, stat) = pairs[i];
            snap.insert(id, stat);
            i = i + 1;
        }
        assert(snap@ =~= self@);
        snap
    }
}

/// Errors never outnumber calls: after any run of records of one class, counted
/// from the blank statistics, `count` is the number of records and
/// `error_count` the number of those with a negative return code.
pub proof fn lemma_errors_within_count(events: Seq<TraceRecord>)
    requires
        events.len() <= u64::MAX,
    ensures
        replay(SyscallStat::blank(), events).count == events.len(),
        replay(SyscallStat::blank(), events).error_count == failures(events),
        replay(SyscallStat::blank(), events).error_count <= replay(
            SyscallStat::blank(),
            events,
        ).count,
        replay(SyscallStat::blank(), events).wf(),
    decreases events.len(),
{
    if events.len() > 0 {
        lemma_errors_within_count(events.drop_last());
    }
}

/// The score depends on the three counters and on nothing else: statistics
/// that agree on them score alike, and a well-formed statistic already holds
/// the score that recomputing gives.
pub proof fn lemma_score_is_determined(a: SyscallStat, b: SyscallStat)
    requires
        a.count == b.count,
        a.error_count == b.error_count,
        a.avg_duration_ns == b.avg_duration_ns,
    ensures
        spec_suspicious_score(a.count, a.error_count, a.avg_duration_ns) == spec_suspicious_score(
            b.count,
            b.error_count,
            b.avg_duration_ns,
        ),
        a.wf() && b.wf() ==> a.suspicious_score == b.suspicious_score,
        spec_suspicious_score(a.count, a.error_count, a.avg_duration_ns) <= SCORE_ONE,
{
}

/// Two copies taken of the same monitor, with no record in between, hold the
/// same statistics.
pub proof fn lemma_snapshot_is_stable(
    monitor: EBPFMonitor,
    first: HashMap<u32, SyscallStat>,
    second: HashMap<u32, SyscallStat>,
)
    requires
        first@ == monitor@,
        second@ == monitor@,
    ensures
        first@ == second@,
        forall|id: u32| first@.contains_key(id) <==> second@.contains_key(id),
        forall|id: u32| first@.contains_key(id) ==> first@[id] == second@[id],
{
}

/// Reads a raw sample as the probe lays it out: process id, syscall id and
/// duration, each in the machine's byte order. Shorter input is no sample;
/// bytes past the sixteenth are ignored.
pub fn decode_sample(data: &[u8]) -> (sample: Option<PerfSample>)
    ensures
        sample is None <==> data@.len() < SAMPLE_LEN,
        sample matches Some(s) ==> {
            &&& spelled_by(s.pid as nat, data@.subrange(0, 4))
            &&& spelled_by(s.syscall_id as nat, data@.subrange(4, 8))
            &&& spelled_by(s.duration_ns as nat, data@.subrange(8, 16))
        },
{
    if data.len() < SAMPLE_LEN {
        return None;
    }
    let pid_bytes: [u8; 4] = [data[0], data[1], data[2], data[3]];
    let id_bytes: [u8; 4] = [data[4], data[5], data[6], data[7]];
    let duration_bytes: [u8; 8] = [
        data[8],
        data[9],
        data[10],
        data[11],
        data[12],
        data[13],
        data[14],
        data[15],
    ];
    assert(pid_bytes@ =~= data@.subrange(0, 4));
    assert(id_bytes@ =~= data@.subrange(4, 8));
    assert(duration_bytes@ =~= data@.subrange(8, 16));
    Some(
        PerfSample {
            pid: u32_from_native(pid_bytes),
            syscall_id: u32_from_native(id_bytes),
            duration_ns: u64_from_native(duration_bytes),
        },
    )
}

} // verus!
