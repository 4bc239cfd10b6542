use crate::ebpf_monitor::ALERT_THRESHOLD;
use crate::ml_detector::DetectError;
use std::collections::HashMap;
use vstd::prelude::*;

verus! {

broadcast use vstd::std_specs::hash::group_hash_axioms;

/// The privilege level of root, the one that counts as elevated.
pub const ROOT_PRIVILEGE: u8 = 0;

/// Recommended flag threshold, the same as the heuristic's alert threshold.
pub const DEFAULT_FLAG_THRESHOLD: u32 = ALERT_THRESHOLD;

/// What a detection cycle found, and by which means. Scores are in
/// thousandths.
#[derive(Clone, Copy, Debug, PartialEq, Eq, Structural)]
pub enum Verdict {
    /// The model gave no score this cycle; only the heuristic speaks.
    HeuristicOnly { heuristic: u32 },
    /// The model scored the window.
    MlAugmented { heuristic: u32, anomaly: u32 },
}

/// Where a monitored process stands.
#[derive(Clone, Copy, Debug, PartialEq, Eq, Structural)]
pub enum DetectionState {
    Observing,
    Flagged,
    Escalated,
    Mitigated,
}

/// The state of one process and the stamp that its timers run from: the
/// latest flag, or the entry into the state where that came later.
#[derive(Clone, Copy, Debug, PartialEq, Eq, Structural)]
pub struct ProcessTrack {
    pub state: DetectionState,
    pub since: u64,
}

/// What can happen to a monitored process.
#[derive(Clone, Copy, Debug, PartialEq, Eq, Structural)]
pub enum Event {
    /// A detection cycle ended with `verdict` while the process ran at
    /// `privilege_level`.
    Scored { verdict: Verdict, privilege_level: u8, at: u64 },
    /// A collaborator reports that mitigation is complete.
    MitigationAck { at: u64 },
    /// An operator declares the process mitigated.
    OperatorOverride { at: u64 },
    /// Time has passed.
    Tick { at: u64 },
}

/// The outcome of one event: the state left, the track entered, and whether
/// the mitigation requests (token revocation, layout regeneration, snapshot
/// capture) are to be sent.
#[derive(Clone, Copy, Debug, PartialEq, Eq, Structural)]
pub struct Step {
    pub from: DetectionState,
    pub track: ProcessTrack,
    pub mitigate: bool,
}

/// Settings of the coordinator, fixed at construction. Times share the unit
/// of the event stamps.
#[derive(Clone, Debug, PartialEq, Eq)]
pub struct CoordinatorConfig {
    /// A deciding score strictly above this is a flag.
    pub flag_threshold: u32,
    /// A second flag this soon after the first escalates.
    pub escalation_window: u64,
    /// Quiet time after which an escalated or mitigated process is observed
    /// afresh.
    pub cooldown: u64,
    /// Number of syscalls after which features are extracted again.
    pub extraction_cadence: u64,
    /// Deadline of one model inference, in milliseconds.
    pub inference_timeout_ms: u64,
    pub model_path: String,
}

/// Time from `since` to `at`; zero where the stamps arrive out of order.
pub open spec fn elapsed(since: u64, at: u64) -> u64 {
    if at >= since {
        (at - since) as u64
    } else {
        0
    }
}

/// The later of two stamps.
pub open spec fn later(a: u64, b: u64) -> u64 {
    if a >= b {
        a
    } else {
        b
    }
}

pub open spec fn elevated(privilege_level: u8) -> bool {
    privilege_level == ROOT_PRIVILEGE
}

impl Verdict {
    /// Model score where there is one, heuristic-only otherwise: every
    /// scoring failure degrades instead of failing the cycle.
    pub open spec fn spec_from_scoring(heuristic: u32, scored: Result<u32, DetectError>) -> Verdict {
        match scored {
            Ok(anomaly) => Verdict::MlAugmented { heuristic, anomaly },
            Err(_) => Verdict::HeuristicOnly { heuristic },
        }
    }

    /// The score that decides: the model's where present, else the heuristic.
    pub open spec fn spec_score(self) -> u32 {
        match self {
            Verdict::HeuristicOnly { heuristic } => heuristic,
            Verdict::MlAugmented { anomaly, .. } => anomaly,
        }
    }

    pub open spec fn spec_is_degraded(self) -> bool {
        self is HeuristicOnly
    }

    pub fn from_scoring(heuristic: u32, scored: Result<u32, DetectError>) -> (verdict: Verdict)
        ensures
            verdict == Verdict::spec_from_scoring(heuristic, scored),
            verdict.spec_is_degraded() <==> scored is Err,
    {
        match scored {
            Ok(anomaly) => Verdict::MlAugmented { heuristic, anomaly },
            Err(_) => Verdict::HeuristicOnly { heuristic },
        }
    }

    pub fn score(&self) -> (score: u32)
        ensures
            score == self.spec_score(),
    {
        match self {
            Verdict::HeuristicOnly { heuristic } => *heuristic,
            Verdict::MlAugmented { anomaly, .. } => *anomaly,
        }
    }

    pub fn is_degraded(&self) -> (degraded: bool)
        ensures
            degraded == self.spec_is_degraded(),
    {
        match self {
            Verdict::HeuristicOnly { .. } => true,
            Verdict::MlAugmented { .. } => false,
        }
    }
}

impl Event {
    pub open spec fn spec_at(self) -> u64 {
        match self {
            Event::Scored { at, .. } => at,
            Event::MitigationAck { at } => at,
            Event::OperatorOverride { at } => at,
            Event::Tick { at } => at,
        }
    }
}

impl ProcessTrack {
    /// The track of a process that has raised nothing yet.
    pub open spec fn observing() -> ProcessTrack {
        ProcessTrack { state: DetectionState::Observing, since: 0 }
    }

    pub fn new() -> (track: ProcessTrack)
        ensures
            track == ProcessTrack::observing(),
    {
        ProcessTrack { state: DetectionState::Observing, since: 0 }
    }
}

impl CoordinatorConfig {
    /// Whether `verdict` counts as a flag.
    pub open spec fn spec_is_flag(&self, verdict: Verdict) -> bool {
        verdict.spec_score() > self.flag_threshold
    }

    /// The track after a flag raised at `at` by a process at
    /// `privilege_level`.
    pub open spec fn spec_on_flag(&self, track: ProcessTrack, privilege_level: u8, at: u64) -> ProcessTrack {
        match track.state {
            DetectionState::Observing => if elevated(privilege_level) {
                ProcessTrack { state: DetectionState::Escalated, since: at }
            } else {
                ProcessTrack { state: DetectionState::Flagged, since: at }
            },
            DetectionState::Flagged => if elevated(privilege_level) || elapsed(track.since, at)
                <= self.escalation_window {
                ProcessTrack { state: DetectionState::Escalated, since: later(track.since, at) }
            } else {
                ProcessTrack { state: DetectionState::Flagged, since: at }
            },
            DetectionState::Escalated => ProcessTrack {
                state: DetectionState::Escalated,
                since: later(track.since, at),
            },
            DetectionState::Mitigated => ProcessTrack {
                state: DetectionState::Mitigated,
                since: later(track.since, at),
            },
        }
    }

    /// The track that follows `track` on `event`.
    pub open spec fn spec_next(&self, track: ProcessTrack, event: Event) -> ProcessTrack {
        match event {
            Event::Scored { verdict, privilege_level, at } => if self.spec_is_flag(verdict) {
                self.spec_on_flag(track, privilege_level, at)
            } else {
                track
            },
            Event::MitigationAck { at } => if track.state is Escalated {
                ProcessTrack { state: DetectionState::Mitigated, since: later(track.since, at) }
            } else {
                track
            },
            Event::OperatorOverride { at } => if track.state is Escalated {
                ProcessTrack { state: DetectionState::Mitigated, since: later(track.since, at) }
            } else {
                track
            },
            Event::Tick { at } => if (track.state is Escalated || track.state is Mitigated)
                && elapsed(track.since, at) >= self.cooldown {
                ProcessTrack { state: DetectionState::Observing, since: at }
            } else {
                track
            },
        }
    }

    /// Mitigation is requested exactly when the event brings the process
    /// into `Escalated` from another state.
    pub open spec fn spec_step(&self, track: ProcessTrack, event: Event) -> Step {
        let next = self.spec_next(track, event);
        Step {
            from: track.state,
            track: next,
            mitigate: !(track.state is Escalated) && next.state is Escalated,
        }
    }

    /// Whether features are due: the cadence has run out, or some syscall
    /// class has just scored above the alert threshold.
    pub open spec fn spec_extraction_due(&self, calls_since_last: u64, heuristic: u32) -> bool {
        calls_since_last >= self.extraction_cadence || heuristic > ALERT_THRESHOLD
    }

    pub fn is_flag(&self, verdict: &Verdict) -> (flag: bool)
        ensures
            flag == self.spec_is_flag(*verdict),
    {
        verdict.score() > self.flag_threshold
    }

    pub fn extraction_due(&self, calls_since_last: u64, heuristic: u32) -> (due: bool)
        ensures
            due == self.spec_extraction_due(calls_since_last, heuristic),
    {
        calls_since_last >= self.extraction_cadence || heuristic > ALERT_THRESHOLD
    }

    /// Applies one event to the track of a process.
    pub fn step(&self, track: &ProcessTrack, event: &Event) -> (step: Step)
        ensures
            step == self.spec_step(*track, *event),
    {
        let next = match event {
            Event::Scored { verdict, privilege_level, at } => {
                if self.is_flag(verdict) {
                    self.on_flag(track, *privilege_level, *at)
                } else {
                    *track
                }
            },
            Event::MitigationAck { at } => mitigated_from(track, *at),
            Event::OperatorOverride { at } => mitigated_from(track, *at),
            Event::Tick { at } => {
                let cooling = match track.state {
                    DetectionState::Escalated => true,
                    DetectionState::Mitigated => true,
                    _ => false,
                };
                if cooling && time_between(track.since, *at) >= self.cooldown {
                    ProcessTrack { state: DetectionState::Observing, since: *at }
                } else {
                    *track
                }
            },
        };
        let was_escalated = match track.state {
            DetectionState::Escalated => true,
            _ => false,
        };
        let is_escalated = match next.state {
            DetectionState::Escalated => true,
            _ => false,
        };
        Step { from: track.state, track: next, mitigate: !was_escalated && is_escalated }
    }

    fn on_flag(&self, track: &ProcessTrack, privilege_level: u8, at: u64) -> (next: ProcessTrack)
        ensures
            next == self.spec_on_flag(*track, privilege_level, at),
    {
        let root = privilege_level == ROOT_PRIVILEGE;
        match track.state {
            DetectionState::Observing => {
                if root {
                    ProcessTrack { state: DetectionState::Escalated, since: at }
                } else {
                    ProcessTrack { state: DetectionState::Flagged, since: at }
                }
            },
            DetectionState::Flagged => {
                if root || time_between(track.since, at) <= self.escalation_window {
                    ProcessTrack {
                        state: DetectionState::Escalated,
                        since: later_of(track.since, at),
                    }
                } else {
                    ProcessTrack { state: DetectionState::Flagged, since: at }
                }
            },
            DetectionState::Escalated => ProcessTrack {
                state: DetectionState::Escalated,
                since: later_of(track.since, at),
            },
            DetectionState::Mitigated => ProcessTrack {
                state: DetectionState::Mitigated,
                since: later_of(track.since, at),
            },
        }
    }
}

fn time_between(since: u64, at: u64) -> (gap: u64)
    ensures
        gap == elapsed(since, at),
{
    if at >= since {
        at - since
    } else {
        0
    }
}

fn later_of(a: u64, b: u64) -> (stamp: u64)
    ensures
        stamp == later(a, b),
{
    if a >= b {
        a
    } else {
        b
    }
}

fn mitigated_from(track: &ProcessTrack, at: u64) -> (next: ProcessTrack)
    ensures
        next == (if track.state is Escalated {
            ProcessTrack { state: DetectionState::Mitigated, since: later(track.since, at) }
        } else {
            *track
        }),
{
    match track.state {
        DetectionState::Escalated => ProcessTrack {
            state: DetectionState::Mitigated,
            since: later_of(track.since, at),
        },
        _ => *track,
    }
}

/// The track of `pid` in a table; a process not in the table is observed.
pub open spec fn track_or_new(tracks: Map<u32, ProcessTrack>, pid: u32) -> ProcessTrack {
    if tracks.contains_key(pid) {
        tracks[pid]
    } else {
        ProcessTrack::observing()
    }
}

/// The state table of all monitored processes.
pub struct DetectionCoordinator {
    config: CoordinatorConfig,
    tracks: HashMap<u32, ProcessTrack>,
}

impl View for DetectionCoordinator {
    type V = Map<u32, ProcessTrack>;

    closed spec fn view(&self) -> Map<u32, ProcessTrack> {
        self.tracks@
    }
}

impl DetectionCoordinator {
    pub closed spec fn spec_config(&self) -> CoordinatorConfig {
        self.config
    }

    /// A coordinator that tracks no process yet.
    pub fn new(config: CoordinatorConfig) -> (coordinator: DetectionCoordinator)
        ensures
            coordinator@ == Map::<u32, ProcessTrack>::empty(),
            coordinator.spec_config() == config,
    {
        DetectionCoordinator { config, tracks: HashMap::new() }
    }

    pub fn config(&self) -> (config: &CoordinatorConfig)
        ensures
            *config == self.spec_config(),
    {
        &self.config
    }

    /// Where `pid` stands; a process never heard of is observed.
    pub fn track_of(&self, pid: u32) -> (track: ProcessTrack)
        ensures
            track == track_or_new(self@, pid),
    {
        match self.tracks.get(&pid) {
            Some(track) => *track,
            None => ProcessTrack::new(),
        }
    }

    /// Applies `event` to the process `pid` and records where it stands now.
    pub fn handle(&mut self, pid: u32, event: &Event) -> (step: Step)
        ensures
            step == old(self).spec_config().spec_step(track_or_new(old(self)@, pid), *event),
            final(self)@ == old(self)@.insert(pid, step.track),
            final(self).spec_config() == old(self).spec_config(),
    {
        let track = self.track_of(pid);
        let step = self.config.step(&track, event);
        self.tracks.insert(pid, step.track);
        step
    }
}

/// Flags escalate once: from `Observing`, three flags of which the second
/// comes within the escalation window of the first, or of which one of the
/// first two comes from root, leave the process `Escalated`, and exactly one
/// of the three steps asks for mitigation. The third flag, met while already
/// `Escalated`, asks for none.
pub proof fn lemma_three_flags_escalate_once(
    config: CoordinatorConfig,
    first: Event,
    second: Event,
    third: Event,
)
    requires
        first matches Event::Scored { verdict, .. } && config.spec_is_flag(verdict),
        second matches Event::Scored { verdict, .. } && config.spec_is_flag(verdict),
        third matches Event::Scored { verdict, .. } && config.spec_is_flag(verdict),
        ({
            ||| elapsed(first.spec_at(), second.spec_at()) <= config.escalation_window
            ||| first matches Event::Scored { privilege_level, .. } && elevated(privilege_level)
            ||| second matches Event::Scored { privilege_level, .. } && elevated(privilege_level)
        }),
    ensures
        ({
            let one = config.spec_step(ProcessTrack::observing(), first);
            let two = config.spec_step(one.track, second);
            let three = config.spec_step(two.track, third);
            &&& two.track.state is Escalated
            &&& three.track.state is Escalated
            &&& !three.mitigate
            &&& (one.mitigate && !two.mitigate) || (!one.mitigate && two.mitigate)
        }),
{
}

/// No event asks for mitigation of a process that is already `Escalated`, and
/// whenever mitigation is asked for, the process has just become `Escalated`.
pub proof fn lemma_mitigation_on_entry_only(
    config: CoordinatorConfig,
    track: ProcessTrack,
    event: Event,
)
    ensures
        track.state is Escalated ==> !config.spec_step(track, event).mitigate,
        config.spec_step(track, event).mitigate ==> config.spec_step(track, event).track.state
            is Escalated && event is Scored,
{
}

} // verus!
