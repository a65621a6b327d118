//! Decisions of the stream supervisor: which encoder/quality rung to run,
//! when an ffmpeg child counts as live, stalled or too slow, and what to
//! do after it ends (stop, fall back, restart, or give up).
use crate::app_state::AppState;
use crate::encoder::Rung;
use crate::progress::ProgressBlock;
use crate::types::Encoder;
use vstd::prelude::*;

verus! {

/// Mid-race restarts allowed before the stream is declared lost.
pub const MAX_RESTARTS: u32 = 3;

/// Delay before a mid-race restart, in milliseconds.
pub const RESTART_DELAY_MS: u64 = 5_000;

/// A live stream without progress for this long is killed.
pub const PROGRESS_STALL_MS: u64 = 10_000;

/// Time a software encode may take to go live.
pub const PRELIVE_TIMEOUT_MS: u64 = 20_000;

/// Time a hardware encode may take to go live.
pub const PRELIVE_TIMEOUT_HW_MS: u64 = 8_000;

/// No speed verdict before the child has run this long.
pub const REALTIME_GRACE_MS: u64 = 10_000;

/// Sustained slowness for this long means the machine cannot keep up.
pub const REALTIME_SLOW_WINDOW_MS: u64 = 5_000;

/// How one ffmpeg child ended.
#[derive(Debug, Clone, Copy, PartialEq, Eq, Structural)]
pub enum Outcome {
    /// A graceful stop was requested.
    Stopped,
    /// ffmpeg exited, stalled, or never went live.
    Died,
    /// The encoder could not keep up in real time.
    TooSlow,
}

/// Why the supervisor gives up.
#[derive(Debug, Clone, Copy, PartialEq, Eq, Structural)]
pub enum FailReason {
    /// Every rung of the ladder failed.
    NoEncoder,
    /// Mid-race restarts are exhausted.
    StreamLost,
    /// The stream died before the race started.
    StreamEnded,
}

impl FailReason {
    /// The status message shown for this failure.
    pub fn message(self) -> (r: &'static str)
        ensures
            r@ == fail_message(self),
    {
        match self {
            FailReason::NoEncoder => "no encoder could sustain the stream",
            FailReason::StreamLost => "stream lost",
            FailReason::StreamEnded => "stream ended",
        }
    }
}

pub open spec fn fail_message(f: FailReason) -> Seq<char> {
    match f {
        FailReason::NoEncoder => "no encoder could sustain the stream"@,
        FailReason::StreamLost => "stream lost"@,
        FailReason::StreamEnded => "stream ended"@,
    }
}

/// What the caller waiting for the stream to go live is told when no
/// rung of the ladder could sustain it.
pub const NO_ENCODER_DETAIL: &'static str =
    "no encoder could sustain the stream on this machine — copy the debug logs for details";

/// What the supervisor does after a child ended.
#[derive(Debug, Clone, Copy, PartialEq, Eq, Structural)]
pub enum Action {
    /// Report the stream stopped and end supervision.
    Stop,
    /// Mark the replay as mixed-encoder, poison the encoder if given, and
    /// try the next rung of the ladder.
    NextRung { poison: Option<Encoder> },
    /// Report reconnecting, wait `RESTART_DELAY_MS` (ending supervision
    /// if a stop arrives meanwhile), then run the same rung again.
    Restart,
    /// Report the error and end supervision; with `back_to_setup`, first
    /// tell the backend the stream stopped and return to stream setup.
    Fail { reason: FailReason, back_to_setup: bool },
}

/// The supervisor's memory across attempts.
#[derive(Debug, Clone, Copy, PartialEq, Eq, Structural)]
pub struct Supervisor {
    /// Index of the ladder rung being run.
    pub rung_idx: usize,
    /// Whether any attempt has gone live.
    pub ever_live: bool,
    /// The encoder last announced to the UI.
    pub last_emitted: Option<Encoder>,
    /// Mid-race restarts since the stream was last live.
    pub attempt: u32,
    /// Replay run number of the current attempt.
    pub segment: u32,
}

/// The supervisor's next state and action after an attempt on rung
/// encoder `enc` ended with `outcome`, given whether that attempt went
/// live, whether its error tail shows a hardware-encoder failure, and
/// the client phase at that moment.
pub open spec fn spec_after_attempt(
    s: Supervisor,
    enc: Encoder,
    outcome: Outcome,
    went_live: bool,
    hw_failed: bool,
    phase: AppState,
) -> (Supervisor, Action) {
    let s1 = Supervisor {
        last_emitted: if went_live { Some(enc) } else { s.last_emitted },
        ever_live: s.ever_live || went_live,
        ..s
    };
    let advance = Supervisor {
        rung_idx: (s1.rung_idx + 1) as usize,
        segment: next_segment(s1.segment),
        ..s1
    };
    match outcome {
        Outcome::Stopped => (s1, Action::Stop),
        Outcome::TooSlow => (advance, Action::NextRung { poison: None }),
        Outcome::Died => if !s1.ever_live && hw_failed {
            (advance, Action::NextRung { poison: Some(enc) })
        } else {
            let attempt0: u32 = if went_live {
                0
            } else {
                s1.attempt
            };
            if phase == AppState::RaceInProgress {
                let attempt = (attempt0 + 1) as u32;
                if attempt > MAX_RESTARTS {
                    (
                        Supervisor { attempt, ..s1 },
                        Action::Fail { reason: FailReason::StreamLost, back_to_setup: false },
                    )
                } else {
                    (
                        Supervisor { attempt, segment: next_segment(s1.segment), ..s1 },
                        Action::Restart,
                    )
                }
            } else {
                (
                    Supervisor { attempt: attempt0, ..s1 },
                    Action::Fail {
                        reason: FailReason::StreamEnded,
                        back_to_setup: phase == AppState::StreamSetup || phase
                            == AppState::WaitingForStart,
                    },
                )
            }
        },
    }
}

/// The next replay run number (saturating at the largest one).
pub open spec fn next_segment(seg: u32) -> u32 {
    if seg < u32::MAX {
        (seg + 1) as u32
    } else {
        seg
    }
}

impl Supervisor {
    /// Starting state: first rung, nothing live yet.
    pub fn new() -> (r: Self)
        ensures
            r == (Supervisor {
                rung_idx: 0,
                ever_live: false,
                last_emitted: None,
                attempt: 0,
                segment: 0,
            }),
    {
        Supervisor { rung_idx: 0, ever_live: false, last_emitted: None, attempt: 0, segment: 0 }
    }

    /// The rung to run now, or `None` when the ladder is exhausted.
    pub fn current_rung(&self, ladder: &[Rung]) -> (r: Option<Rung>)
        ensures
            r == (if self.rung_idx < ladder@.len() {
                Some(ladder@[self.rung_idx as int])
            } else {
                None
            }),
    {
        if self.rung_idx < ladder.len() {
            Some(ladder[self.rung_idx])
        } else {
            None
        }
    }

    /// What to do before an attempt: run the current rung, or, once every
    /// rung has been tried, fail with `FailReason::NoEncoder` (the caller
    /// waiting for the stream gets `NO_ENCODER_DETAIL`).
    pub fn next_attempt(&self, ladder: &[Rung]) -> (r: Result<Rung, Action>)
        ensures
            r == (if self.rung_idx < ladder@.len() {
                Ok::<Rung, Action>(ladder@[self.rung_idx as int])
            } else {
                Err::<Rung, Action>(Action::Fail { reason: FailReason::NoEncoder, back_to_setup: false })
            }),
    {
        if self.rung_idx < ladder.len() {
            Ok(ladder[self.rung_idx])
        } else {
            Err(Action::Fail { reason: FailReason::NoEncoder, back_to_setup: false })
        }
    }

    /// Whether to announce `enc` as the effective encoder: the attempt
    /// went live and the UI was last told of a different encoder.
    pub fn should_announce(&self, enc: Encoder, went_live: bool) -> (r: bool)
        ensures
            r == (went_live && self.last_emitted != Some(enc)),
    {
        went_live && self.last_emitted != Some(enc)
    }

    /// Advances after an attempt on `enc` ended; the attempt ran the rung
    /// at `rung_idx`, which exists in a ladder of `ladder_len` rungs. The
    /// restart count never exceeds `MAX_RESTARTS` while supervision goes
    /// on (see `law_supervisor_progress`).
    pub fn after_attempt(
        &mut self,
        ladder_len: usize,
        enc: Encoder,
        outcome: Outcome,
        went_live: bool,
        hw_failed: bool,
        phase: AppState,
    ) -> (action: Action)
        requires
            old(self).rung_idx < ladder_len,
            old(self).attempt <= MAX_RESTARTS,
        ensures
            (*final(self), action) == spec_after_attempt(
                *old(self),
                enc,
                outcome,
                went_live,
                hw_failed,
                phase,
            ),
    {
        if went_live {
            self.last_emitted = Some(enc);
            self.ever_live = true;
        }
        match outcome {
            Outcome::Stopped => Action::Stop,
            Outcome::TooSlow => {
                self.rung_idx = self.rung_idx + 1;
                self.segment = step_segment(self.segment);
                Action::NextRung { poison: None }
            },
            Outcome::Died => {
                if !self.ever_live && hw_failed {
                    self.rung_idx = self.rung_idx + 1;
                    self.segment = step_segment(self.segment);
                    return Action::NextRung { poison: Some(enc) };
                }
                if went_live {
                    self.attempt = 0;
                }
                if phase == AppState::RaceInProgress {
                    self.attempt = self.attempt + 1;
                    if self.attempt > MAX_RESTARTS {
                        return Action::Fail { reason: FailReason::StreamLost, back_to_setup: false };
                    }
                    self.segment = step_segment(self.segment);
                    Action::Restart
                } else {
                    Action::Fail {
                        reason: FailReason::StreamEnded,
                        back_to_setup: phase == AppState::StreamSetup || phase
                            == AppState::WaitingForStart,
                    }
                }
            },
        }
    }
}

fn step_segment(seg: u32) -> (r: u32)
    ensures
        r == next_segment(seg),
{
    if seg < u32::MAX {
        seg + 1
    } else {
        seg
    }
}

/// The supervisor only moves forward: the rung index never decreases,
/// a stop request always stops, falling back moves exactly one rung
/// down the ladder, and a mid-race restart is never issued beyond
/// `MAX_RESTARTS` consecutive deaths.
pub proof fn law_supervisor_progress(
    s: Supervisor,
    enc: Encoder,
    outcome: Outcome,
    went_live: bool,
    hw_failed: bool,
    phase: AppState,
)
    requires
        s.attempt <= MAX_RESTARTS,
        s.rung_idx < usize::MAX,
    ensures
        ({
            let (t, a) = spec_after_attempt(s, enc, outcome, went_live, hw_failed, phase);
            &&& t.rung_idx >= s.rung_idx
            &&& (outcome == Outcome::Stopped <==> a == Action::Stop)
            &&& (a is NextRung <==> t.rung_idx == s.rung_idx + 1)
            &&& (a == Action::Restart ==> 1 <= t.attempt <= MAX_RESTARTS && phase
                == AppState::RaceInProgress && t.rung_idx == s.rung_idx)
            &&& (a is Fail ==> outcome == Outcome::Died)
        }),
{
}

/// A hardware encoder that fails before the stream was ever live is
/// abandoned for the rest of the session; once the stream has been live,
/// deaths are treated as transient instead.
pub proof fn law_hw_failure_falls_back(
    s: Supervisor,
    enc: Encoder,
    went_live: bool,
    phase: AppState,
)
    requires
        s.rung_idx < usize::MAX,
    ensures
        !s.ever_live && !went_live ==> spec_after_attempt(s, enc, Outcome::Died, went_live, true, phase).1
            == (Action::NextRung { poison: Some(enc) }),
        s.ever_live ==> !(spec_after_attempt(s, enc, Outcome::Died, went_live, true, phase).1 is NextRung),
{
}

/// Tracks progress blocks of one child to decide when it is live: two
/// consecutive blocks with strictly increasing frame numbers.
#[derive(Debug, Clone, Copy, PartialEq, Eq, Structural)]
pub struct LiveDetector {
    pub went_live: bool,
    pub valid_blocks: u32,
    pub last_frame: Option<u64>,
}

/// Whether a block shows progress: it carries a frame number above the
/// last one seen (any number counts when none was seen yet).
pub open spec fn increasing(last_frame: Option<u64>, block: ProgressBlock) -> bool {
    match block.frame {
        Some(f) => match last_frame {
            Some(prev) => f > prev,
            None => true,
        },
        None => false,
    }
}

/// The detector after observing `block`, and whether that block made
/// the child live.
pub open spec fn spec_observe(d: LiveDetector, block: ProgressBlock) -> (LiveDetector, bool) {
    let inc = increasing(d.last_frame, block);
    let valid_blocks: u32 = if inc {
        if d.valid_blocks < u32::MAX {
            (d.valid_blocks + 1) as u32
        } else {
            d.valid_blocks
        }
    } else {
        0
    };
    let became_live = !d.went_live && valid_blocks >= 2;
    (
        LiveDetector {
            went_live: d.went_live || became_live,
            valid_blocks,
            last_frame: if inc {
                block.frame
            } else {
                d.last_frame
            },
        },
        became_live,
    )
}

impl LiveDetector {
    pub fn new() -> (r: Self)
        ensures
            r == (LiveDetector { went_live: false, valid_blocks: 0, last_frame: None }),
    {
        LiveDetector { went_live: false, valid_blocks: 0, last_frame: None }
    }

    /// Observes a finished block; returns true exactly when this block
    /// makes the child live (the stream is then reported live).
    pub fn observe(&mut self, block: ProgressBlock) -> (became_live: bool)
        ensures
            (*final(self), became_live) == spec_observe(*old(self), block),
    {
        let inc = match block.frame {
            Some(f) => match self.last_frame {
                Some(prev) => f > prev,
                None => true,
            },
            None => false,
        };
        if inc {
            self.last_frame = block.frame;
            self.valid_blocks = self.valid_blocks.saturating_add(1);
        } else {
            self.valid_blocks = 0;
        }
        if !self.went_live && self.valid_blocks >= 2 {
            self.went_live = true;
            true
        } else {
            false
        }
    }
}

/// Once live, a child stays live and is never reported live again; a
/// block without a higher frame number resets the count, and going live
/// takes two progressing blocks in a row.
pub proof fn law_live_detection(d: LiveDetector, b1: ProgressBlock, b2: ProgressBlock)
    ensures
        d.went_live ==> spec_observe(d, b1).0.went_live && !spec_observe(d, b1).1,
        !increasing(d.last_frame, b1) ==> spec_observe(d, b1).0.valid_blocks == 0 && !spec_observe(
            d,
            b1,
        ).1,
        d == LiveDetector::spec_new() && spec_observe(spec_observe(d, b1).0, b2).1 ==> increasing(
            d.last_frame,
            b1,
        ) && increasing(spec_observe(d, b1).0.last_frame, b2),
{
}

impl LiveDetector {
    /// The detector of a freshly spawned child.
    pub open spec fn spec_new() -> LiveDetector {
        LiveDetector { went_live: false, valid_blocks: 0, last_frame: None }
    }
}

/// How long the child may take to go live.
pub fn prelive_timeout_ms(enc: Encoder) -> (r: u64)
    ensures
        r == (if enc == Encoder::X264 {
            PRELIVE_TIMEOUT_MS
        } else {
            PRELIVE_TIMEOUT_HW_MS
        }),
{
    if enc == Encoder::X264 {
        PRELIVE_TIMEOUT_MS
    } else {
        PRELIVE_TIMEOUT_HW_MS
    }
}

/// Updates when the encoder started running below real-time speed: only
/// after the grace period; a fast sample clears it, a slow one keeps the
/// first slow instant.
pub fn update_slow_since(slow_since: Option<u64>, now_ms: u64, run_ms: u64, slow: bool) -> (r:
    Option<u64>)
    ensures
        r == (if run_ms > REALTIME_GRACE_MS {
            if slow {
                match slow_since {
                    Some(t) => Some(t),
                    None => Some(now_ms),
                }
            } else {
                None
            }
        } else {
            slow_since
        }),
{
    if run_ms > REALTIME_GRACE_MS {
        if slow {
            match slow_since {
                Some(t) => Some(t),
                None => Some(now_ms),
            }
        } else {
            None
        }
    } else {
        slow_since
    }
}

/// The periodic check of a running child: too slow for longer than the
/// slow window, stalled after going live, or never live within the
/// pre-live timeout; `None` keeps it running. Times are milliseconds.
pub open spec fn spec_tick_verdict(
    now_ms: nat,
    spawned_ms: nat,
    last_progress_ms: nat,
    slow_since_ms: Option<u64>,
    went_live: bool,
    prelive_ms: nat,
) -> Option<Outcome> {
    if slow_since_ms is Some && now_ms - slow_since_ms->0 > REALTIME_SLOW_WINDOW_MS {
        Some(Outcome::TooSlow)
    } else if went_live && now_ms - last_progress_ms > PROGRESS_STALL_MS {
        Some(Outcome::Died)
    } else if !went_live && now_ms - spawned_ms > prelive_ms {
        Some(Outcome::Died)
    } else {
        None
    }
}

/// Decides at a periodic tick whether the child must be killed.
pub fn tick_verdict(
    now_ms: u64,
    spawned_ms: u64,
    last_progress_ms: u64,
    slow_since_ms: Option<u64>,
    went_live: bool,
    prelive_ms: u64,
) -> (r: Option<Outcome>)
    requires
        spawned_ms <= now_ms,
        last_progress_ms <= now_ms,
        slow_since_ms matches Some(t) ==> t <= now_ms,
    ensures
        r == spec_tick_verdict(
            now_ms as nat,
            spawned_ms as nat,
            last_progress_ms as nat,
            slow_since_ms,
            went_live,
            prelive_ms as nat,
        ),
{
    if let Some(since) = slow_since_ms {
        if now_ms - since > REALTIME_SLOW_WINDOW_MS {
            return Some(Outcome::TooSlow);
        }
    }
    if went_live && now_ms - last_progress_ms > PROGRESS_STALL_MS {
        return Some(Outcome::Died);
    }
    if !went_live && now_ms - spawned_ms > prelive_ms {
        return Some(Outcome::Died);
    }
    None
}


/// How many of ffmpeg's last stderr lines are kept to tell why it failed.
pub const ERR_TAIL_LINES: usize = 40;

/// The last `cap` items of `s`, or all of them when there are fewer.
pub open spec fn keep_last<T>(s: Seq<T>, cap: nat) -> Seq<T> {
    if s.len() <= cap {
        s
    } else {
        s.subrange(s.len() - cap, s.len() as int)
    }
}

/// Appends a stderr line to the kept tail and drops the oldest lines
/// beyond `cap`.
pub fn push_tail_line(tail: &mut Vec<String>, line: String, cap: usize)
    ensures
        final(tail)@ == keep_last(old(tail)@.push(line), cap as nat),
{
    let ghost full = old(tail)@.push(line);
    tail.push(line);
    while tail.len() > cap
        invariant
            tail.len() <= full.len(),
            tail@ == full.subrange(full.len() - tail.len(), full.len() as int),
            tail.len() == full.len() || tail.len() >= cap,
        decreases tail.len(),
    {
        let ghost before = tail@;
        tail.remove(0);
        assert(tail@ =~= full.subrange(full.len() - tail.len(), full.len() as int)) by {
            assert(tail@ =~= before.subrange(1, before.len() as int));
        }
    }
    assert(tail@ =~= keep_last(full, cap as nat));
}

/// Pushing lines one at a time keeps the last `cap` of all lines pushed,
/// in order: the kept tail after one more line is what keeping the last
/// `cap` of the whole sequence gives.
pub proof fn law_tail_keeps_last_lines<T>(s: Seq<T>, x: T, cap: nat)
    ensures
        keep_last(keep_last(s, cap).push(x), cap) == keep_last(s.push(x), cap),
{
    if s.len() > cap {
        assert(keep_last(keep_last(s, cap).push(x), cap) =~= keep_last(s.push(x), cap));
    } else {
        assert(keep_last(s, cap) =~= s);
    }
}

} // verus!
