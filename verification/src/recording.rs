//! Following a replay run while it records: the wall-clock anchor of its
//! segments, the segments dropped while the race has not started, and
//! the trim plan that cuts the recording at the countdown.
use crate::replay::TrimPlan;
use vstd::prelude::*;

verus! {

/// One line of a run's segment list: the segment's number and its start
/// and end in milliseconds of the run's own timeline.
#[derive(Debug, Clone, Copy, PartialEq, Eq, Structural)]
pub struct SegmentTimes {
    pub index: u32,
    pub start_ms: i64,
    pub end_ms: i64,
}

/// Segments kept while waiting for the race to start.
pub const KEEP_WHILE_WAITING: usize = 2;

/// Bound on the clock values handled here (about 36 million years in
/// milliseconds), so that their sums and differences fit in an `i64`.
pub const TIME_BOUND: i64 = 1_152_921_504_606_846_976;

/// A clock value within the bound.
pub open spec fn bounded(t: i64) -> bool {
    -TIME_BOUND <= t <= TIME_BOUND
}

/// Every line's times are within the bound.
pub open spec fn lines_bounded(s: Seq<SegmentTimes>) -> bool {
    forall|i: int| 0 <= i < s.len() ==> bounded(#[trigger] s[i].start_ms) && bounded(s[i].end_ms)
}

/// The running minimum of `now - end` over the lines, starting from `a`.
pub open spec fn min_anchor(a: Option<i64>, now: i64, s: Seq<SegmentTimes>) -> Option<i64>
    decreases s.len(),
{
    if s.len() == 0 {
        a
    } else {
        let prev = min_anchor(a, now, s.drop_last());
        let sample = (now - s.last().end_ms) as i64;
        Some(
            match prev {
                Some(p) => if p <= sample {
                    p
                } else {
                    sample
                },
                None => sample,
            },
        )
    }
}

/// What the tracker knows of a run.
pub struct RunTracker {
    pub run: u32,
    /// Wall-clock (server) time of the run's zero.
    pub anchor_ms: Option<i64>,
    pub last_end_ms: i64,
    pub lines: Vec<SegmentTimes>,
    /// Lines whose segment files were already deleted.
    pub pruned: usize,
    pub planned: bool,
}

/// The first line whose end, on the wall clock, falls after `countdown`.
pub open spec fn first_after(s: Seq<SegmentTimes>, anchor: i64, countdown: i64, from: nat) -> Option<
    nat,
>
    decreases s.len() - from,
{
    if from >= s.len() {
        None
    } else if anchor + s[from as int].end_ms > countdown {
        Some(from)
    } else {
        first_after(s, anchor, countdown, from + 1)
    }
}

/// The trim plan for `countdown`: the recording starts at the first
/// segment ending after it, cut by the time from that segment's start to
/// the countdown (never negative).
pub open spec fn spec_plan(t: RunTracker, countdown: Option<i64>) -> Option<TrimPlan> {
    if t.planned {
        None
    } else {
        match (t.anchor_ms, countdown) {
            (Some(a), Some(c)) => match first_after(t.lines@, a, c, 0) {
                Some(i) => {
                    let head = t.lines@[i as int];
                    let cut = c - (a + head.start_ms);
                    Some(
                        TrimPlan {
                            run: t.run,
                            first_index: head.index,
                            head_trim_ms: if cut > 0 {
                                cut as i64
                            } else {
                                0
                            },
                        },
                    )
                },
                None => None,
            },
            _ => None,
        }
    }
}

proof fn lemma_first_after(s: Seq<SegmentTimes>, anchor: i64, countdown: i64, from: nat, k: nat)
    requires
        from <= k <= s.len(),
        forall|j: int| from <= j < k ==> anchor + #[trigger] s[j].end_ms <= countdown,
    ensures
        first_after(s, anchor, countdown, from) == first_after(s, anchor, countdown, k),
    decreases k - from,
{
    if from < k {
        lemma_first_after(s, anchor, countdown, from + 1, k);
    }
}

impl RunTracker {
    /// The tracker's own consistency: the deleted lines are a prefix that
    /// leaves the last two, and every clock value is within the bound.
    pub open spec fn wf(&self) -> bool {
        &&& (self.pruned == 0 || self.pruned + KEEP_WHILE_WAITING <= self.lines@.len())
        &&& lines_bounded(self.lines@)
        &&& match self.anchor_ms {
            Some(a) => -2 * TIME_BOUND <= a <= 2 * TIME_BOUND,
            None => true,
        }
    }

    /// A tracker for run `run` that has read nothing yet.
    pub fn new(run: u32) -> (r: Self)
        ensures
            r.wf(),
            r.run == run,
            r.anchor_ms is None,
            r.last_end_ms == 0,
            r.lines@.len() == 0,
            r.pruned == 0,
            !r.planned,
    {
        RunTracker {
            run,
            anchor_ms: None,
            last_end_ms: 0,
            lines: Vec::new(),
            pruned: 0,
            planned: false,
        }
    }

    /// Takes lines newly appended to the run's list, read when the server
    /// clock showed `now_ms`: each moves the anchor down to `now - end` if
    /// that is earlier, and the last one gives the run's latest end.
    pub fn on_fresh(&mut self, fresh: &[SegmentTimes], now_ms: i64)
        requires
            old(self).wf(),
            lines_bounded(fresh@),
            bounded(now_ms),
        ensures
            final(self).wf(),
            final(self).anchor_ms == min_anchor(old(self).anchor_ms, now_ms, fresh@),
            final(self).last_end_ms == if fresh@.len() > 0 {
                fresh@.last().end_ms
            } else {
                old(self).last_end_ms
            },
            final(self).lines@ == old(self).lines@ + fresh@,
            final(self).run == old(self).run,
            final(self).pruned == old(self).pruned,
            final(self).planned == old(self).planned,
    {
        let mut i: usize = 0;
        while i < fresh.len()
            invariant
                i <= fresh@.len(),
                lines_bounded(fresh@),
                bounded(now_ms),
                lines_bounded(self.lines@),
                self.lines@ == old(self).lines@ + fresh@.subrange(0, i as int),
                self.anchor_ms == min_anchor(old(self).anchor_ms, now_ms, fresh@.subrange(0, i as int)),
                match self.anchor_ms {
                    Some(a) => -2 * TIME_BOUND <= a <= 2 * TIME_BOUND,
                    None => true,
                },
                self.last_end_ms == if i > 0 {
                    fresh@[i - 1].end_ms
                } else {
                    old(self).last_end_ms
                },
                old(self).pruned == 0 || old(self).pruned + KEEP_WHILE_WAITING <= self.lines@.len(),
                self.run == old(self).run,
                self.pruned == old(self).pruned,
                self.planned == old(self).planned,
            decreases fresh@.len() - i,
        {
            let l = fresh[i];
            assert(bounded(fresh@[i as int].start_ms) && bounded(fresh@[i as int].end_ms));
            let sample = now_ms - l.end_ms;
            self.anchor_ms = Some(
                match self.anchor_ms {
                    Some(a) => if a <= sample {
                        a
                    } else {
                        sample
                    },
                    None => sample,
                },
            );
            self.last_end_ms = l.end_ms;
            self.lines.push(l);
            proof {
                let pre = fresh@.subrange(0, i + 1);
                assert(pre.drop_last() =~= fresh@.subrange(0, i as int));
                assert(pre.last() == l);
            }
            i = i + 1;
            assert(self.lines@ =~= old(self).lines@ + fresh@.subrange(0, i as int));
        }
        assert(fresh@.subrange(0, fresh@.len() as int) =~= fresh@);
    }

    /// While waiting for the race, the segments to delete: all but the
    /// last two not deleted yet; nothing once the trim plan is made.
    pub fn prune(&mut self, waiting: bool) -> (r: Vec<u32>)
        requires
            old(self).wf(),
        ensures
            final(self).wf(),
            final(self).lines@ == old(self).lines@,
            final(self).anchor_ms == old(self).anchor_ms,
            final(self).planned == old(self).planned,
            if waiting && !old(self).planned && old(self).lines@.len() > KEEP_WHILE_WAITING {
                let upto = old(self).lines@.len() - KEEP_WHILE_WAITING;
                &&& final(self).pruned == upto
                &&& r@ == old(self).lines@.subrange(old(self).pruned as int, upto).map_values(
                    |l: SegmentTimes| l.index,
                )
            } else {
                final(self).pruned == old(self).pruned && r@.len() == 0
            },
    {
        let mut r: Vec<u32> = Vec::new();
        if !(waiting && !self.planned && self.lines.len() > KEEP_WHILE_WAITING) {
            return r;
        }
        let upto = self.lines.len() - KEEP_WHILE_WAITING;
        let mut i = self.pruned;
        while i < upto
            invariant
                old(self).pruned <= i <= upto,
                upto == old(self).lines@.len() - KEEP_WHILE_WAITING,
                self.lines@ == old(self).lines@,
                r@ == old(self).lines@.subrange(old(self).pruned as int, i as int).map_values(
                    |l: SegmentTimes| l.index,
                ),
            decreases upto - i,
        {
            r.push(self.lines[i].index);
            i = i + 1;
            assert(r@ =~= old(self).lines@.subrange(old(self).pruned as int, i as int).map_values(
                |l: SegmentTimes| l.index,
            ));
        }
        self.pruned = upto;
        r
    }

    /// Makes the trim plan once the run's anchor and the countdown are
    /// known and a segment ends after the countdown; at most once.
    pub fn plan(&mut self, countdown: Option<i64>) -> (r: Option<TrimPlan>)
        requires
            old(self).wf(),
            match countdown {
                Some(c) => bounded(c),
                None => true,
            },
        ensures
            final(self).wf(),
            r == spec_plan(*old(self), countdown),
            final(self).planned == (old(self).planned || r is Some),
            final(self).lines@ == old(self).lines@,
            final(self).anchor_ms == old(self).anchor_ms,
            final(self).pruned == old(self).pruned,
    {
        if self.planned {
            return None;
        }
        let (a, c) = match (self.anchor_ms, countdown) {
            (Some(a), Some(c)) => (a, c),
            _ => return None,
        };
        let mut i: usize = 0;
        while i < self.lines.len()
            invariant
                i <= self.lines@.len(),
                *self == *old(self),
                old(self).wf(),
                !old(self).planned,
                old(self).anchor_ms == Some(a),
                countdown == Some(c),
                lines_bounded(self.lines@),
                -2 * TIME_BOUND <= a <= 2 * TIME_BOUND,
                bounded(c),
                forall|j: int| 0 <= j < i ==> a + #[trigger] self.lines@[j].end_ms <= c,
            decreases self.lines@.len() - i,
        {
            let l = self.lines[i];
            assert(bounded(self.lines@[i as int].start_ms) && bounded(self.lines@[i as int].end_ms));
            if a + l.end_ms > c {
                proof {
                    lemma_first_after(self.lines@, a, c, 0, i as nat);
                }
                let cut = c - (a + l.start_ms);
                self.planned = true;
                return Some(
                    TrimPlan {
                        run: self.run,
                        first_index: l.index,
                        head_trim_ms: if cut > 0 {
                            cut
                        } else {
                            0
                        },
                    },
                );
            }
            i = i + 1;
        }
        proof {
            lemma_first_after(self.lines@, a, c, 0, self.lines@.len());
        }
        None
    }
}

/// Length of the complete lines at the start of `bytes`: up to and
/// including the last newline (a partial last line waits for the next
/// read).
pub open spec fn complete_len(bytes: Seq<u8>) -> nat
    decreases bytes.len(),
{
    if bytes.len() == 0 {
        0
    } else if bytes.last() == 10u8 {
        bytes.len()
    } else {
        complete_len(bytes.drop_last())
    }
}

/// How much of newly read text can be parsed now.
pub fn complete_prefix(bytes: &[u8]) -> (r: usize)
    ensures
        r == complete_len(bytes@),
        r <= bytes@.len(),
{
    let mut n: usize = bytes.len();
    assert(bytes@.subrange(0, n as int) =~= bytes@);
    while n > 0 && bytes[n - 1] != 10u8
        invariant
            n <= bytes@.len(),
            complete_len(bytes@.subrange(0, n as int)) == complete_len(bytes@),
        decreases n,
    {
        assert(bytes@.subrange(0, n - 1) =~= bytes@.subrange(0, n as int).drop_last());
        n = n - 1;
    }
    n
}

/// The anchor is the earliest wall-clock start any line implies: it is
/// at or before `now - end` for every line read.
pub proof fn law_anchor_is_earliest(a: Option<i64>, now: i64, s: Seq<SegmentTimes>)
    requires
        lines_bounded(s),
        bounded(now),
        match a {
            Some(x) => -2 * TIME_BOUND <= x <= 2 * TIME_BOUND,
            None => true,
        },
    ensures
        forall|i: int|
            0 <= i < s.len() ==> min_anchor(a, now, s) is Some && min_anchor(a, now, s)->0 <= now
                - #[trigger] s[i].end_ms,
        a is Some ==> min_anchor(a, now, s)->0 <= a->0,
    decreases s.len(),
{
    if s.len() > 0 {
        let t = s.drop_last();
        assert(lines_bounded(t)) by {
            assert forall|i: int| 0 <= i < t.len() implies bounded(#[trigger] t[i].start_ms)
                && bounded(t[i].end_ms) by {
                assert(t[i] == s[i]);
            }
        }
        law_anchor_is_earliest(a, now, t);
        let last = s[s.len() - 1];
        assert(bounded(s[s.len() - 1].start_ms) && bounded(s[s.len() - 1].end_ms));
        assert(s.last() == last);
        let sample = (now - last.end_ms) as i64;
        assert(sample == now - last.end_ms);
        assert(min_anchor(a, now, s)->0 <= sample);
        assert forall|i: int| 0 <= i < s.len() implies min_anchor(a, now, s) is Some
            && min_anchor(a, now, s)->0 <= now - #[trigger] s[i].end_ms by {
            if i < s.len() - 1 {
                assert(t[i] == s[i]);
                assert(min_anchor(a, now, t)->0 <= now - t[i].end_ms);
            }
        }
    }
}

/// The plan cuts at the countdown: the head segment ends after it, every
/// earlier line ends at or before it, and the cut is never negative.
pub proof fn law_plan_starts_at_countdown(t: RunTracker, c: i64)
    requires
        t.wf(),
        bounded(c),
        spec_plan(t, Some(c)) is Some,
    ensures
        ({
            let a = t.anchor_ms->0;
            let i = first_after(t.lines@, a, c, 0)->0;
            &&& i < t.lines@.len()
            &&& a + t.lines@[i as int].end_ms > c
            &&& forall|j: int| 0 <= j < i ==> a + #[trigger] t.lines@[j].end_ms <= c
            &&& spec_plan(t, Some(c))->0.first_index == t.lines@[i as int].index
            &&& spec_plan(t, Some(c))->0.head_trim_ms >= 0
        }),
{
    lemma_first_after_found(t.lines@, t.anchor_ms->0, c, 0);
}

proof fn lemma_first_after_found(s: Seq<SegmentTimes>, anchor: i64, countdown: i64, from: nat)
    requires
        from <= s.len(),
        first_after(s, anchor, countdown, from) is Some,
    ensures
        ({
            let i = first_after(s, anchor, countdown, from)->0;
            &&& from <= i < s.len()
            &&& anchor + s[i as int].end_ms > countdown
            &&& forall|j: int| from <= j < i ==> anchor + #[trigger] s[j].end_ms <= countdown
        }),
    decreases s.len() - from,
{
    if from < s.len() && !(anchor + s[from as int].end_ms > countdown) {
        lemma_first_after_found(s, anchor, countdown, from + 1);
    }
}

} // verus!
