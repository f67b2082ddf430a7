//! The order of the events that observers see for one download.
//!
//! A download is announced as queued before any progress is reported, and
//! its completion is the last thing said about it. The keeper below is asked
//! before an event is sent and lets through only what keeps that order.

use vstd::prelude::*;

verus! {

/// The kinds of events about a download.
#[derive(Clone, Copy, Debug, PartialEq, Eq, Structural)]
pub enum EventKind {
    /// `queue_download`: the download is known and will start or resume.
    Queued,
    /// `download_progress`: bytes written, speed and time left.
    Progress,
    /// `download_complete`: every byte is written.
    Complete,
    /// `download_paused_<id>`.
    Paused,
    /// `download_cancelled_<id>`.
    Cancelled,
}

/// What has been said about a download so far.
#[derive(Clone, Copy, Debug, PartialEq, Eq, Structural)]
pub enum Phase {
    /// Nothing yet.
    Silent,
    /// It was announced as queued.
    Announced,
    /// It was announced as complete.
    Closed,
}

/// The keeper of the order of one download's events.
#[derive(Clone, Copy, Debug, PartialEq, Eq, Structural)]
pub struct EventOrder {
    pub phase: Phase,
}

/// Whether an event of kind `kind` may be sent in the phase `phase`:
/// nothing after completion, progress and completion only after the
/// download was announced.
pub open spec fn permitted(phase: Phase, kind: EventKind) -> bool {
    match phase {
        Phase::Closed => false,
        Phase::Silent => kind != EventKind::Progress && kind != EventKind::Complete,
        Phase::Announced => true,
    }
}

/// The phase after an event of kind `kind` was sent in the phase `phase`.
pub open spec fn phase_after(phase: Phase, kind: EventKind) -> Phase {
    match kind {
        EventKind::Queued => Phase::Announced,
        EventKind::Complete => Phase::Closed,
        _ => phase,
    }
}

impl EventOrder {
    /// The keeper for a download of which nothing was said yet.
    pub fn new() -> (order: EventOrder)
        ensures
            order.phase == Phase::Silent,
    {
        EventOrder { phase: Phase::Silent }
    }

    /// Asks whether an event of kind `kind` may be sent now, and notes it
    /// as sent if so.
    pub fn pass(&mut self, kind: EventKind) -> (sent: bool)
        ensures
            sent == permitted(old(self).phase, kind),
            final(self).phase == if sent {
                phase_after(old(self).phase, kind)
            } else {
                old(self).phase
            },
    {
        let sent = match self.phase {
            Phase::Closed => false,
            Phase::Silent => match kind {
                EventKind::Progress => false,
                EventKind::Complete => false,
                _ => true,
            },
            Phase::Announced => true,
        };
        if sent {
            match kind {
                EventKind::Queued => {
                    self.phase = Phase::Announced;
                },
                EventKind::Complete => {
                    self.phase = Phase::Closed;
                },
                _ => {},
            }
        }
        sent
    }
}

/// The phase after the events `kinds` were offered to a keeper in the phase
/// `phase`, one after the other.
pub open spec fn phase_after_all(phase: Phase, kinds: Seq<EventKind>) -> Phase
    decreases kinds.len(),
{
    if kinds.len() == 0 {
        phase
    } else if permitted(phase_after_all(phase, kinds.drop_last()), kinds.last()) {
        phase_after(phase_after_all(phase, kinds.drop_last()), kinds.last())
    } else {
        phase_after_all(phase, kinds.drop_last())
    }
}

/// The event at `i` of `kinds` passes a keeper that began in the phase
/// `phase` and was offered the events before it.
pub open spec fn passes(phase: Phase, kinds: Seq<EventKind>, i: int) -> bool {
    permitted(phase_after_all(phase, kinds.take(i)), kinds[i])
}

/// Whatever is offered to a fresh keeper, and in whatever order: a progress
/// event passes only after a queued event has passed, and nothing passes
/// after a completion has.
pub proof fn lemma_order_of_events(kinds: Seq<EventKind>, i: int, j: int)
    requires
        0 <= i < j < kinds.len(),
        passes(Phase::Silent, kinds, j),
    ensures
        kinds[j] == EventKind::Progress ==> exists|k: int|
            0 <= k < j && kinds[k] == EventKind::Queued && passes(Phase::Silent, kinds, k),
        !(kinds[i] == EventKind::Complete && passes(Phase::Silent, kinds, i)),
{
    if kinds[i] == EventKind::Complete && passes(Phase::Silent, kinds, i) {
        lemma_closed_stays(kinds, i, j);
    }
    if kinds[j] == EventKind::Progress {
        lemma_announced_was_queued(kinds.take(j));
        let k = choose|k: int|
            0 <= k < j && kinds.take(j)[k] == EventKind::Queued && passes(
                Phase::Silent,
                kinds.take(j),
                k,
            );
        assert(kinds.take(j).take(k) =~= kinds.take(k));
        assert(passes(Phase::Silent, kinds, k));
    }
}

/// Once a completion has passed, nothing else does.
proof fn lemma_closed_stays(kinds: Seq<EventKind>, i: int, j: int)
    requires
        0 <= i < j <= kinds.len(),
        kinds[i] == EventKind::Complete,
        passes(Phase::Silent, kinds, i),
    ensures
        phase_after_all(Phase::Silent, kinds.take(j)) == Phase::Closed,
    decreases j - i,
{
    assert(kinds.take(j).drop_last() =~= kinds.take(j - 1));
    assert(kinds.take(j).last() == kinds[j - 1]);
    if j - 1 > i {
        lemma_closed_stays(kinds, i, j - 1);
    }
}

/// A keeper that is past its silent phase has let a queued event pass.
proof fn lemma_announced_was_queued(kinds: Seq<EventKind>)
    requires
        phase_after_all(Phase::Silent, kinds) != Phase::Silent,
    ensures
        exists|k: int|
            0 <= k < kinds.len() && kinds[k] == EventKind::Queued && passes(Phase::Silent, kinds, k),
    decreases kinds.len(),
{
    if kinds.len() > 0 {
        let before = kinds.drop_last();
        let n = kinds.len() - 1;
        assert(kinds.take(n) =~= before);
        if phase_after_all(Phase::Silent, before) != Phase::Silent {
            lemma_announced_was_queued(before);
            let k = choose|k: int|
                0 <= k < before.len() && before[k] == EventKind::Queued && passes(
                    Phase::Silent,
                    before,
                    k,
                );
            assert(before.take(k) =~= kinds.take(k));
            assert(kinds[k] == EventKind::Queued && passes(Phase::Silent, kinds, k));
        } else {
            assert(kinds[n] == EventKind::Queued && passes(Phase::Silent, kinds, n));
        }
    }
}

} // verus!
