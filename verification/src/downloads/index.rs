//! Segment cursors: the byte range a worker is downloading and how far it
//! has come.

use vstd::prelude::*;

verus! {

/// A segment of the destination file, in absolute file bytes.
///
/// The segment was handed out as `[origin, end)`. The owning worker has
/// written `[origin, start)` and still owes `[start, end)`. Only the worker
/// moves `start` (forward); only the coordinator moves `end` (backward, when
/// it steals the tail for another worker).
#[derive(Clone, Copy, Debug, PartialEq, Eq)]
pub struct Index {
    /// Where the segment began when it was handed out.
    pub origin: u64,
    /// Next byte to write.
    pub start: u64,
    /// One past the last byte of the segment.
    pub end: u64,
}

/// What to add up over a sequence of cursors.
pub enum Measure {
    /// `end - origin`: the bytes the segment was handed out with.
    Span,
    /// `start - origin`: the bytes already written.
    Done,
    /// `end - start`: the bytes still owed.
    Remaining,
}

/// One cursor's contribution to a sum.
pub open spec fn measure(c: Index, m: Measure) -> int {
    match m {
        Measure::Span => c.end - c.origin,
        Measure::Done => c.start - c.origin,
        Measure::Remaining => c.end - c.start,
    }
}

/// Sum of `measure(c, m)` over the cursors of `s`.
pub open spec fn sum_by(s: Seq<Index>, m: Measure) -> int
    decreases s.len(),
{
    if s.len() == 0 {
        0
    } else {
        sum_by(s.drop_last(), m) + measure(s.last(), m)
    }
}

/// Every cursor of `s` satisfies `origin <= start <= end`.
pub open spec fn all_wf(s: Seq<Index>) -> bool {
    forall|i: int| 0 <= i < s.len() ==> (#[trigger] s[i]).wf()
}

/// No two cursors of `s` share a byte of their spans `[origin, end)`.
pub open spec fn disjoint(s: Seq<Index>) -> bool {
    forall|i: int, j: int|
        0 <= i < j < s.len() ==> (#[trigger] s[i]).end <= (#[trigger] s[j]).origin || s[j].end
            <= s[i].origin
}

/// The bytes that the cursors of `s` still owe, as a set of file offsets.
pub open spec fn owed_bytes(s: Seq<Index>) -> Set<int> {
    Set::new(|b: int| exists|i: int| 0 <= i < s.len() && (#[trigger] s[i]).start <= b < s[i].end)
}

impl Index {
    /// `origin <= start <= end`.
    pub open spec fn wf(&self) -> bool {
        self.origin <= self.start <= self.end
    }

    /// Bytes still owed: `end - start`, and 0 for a cursor whose `start` has
    /// passed its `end`.
    pub open spec fn remaining_spec(&self) -> int {
        if self.start <= self.end {
            self.end - self.start
        } else {
            0
        }
    }

    /// The segment has bytes left to download.
    pub open spec fn live(&self) -> bool {
        self.start < self.end
    }

    /// A fresh cursor over `[start, end)` with nothing written yet.
    pub fn new(start: u64, end: u64) -> (c: Index)
        ensures
            c.origin == start,
            c.start == start,
            c.end == end,
            start <= end ==> c.wf(),
    {
        Index { origin: start, start, end }
    }

    /// Bytes still owed.
    pub fn remaining(&self) -> (r: u64)
        ensures
            r == self.remaining_spec(),
    {
        if self.start <= self.end {
            self.end - self.start
        } else {
            0
        }
    }

    /// The segment is done: nothing is left to download.
    pub fn is_done(&self) -> (r: bool)
        ensures
            r == !self.live(),
    {
        self.start >= self.end
    }

    /// Records that the worker received `len` more bytes for this segment.
    ///
    /// Returns how many of them belong to the segment: all of them, unless
    /// the coordinator has meanwhile stolen the tail, in which case the
    /// surplus is not the worker's to write. `start` moves forward by exactly
    /// that many bytes and never passes `end`.
    pub fn advance(&mut self, len: u64) -> (taken: u64)
        ensures
            taken == if len <= old(self).remaining_spec() {
                len as int
            } else {
                old(self).remaining_spec()
            },
            final(self).origin == old(self).origin,
            final(self).end == old(self).end,
            final(self).start == old(self).start + taken,
            old(self).wf() ==> final(self).wf(),
    {
        let left = self.remaining();
        let taken = if len <= left {
            len
        } else {
            left
        };
        self.start = self.start + taken;
        taken
    }
}

/// Appending a cursor adds its measure to the sum.
pub proof fn lemma_sum_push(s: Seq<Index>, c: Index, m: Measure)
    ensures
        sum_by(s.push(c), m) == sum_by(s, m) + measure(c, m),
{
    assert(s.push(c).drop_last() =~= s);
}

/// Replacing the cursor at `i` changes the sum by the difference of the two
/// measures.
pub proof fn lemma_sum_update(s: Seq<Index>, i: int, c: Index, m: Measure)
    requires
        0 <= i < s.len(),
    ensures
        sum_by(s.update(i, c), m) == sum_by(s, m) - measure(s[i], m) + measure(c, m),
    decreases s.len(),
{
    if i == s.len() - 1 {
        assert(s.update(i, c).drop_last() =~= s.drop_last());
    } else {
        lemma_sum_update(s.drop_last(), i, c, m);
        assert(s.update(i, c).drop_last() =~= s.drop_last().update(i, c));
    }
}

} // verus!
