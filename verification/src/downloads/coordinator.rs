//! The coordinator of one download: it hands out the segments of the
//! partition table in order and, when none is left, steals the tail of a
//! segment that another worker is still busy with.
//!
//! The coordinator is owned by a single task that serves requests one at a
//! time, so nothing here needs a lock. The cursors live in a vector beside
//! it; a worker names its cursor by its position in that vector.

use vstd::prelude::*;
use vstd::arithmetic::div_mod::lemma_fundamental_div_mod;
use vstd::arithmetic::div_mod::lemma_mod_bound;
use std::ops::Range;
use super::constants::BOUNDARIES;
use super::constants::RANGE_LEN;
use super::constants::UNIT_BYTES;
use super::constants::lemma_table_increasing;
use super::index::Index;
use super::index::Measure;
use super::index::all_wf;
use super::index::disjoint;
use super::index::sum_by;
use super::index::lemma_sum_push;
use super::index::lemma_sum_update;

verus! {

/// State of the coordinator.
#[derive(Clone, Copy, Debug, PartialEq, Eq)]
pub struct Coordinator {
    /// Index of the next segment of the table to hand out.
    pub next_index: u8,
    /// One past the last segment of the table that this download uses.
    pub max_index: u8,
    /// Position in the cursor vector where the next search for a victim
    /// begins.
    pub steal_ptr: u8,
    /// A full round over the cursors found nothing worth stealing.
    pub steal_exhausted: bool,
    /// Size of the file in bytes; segment ends are clamped to it.
    pub total_size: u64,
}

/// `units` table units in bytes.
pub open spec fn unit_bytes(units: int) -> int {
    units * 8388608
}

/// First byte of segment `i` in a file of `total` bytes: the first byte of
/// the table's segment, and the end of the file for a segment that lies
/// beyond it.
pub open spec fn segment_first(i: int, total: int) -> int {
    if unit_bytes(BOUNDARIES[i] as int) <= total {
        unit_bytes(BOUNDARIES[i] as int)
    } else {
        total
    }
}

/// One past the last byte of segment `i` in a file of `total` bytes: the
/// end of the table's segment, clamped to the file size.
pub open spec fn segment_end(i: int, total: int) -> int {
    if unit_bytes(BOUNDARIES[i + 1] as int) <= total {
        unit_bytes(BOUNDARIES[i + 1] as int)
    } else {
        total
    }
}

/// How much to steal from a segment with `remaining` bytes left: 38.2%
/// (1 - 1/phi) of it, rounded up.
pub open spec fn steal_amount_spec(remaining: int) -> int {
    (remaining * 382 + 999) / 1000
}

/// The cursor at `t` may be stolen from: it is not one of the two seed
/// segments and has more than `min_steal` bytes left.
pub open spec fn is_victim(live: Seq<Index>, t: int, min_steal: int) -> bool {
    2 <= t < live.len() && live[t].remaining_spec() > min_steal
}

/// The first victim met when the cursors are visited in a circle, beginning
/// `attempt` places after `ptr`; `None` when the rest of the round finds
/// none.
pub open spec fn first_victim_from(live: Seq<Index>, ptr: int, min_steal: int, attempt: int) -> Option<
    int,
>
    decreases live.len() - attempt,
{
    if attempt < 0 || attempt >= live.len() {
        None
    } else if is_victim(live, (ptr + attempt) % (live.len() as int), min_steal) {
        Some((ptr + attempt) % (live.len() as int))
    } else {
        first_victim_from(live, ptr, min_steal, attempt + 1)
    }
}

/// The victim of a steal that starts its round at `ptr`.
pub open spec fn first_victim(live: Seq<Index>, ptr: int, min_steal: int) -> Option<int> {
    first_victim_from(live, ptr, min_steal, 0)
}

/// `ptr` brought into the range that a vector of `len` cursors allows: at
/// most `len - 1`, and at least 2 once there are three cursors. With no
/// cursor at all it stays as it is.
pub open spec fn clamp_ptr(ptr: int, len: int) -> int {
    if len == 0 {
        ptr
    } else if len >= 3 && ptr < 2 {
        2
    } else if ptr < len {
        ptr
    } else {
        len - 1
    }
}

/// `ptr` after a cursor was appended and there are `len` cursors: as it
/// was, unless there are three or more cursors and it points at none of
/// them from position 2 on; then it is 2.
pub open spec fn settled_ptr(ptr: int, len: int) -> int {
    if len >= 3 && !(2 <= ptr < len) {
        2
    } else {
        ptr
    }
}

/// Where the search begins when nothing better is known: 2, or the last
/// position of a shorter vector.
pub open spec fn default_ptr(len: int) -> int {
    if len >= 3 {
        2
    } else if len == 0 {
        0
    } else {
        len - 1
    }
}

/// Where the next search begins after a steal from the cursor at `victim`:
/// right behind it, or back at 2 when that position has no room in a byte.
pub open spec fn ptr_after_steal(victim: int) -> int {
    if victim + 1 <= 255 {
        victim + 1
    } else {
        2
    }
}

/// Position of the first cursor whose `start` is `value`, looking from
/// position `from` on.
pub open spec fn position_of_start(live: Seq<Index>, value: u64, from: int) -> Option<int>
    decreases live.len() - from,
{
    if from < 0 || from >= live.len() {
        None
    } else if live[from].start == value {
        Some(from)
    } else {
        position_of_start(live, value, from + 1)
    }
}

/// The value of `steal_ptr` after cursors were dropped and the vector now
/// is `live`: the position of the cursor that begins at the saved `start`,
/// clamped into range; the default when that cursor is gone, nothing was
/// saved, or the position has no room in a byte.
pub open spec fn restored_ptr(live: Seq<Index>, saved_start: Option<u64>) -> int {
    match saved_start {
        Some(value) => match position_of_start(live, value, 0) {
            Some(i) => if i <= 255 {
                clamp_ptr(i, live.len() as int)
            } else {
                default_ptr(live.len() as int)
            },
            None => default_ptr(live.len() as int),
        },
        None => default_ptr(live.len() as int),
    }
}

impl Coordinator {
    /// The segment indices are in order and inside the table.
    pub open spec fn wf(&self) -> bool {
        self.next_index <= self.max_index <= RANGE_LEN
    }

    /// A segment of the table is left to hand out.
    pub open spec fn has_segment(&self) -> bool {
        self.next_index < self.max_index && self.next_index < RANGE_LEN
    }

    /// One past the last byte handed out so far as a segment of the table.
    pub open spec fn assigned(&self) -> int {
        segment_first(self.next_index as int, self.total_size as int)
    }

    /// What holds of the coordinator and its cursors at all times: every
    /// cursor has `origin <= start <= end`, no two cursors share a byte, all
    /// lie inside what was handed out, and `steal_ptr` is a position from 2
    /// on once there are three cursors.
    pub open spec fn consistent(&self, live: Seq<Index>) -> bool {
        &&& self.wf()
        &&& all_wf(live)
        &&& disjoint(live)
        &&& forall|i: int| 0 <= i < live.len() ==> (#[trigger] live[i]).end <= self.assigned()
        &&& live.len() >= 3 ==> 2 <= self.steal_ptr < live.len()
    }

    /// What a call that hands out the next segment of the table does, from
    /// the state `self` with cursors `live` to `post` with `post_live`.
    pub open spec fn hands_out(
        &self,
        live: Seq<Index>,
        post: Coordinator,
        post_live: Seq<Index>,
        r: Option<(usize, Range<u64>)>,
    ) -> bool {
        let i = self.next_index as int;
        let first = segment_first(i, self.total_size as int);
        let last = segment_end(i, self.total_size as int);
        &&& r matches Some((handle, bytes))
        &&& handle == live.len()
        &&& bytes.start == first
        &&& bytes.end == last
        &&& post_live == live.push(Index { origin: bytes.start, start: bytes.start, end: bytes.end })
        &&& post.next_index == i + 1
        &&& post.max_index == self.max_index
        &&& post.steal_ptr == settled_ptr(self.steal_ptr as int, live.len() as int + 1)
        &&& !post.steal_exhausted
        &&& post.total_size == self.total_size
    }

    /// What a call that tries to steal does, from the state `self` with
    /// cursors `live` to `post` with `post_live`.
    ///
    /// Nothing happens when an earlier round was fruitless or there are
    /// fewer than three cursors. Otherwise the first victim of the round
    /// loses the last 38.2% (rounded up) of what it has left, and a new
    /// cursor for that tail is appended; without a victim the coordinator
    /// notes that the round was fruitless.
    pub open spec fn steals(
        &self,
        live: Seq<Index>,
        min_steal: u64,
        post: Coordinator,
        post_live: Seq<Index>,
        r: Option<(usize, Range<u64>)>,
    ) -> bool {
        if self.steal_exhausted || live.len() < 3 {
            r is None && post == *self && post_live == live
        } else {
            match first_victim(live, self.steal_ptr as int, min_steal as int) {
                Some(t) => {
                    let new_end = live[t].end - steal_amount_spec(live[t].remaining_spec());
                    &&& r matches Some((handle, bytes))
                    &&& handle == live.len()
                    &&& bytes.start == new_end
                    &&& bytes.end == live[t].end
                    &&& post_live == live.update(
                        t,
                        Index { origin: live[t].origin, start: live[t].start, end: bytes.start },
                    ).push(Index { origin: bytes.start, start: bytes.start, end: bytes.end })
                    &&& post.next_index == self.next_index
                    &&& post.max_index == self.max_index
                    &&& post.steal_ptr == ptr_after_steal(t)
                    &&& !post.steal_exhausted
                    &&& post.total_size == self.total_size
                },
                None => {
                    &&& r is None
                    &&& post_live == live
                    &&& post.next_index == self.next_index
                    &&& post.max_index == self.max_index
                    &&& post.steal_ptr == self.steal_ptr
                    &&& post.steal_exhausted
                    &&& post.total_size == self.total_size
                },
            }
        }
    }

    /// A coordinator that has handed out nothing yet.
    pub fn new(max_index: u8, total_size: u64) -> (c: Coordinator)
        ensures
            c.next_index == 0,
            c.max_index == max_index,
            c.steal_ptr == 2,
            !c.steal_exhausted,
            c.total_size == total_size,
    {
        Coordinator { next_index: 0, max_index, steal_ptr: 2, steal_exhausted: false, total_size }
    }

    /// A coordinator with the state that a journal recorded.
    pub fn from_parts(
        current: u8,
        max_index: u8,
        steal_ptr: u8,
        steal_exhausted: bool,
        total_size: u64,
    ) -> (c: Coordinator)
        ensures
            c.next_index == current,
            c.max_index == max_index,
            c.steal_ptr == steal_ptr,
            c.steal_exhausted == steal_exhausted,
            c.total_size == total_size,
    {
        Coordinator { next_index: current, max_index, steal_ptr, steal_exhausted, total_size }
    }

    /// Hands out the next segment of the table, if one is left.
    ///
    /// The segment's bytes are the table's units times 8 MiB, clamped to
    /// the file size. A cursor for it is appended to `range_vec`; the result
    /// names the cursor by its position and gives its bytes.
    pub fn new_range(&mut self, range_vec: &mut Vec<Index>) -> (r: Option<(usize, Range<u64>)>)
        ensures
            old(self).has_segment() ==> old(self).hands_out(
                old(range_vec)@,
                *final(self),
                final(range_vec)@,
                r,
            ),
            !old(self).has_segment() ==> r is None && *final(self) == *old(self)
                && final(range_vec)@ == old(range_vec)@,
            old(self).wf() ==> final(self).wf(),
            old(self).consistent(old(range_vec)@) ==> final(self).consistent(final(range_vec)@),
            forall|m: Measure|
                #![trigger sum_by(final(range_vec)@, m)]
                sum_by(final(range_vec)@, m) == sum_by(old(range_vec)@, m) + match m {
                    Measure::Done => 0,
                    _ => final(self).assigned() - old(self).assigned(),
                },
    {
        if self.next_index < self.max_index && (self.next_index as usize) < RANGE_LEN {
            let idx = self.next_index as usize;
            proof {
                lemma_table_increasing();
            }
            let start_units = BOUNDARIES[idx];
            let start_bytes = if start_units > self.total_size / UNIT_BYTES {
                self.total_size
            } else {
                start_units * UNIT_BYTES
            };
            let end_units = BOUNDARIES[idx + 1];
            let end_bytes = if end_units > self.total_size / UNIT_BYTES {
                self.total_size
            } else {
                end_units * UNIT_BYTES
            };
            let cursor = Index::new(start_bytes, end_bytes);
            let handle = range_vec.len();
            proof {
                assert forall|m: Measure|
                    sum_by(#[trigger] range_vec@.push(cursor), m) == sum_by(range_vec@, m) + match m {
                        Measure::Done => 0,
                        _ => end_bytes - start_bytes,
                    } by {
                    lemma_sum_push(range_vec@, cursor, m);
                }
            }
            range_vec.push(cursor);
            self.next_index += 1;
            if range_vec.len() >= 3 && !(2 <= self.steal_ptr && (self.steal_ptr as usize)
                < range_vec.len()) {
                self.steal_ptr = 2;
            }
            self.steal_exhausted = false;
            Some((handle, start_bytes..end_bytes))
        } else {
            None
        }
    }

    /// Work for a worker that asks: the next segment of the table while
    /// there is one, else the tail of a segment stolen from a busy worker,
    /// else nothing.
    pub fn request_work(&mut self, range_vec: &mut Vec<Index>, min_steal_bytes: u64) -> (r: Option<
        (usize, Range<u64>),
    >)
        ensures
            old(self).has_segment() ==> old(self).hands_out(
                old(range_vec)@,
                *final(self),
                final(range_vec)@,
                r,
            ),
            !old(self).has_segment() ==> old(self).steals(
                old(range_vec)@,
                min_steal_bytes,
                *final(self),
                final(range_vec)@,
                r,
            ),
            old(self).wf() ==> final(self).wf(),
            old(self).consistent(old(range_vec)@) ==> final(self).consistent(final(range_vec)@),
            forall|m: Measure|
                #![trigger sum_by(final(range_vec)@, m)]
                sum_by(final(range_vec)@, m) == sum_by(old(range_vec)@, m) + match m {
                    Measure::Done => 0,
                    _ => final(self).assigned() - old(self).assigned(),
                },
    {
        if self.next_index < self.max_index && (self.next_index as usize) < RANGE_LEN {
            self.new_range(range_vec)
        } else {
            self.steal_range(range_vec, min_steal_bytes)
        }
    }

    /// Tries to steal work for an idle worker from one that is still busy.
    ///
    /// The cursors are visited once in a circle that begins at `steal_ptr`;
    /// positions 0 and 1, the seed segments, are passed over, and so is
    /// every cursor with `min_steal_bytes` or fewer left. The first one that
    /// qualifies gives up the last 38.2% (rounded up) of what it has left.
    pub fn steal_range(&mut self, indices: &mut Vec<Index>, min_steal_bytes: u64) -> (r: Option<
        (usize, Range<u64>),
    >)
        ensures
            old(self).steals(old(indices)@, min_steal_bytes, *final(self), final(indices)@, r),
            old(self).wf() ==> final(self).wf(),
            old(self).consistent(old(indices)@) ==> final(self).consistent(final(indices)@),
            final(self).assigned() == old(self).assigned(),
            forall|m: Measure|
                #![trigger sum_by(final(indices)@, m)]
                sum_by(final(indices)@, m) == sum_by(old(indices)@, m),
    {
        if self.steal_exhausted || indices.len() < 3 {
            return None;
        }
        let n = indices.len();
        let ghost live = indices@;
        let ghost ptr = self.steal_ptr as int;
        let mut target = (self.steal_ptr as usize) % n;
        let mut attempt: usize = 0;
        proof {
            lemma_fundamental_div_mod(ptr, n as int);
        }
        while attempt < n
            invariant
                n == indices.len(),
                n >= 3,
                indices@ == live,
                live == old(indices)@,
                !self.steal_exhausted,
                *self == *old(self),
                ptr == self.steal_ptr,
                attempt <= n,
                target < n,
                attempt < n ==> target == (ptr + attempt) % (n as int),
                first_victim_from(live, ptr, min_steal_bytes as int, attempt as int) == first_victim(
                    live,
                    ptr,
                    min_steal_bytes as int,
                ),
            decreases n - attempt,
        {
            if target >= 2 {
                let victim = indices[target];
                let remaining = victim.remaining();
                if remaining > min_steal_bytes {
                    let amount = steal_amount(remaining);
                    let new_end = victim.end - amount;
                    let shrunk = Index { origin: victim.origin, start: victim.start, end: new_end };
                    let stolen = Index::new(new_end, victim.end);
                    proof {
                        assert forall|m: Measure|
                            sum_by(#[trigger] live.update(target as int, shrunk).push(stolen), m)
                                == sum_by(live, m) by {
                            lemma_sum_update(live, target as int, shrunk, m);
                            lemma_sum_push(live.update(target as int, shrunk), stolen, m);
                        }
                        if old(self).consistent(live) {
                            assert(live[target as int].wf());
                            let after = live.update(target as int, shrunk).push(stolen);
                            assert forall|i: int, j: int| 0 <= i < j < after.len() implies (
                            #[trigger] after[i]).end <= (#[trigger] after[j]).origin || after[j].end
                                <= after[i].origin by {
                                if j < live.len() {
                                    assert(live[i].end <= live[j].origin || live[j].end
                                        <= live[i].origin);
                                } else if i != target {
                                    if i < target {
                                        assert(live[i].end <= live[target as int].origin
                                            || live[target as int].end <= live[i].origin);
                                    } else {
                                        assert(live[target as int].end <= live[i].origin
                                            || live[i].end <= live[target as int].origin);
                                    }
                                }
                            }
                            assert forall|i: int| 0 <= i < after.len() implies (
                            #[trigger] after[i]).wf() by {
                                if i < live.len() && i != target {
                                    assert(live[i].wf());
                                }
                            }
                            assert forall|i: int| 0 <= i < after.len() implies (
                            #[trigger] after[i]).end <= self.assigned() by {
                                if i < live.len() && i != target {
                                    assert(live[i].end <= self.assigned());
                                }
                                assert(live[target as int].end <= self.assigned());
                            }
                        }
                    }
                    indices.set(target, shrunk);
                    indices.push(stolen);
                    self.steal_ptr = if target < 255 {
                        (target + 1) as u8
                    } else {
                        2
                    };
                    return Some((n, new_end..victim.end));
                }
            }
            proof {
                let a = attempt as int;
                let m = n as int;
                if a + 1 < m {
                    lemma_fundamental_div_mod(ptr + a, m);
                    lemma_fundamental_div_mod(ptr + a + 1, m);
                    lemma_mod_bound(ptr + a, m);
                    lemma_mod_bound(ptr + a + 1, m);
                    lemma_next_in_circle(ptr + a, m);
                }
            }
            attempt = attempt + 1;
            target = if target + 1 == n {
                0
            } else {
                target + 1
            };
        }
        self.steal_exhausted = true;
        None
    }

    /// Lets stealing be tried again; to be called when a worker has
    /// finished a segment.
    pub fn reset_steal(&mut self)
        ensures
            !final(self).steal_exhausted,
            final(self).next_index == old(self).next_index,
            final(self).max_index == old(self).max_index,
            final(self).steal_ptr == old(self).steal_ptr,
            final(self).total_size == old(self).total_size,
    {
        self.steal_exhausted = false;
    }

    /// The coordinator may still have work: not every segment was handed
    /// out, or stealing has not been tried in vain.
    pub fn has_work(&self) -> (r: bool)
        ensures
            r == (self.next_index < self.max_index || !self.steal_exhausted),
    {
        self.next_index < self.max_index || !self.steal_exhausted
    }

    /// The `start` of the cursor that `steal_ptr` points at, by which that
    /// cursor is found again after finished cursors were dropped; `None`
    /// when `steal_ptr` points at no cursor.
    pub fn prepare_save(&self, indices: &[Index]) -> (r: Option<u64>)
        ensures
            r == if (self.steal_ptr as int) < indices@.len() {
                Some(indices@[self.steal_ptr as int].start)
            } else {
                None
            },
    {
        if (self.steal_ptr as usize) < indices.len() {
            Some(indices[self.steal_ptr as usize].start)
        } else {
            None
        }
    }

    /// Points `steal_ptr` at the cursor that begins at `saved_start`, after
    /// the vector of cursors was loaded without the finished ones.
    pub fn restore_steal_ptr(&mut self, indices: &[Index], saved_start: Option<u64>)
        ensures
            final(self).steal_ptr == restored_ptr(indices@, saved_start),
            final(self).next_index == old(self).next_index,
            final(self).max_index == old(self).max_index,
            final(self).steal_exhausted == old(self).steal_exhausted,
            final(self).total_size == old(self).total_size,
            indices@.len() >= 3 ==> 2 <= final(self).steal_ptr < indices@.len(),
    {
        let n = indices.len();
        let fallback: u8 = if n >= 3 {
            2
        } else if n == 0 {
            0
        } else {
            (n - 1) as u8
        };
        match saved_start {
            Some(value) => {
                let mut i: usize = 0;
                while i < n
                    invariant
                        n == indices@.len(),
                        i <= n,
                        *self == *old(self),
                        saved_start == Some(value),
                        fallback == default_ptr(n as int),
                        position_of_start(indices@, value, i as int) == position_of_start(
                            indices@,
                            value,
                            0,
                        ),
                    decreases n - i,
                {
                    if indices[i].start == value {
                        assert(position_of_start(indices@, value, i as int) == Some(i as int));
                        self.steal_ptr = if i <= 255 {
                            clamp_steal_ptr(i as u8, n)
                        } else {
                            fallback
                        };
                        return;
                    }
                    i = i + 1;
                }
                self.steal_ptr = fallback;
            },
            None => {
                self.steal_ptr = fallback;
            },
        }
    }
}

/// 38.2% of `remaining`, rounded up.
pub fn steal_amount(remaining: u64) -> (amount: u64)
    ensures
        amount == steal_amount_spec(remaining as int),
        amount <= remaining,
        remaining > 0 ==> amount > 0,
{
    let scaled: u128 = remaining as u128 * 382 + 999;
    (scaled / 1000) as u64
}

/// `ptr` clamped to a vector of `len` cursors.
pub fn clamp_steal_ptr(ptr: u8, len: usize) -> (r: u8)
    ensures
        r == clamp_ptr(ptr as int, len as int),
        len >= 3 ==> 2 <= r < len,
{
    if len == 0 {
        ptr
    } else if len >= 3 && ptr < 2 {
        2
    } else if (ptr as usize) < len {
        ptr
    } else {
        (len - 1) as u8
    }
}

/// In a consistent state no cursor has its `start` behind its `end`, every
/// cursor lies inside the file, and no byte of the file belongs to the
/// segments of two cursors.
pub proof fn lemma_consistent_cursors(c: Coordinator, live: Seq<Index>, i: int, j: int, b: int)
    requires
        c.consistent(live),
        0 <= i < live.len(),
        0 <= j < live.len(),
        i != j,
    ensures
        live[i].origin <= live[i].start <= live[i].end <= c.total_size,
        !(live[i].origin <= b < live[i].end && live[j].origin <= b < live[j].end),
{
    assert(live[i].wf());
    assert(live[i].end <= c.assigned());
    if i < j {
        assert(live[i].end <= live[j].origin || live[j].end <= live[i].origin);
    } else {
        assert(live[j].end <= live[i].origin || live[i].end <= live[j].origin);
    }
}

/// When no cursor from position 2 on has more than `min_steal` bytes left,
/// a steal among three or more cursors hands out nothing, leaves the cursors
/// as they are, and leaves the coordinator marked as exhausted.
pub proof fn lemma_steal_exhausts(
    c: Coordinator,
    live: Seq<Index>,
    min_steal: u64,
    post: Coordinator,
    post_live: Seq<Index>,
    r: Option<(usize, Range<u64>)>,
)
    requires
        c.steals(live, min_steal, post, post_live, r),
        live.len() >= 3,
        forall|i: int| 2 <= i < live.len() ==> (#[trigger] live[i]).remaining_spec() <= min_steal,
    ensures
        r is None,
        post_live == live,
        post.steal_exhausted,
{
    lemma_no_victim(live, c.steal_ptr as int, min_steal as int, 0);
}

/// Without a cursor to steal from, the round finds none.
proof fn lemma_no_victim(live: Seq<Index>, ptr: int, min_steal: int, attempt: int)
    requires
        0 <= attempt,
        forall|i: int| 2 <= i < live.len() ==> (#[trigger] live[i]).remaining_spec() <= min_steal,
    ensures
        first_victim_from(live, ptr, min_steal, attempt) is None,
    decreases live.len() - attempt,
{
    if attempt < live.len() {
        lemma_no_victim(live, ptr, min_steal, attempt + 1);
    }
}

/// One step round the circle of `m` positions.
proof fn lemma_next_in_circle(x: int, m: int)
    requires
        0 <= x,
        0 < m,
    ensures
        (x + 1) % m == if x % m + 1 == m {
            0
        } else {
            x % m + 1
        },
{
    lemma_fundamental_div_mod(x, m);
    lemma_fundamental_div_mod(x + 1, m);
    lemma_mod_bound(x, m);
    lemma_mod_bound(x + 1, m);
    let q = x / m;
    let r = x % m;
    if r + 1 == m {
        assert(x + 1 == m * (q + 1)) by (nonlinear_arith)
            requires
                x == m * q + r,
                r + 1 == m,
        ;
        vstd::arithmetic::div_mod::lemma_mod_multiples_basic(q + 1, m);
    } else {
        assert(x + 1 == q * m + (r + 1)) by (nonlinear_arith)
            requires
                x == m * q + r,
        ;
        vstd::arithmetic::div_mod::lemma_fundamental_div_mod_converse(x + 1, m, q, r + 1);
    }
}

} // verus!
