//! One download as the coordinator sees it: the coordinator's state and the
//! cursors of all segments handed out so far, with its journal.

use vstd::prelude::*;
use vstd::slice::slice_subrange;
use super::constants::BOUNDARIES;
use super::constants::RANGE_LEN;
use super::constants::UNIT_BYTES;
use super::constants::lemma_table_increasing;
use super::constants::range_end;
use super::coordinator::Coordinator;
use super::coordinator::clamp_ptr;
use super::coordinator::clamp_steal_ptr;
use super::index::Index;
use super::index::Measure;
use super::index::all_wf;
use super::index::disjoint;
use super::index::owed_bytes;
use super::index::sum_by;
use super::index::lemma_sum_update;
use super::journal::JournalError;
use super::journal::cursors_bytes;
use super::journal::header_bytes;
use super::journal::journal_bytes;
use super::journal::parse_cursor;
use super::journal::parse_cursors;
use super::journal::parse_header;
use super::journal::parse_journal;
use super::journal::parse_uint;
use super::journal::saved_cursors;
use super::journal::uint_from_bytes;
use super::journal::uint_to_bytes;
use super::journal::lemma_cursors_bytes_push;
use super::journal::lemma_journal_round_trip;
use super::journal::lemma_saved_cursors;

verus! {

/// The state of one download that the journal keeps.
#[derive(Clone, Debug, PartialEq, Eq)]
pub struct Download {
    /// Which segments are handed out and where stealing goes on.
    pub coordinator: Coordinator,
    /// The cursors of all segments handed out so far, in the order in which
    /// they were handed out.
    pub range: Vec<Index>,
}

/// The smallest segment index from `i` on whose first unit is at least `v`;
/// the length of the table when there is none.
pub open spec fn index_for_from(v: int, i: int) -> int
    decreases RANGE_LEN - i,
{
    if i < 0 || i >= RANGE_LEN || BOUNDARIES[i] >= v {
        i
    } else {
        index_for_from(v, i + 1)
    }
}

/// The smallest segment index whose first unit is at least `v`; the length
/// of the table when `v` lies beyond the first unit of every segment.
pub open spec fn index_for(v: int) -> int {
    index_for_from(v, 0)
}

/// The number of segments that a file of `size` bytes is cut into: the
/// index found for its size in whole units of 8 MiB, and none when the
/// size is beyond the table.
pub open spec fn max_index_for(size: u64) -> int {
    if index_for(size as int / 8388608) < RANGE_LEN {
        index_for(size as int / 8388608)
    } else {
        0
    }
}

/// What has been read so far, followed by what the rest of the bytes gives.
pub open spec fn glue(done: Seq<Index>, rest: Result<Seq<Index>, JournalError>) -> Result<
    Seq<Index>,
    JournalError,
> {
    match rest {
        Ok(more) => Ok(done + more),
        Err(e) => Err(e),
    }
}

impl Download {
    /// A download of a file of `size` bytes that has handed out nothing
    /// yet. `num_conn`, the number of workers, is how many cursors room is
    /// made for.
    pub fn new(size: u64, num_conn: u8) -> (d: Download)
        ensures
            d.coordinator == (Coordinator {
                next_index: 0,
                max_index: max_index_for(size) as u8,
                steal_ptr: 2,
                steal_exhausted: false,
                total_size: size,
            }),
            d.range@ == Seq::<Index>::empty(),
            d.coordinator.max_index == max_index_for(size),
            d.coordinator.consistent(d.range@),
            sum_by(d.range@, Measure::Span) == d.coordinator.assigned(),
    {
        let max_index = match Self::get_index(size / UNIT_BYTES) {
            Some(i) => i,
            None => 0,
        };
        proof {
            lemma_table_increasing();
        }
        Download {
            coordinator: Coordinator::new(max_index, size),
            range: Vec::with_capacity(num_conn as usize),
        }
    }

    /// The index of the first segment that begins at unit `v` or later, by
    /// binary search; `None` when `v` lies beyond the first unit of every
    /// segment.
    pub fn get_index(v: u64) -> (r: Option<u8>)
        ensures
            r == if index_for(v as int) < RANGE_LEN {
                Some(index_for(v as int) as u8)
            } else {
                None
            },
            r matches Some(i) ==> i < RANGE_LEN && BOUNDARIES[i as int] >= v && (i > 0
                ==> BOUNDARIES[i - 1] < v),
            r is None ==> BOUNDARIES[RANGE_LEN - 1] < v,
            0 <= index_for(v as int) <= RANGE_LEN,
    {
        let mut lo: usize = 0;
        let mut hi: usize = RANGE_LEN;
        proof {
            lemma_table_increasing();
        }
        while lo < hi
            invariant
                lo <= hi <= RANGE_LEN,
                forall|j: int| 0 <= j < lo ==> BOUNDARIES[j] < v,
                hi < RANGE_LEN ==> BOUNDARIES[hi as int] >= v,
                forall|i: int, j: int| 0 <= i < j <= RANGE_LEN ==> BOUNDARIES[i] < BOUNDARIES[j],
            decreases hi - lo,
        {
            let mid = (lo + hi) / 2;
            if BOUNDARIES[mid] < v {
                lo = mid + 1;
            } else {
                hi = mid;
            }
        }
        proof {
            lemma_index_for(v as int, lo as int, 0);
        }
        if lo < RANGE_LEN {
            Some(lo as u8)
        } else {
            None
        }
    }

    /// The journal of this download.
    ///
    /// Only cursors that still owe bytes are written, and of each only its
    /// `start` and `end`.
    pub fn encode(&self) -> (bytes: Vec<u8>)
        ensures
            bytes@ == journal_bytes(self.coordinator, self.range@),
    {
        let mut saved: Vec<Index> = Vec::new();
        let mut i: usize = 0;
        while i < self.range.len()
            invariant
                i <= self.range.len(),
                saved@ == saved_cursors(self.range@.take(i as int)),
            decreases self.range.len() - i,
        {
            let c = self.range[i];
            proof {
                assert(self.range@.take(i + 1).drop_last() =~= self.range@.take(i as int));
            }
            if c.start < c.end {
                saved.push(Index::new(c.start, c.end));
            }
            i = i + 1;
        }
        proof {
            assert(self.range@.take(self.range.len() as int) =~= self.range@);
        }
        let mut out: Vec<u8> = Vec::new();
        out.push(self.coordinator.next_index);
        out.push(self.coordinator.max_index);
        out.push(self.coordinator.steal_ptr);
        out.push(
            if self.coordinator.steal_exhausted {
                1
            } else {
                0
            },
        );
        assert(out@ =~= header_bytes(self.coordinator));
        let mut count = uint_to_bytes(saved.len() as u64).unwrap();
        out.append(&mut count);
        let ghost prefix = out@;
        let mut j: usize = 0;
        while j < saved.len()
            invariant
                j <= saved.len(),
                out@ == prefix + cursors_bytes(saved@.take(j as int)),
            decreases saved.len() - j,
        {
            let c = saved[j];
            let mut first = uint_to_bytes(c.start).unwrap();
            let mut last = uint_to_bytes(c.end).unwrap();
            proof {
                lemma_cursors_bytes_push(saved@.take(j as int), c);
                assert(saved@.take(j + 1) =~= saved@.take(j as int).push(c));
                assert(prefix + cursors_bytes(saved@.take(j as int)) + first@ + last@ =~= prefix + (
                cursors_bytes(saved@.take(j as int)) + first@ + last@));
            }
            out.append(&mut first);
            out.append(&mut last);
            j = j + 1;
        }
        proof {
            assert(saved@.take(saved.len() as int) =~= saved@);
        }
        out
    }

    /// Reads the journal of a download of a file of `total_size` bytes.
    ///
    /// The result is what `parse_journal` describes: the coordinator with
    /// `steal_ptr` clamped to the cursors that were read, and the cursors,
    /// each with nothing written yet. A journal without cursors is valid.
    pub fn decode(bytes: &[u8], total_size: u64) -> (r: Result<Download, JournalError>)
        ensures
            match r {
                Ok(d) => parse_journal(bytes@, total_size) == Ok::<
                    (Coordinator, Seq<Index>),
                    JournalError,
                >((d.coordinator, d.range@)),
                Err(e) => parse_journal(bytes@, total_size) == Err::<
                    (Coordinator, Seq<Index>),
                    JournalError,
                >(e),
            },
            r matches Ok(d) ==> d.coordinator.wf() && all_wf(d.range@),
    {
        if bytes.len() < 4 {
            return Err(JournalError::UnexpectedEnd);
        }
        let flag = bytes[3];
        if flag > 1 {
            return Err(JournalError::InvalidBoolean);
        }
        let header = Coordinator::from_parts(bytes[0], bytes[1], bytes[2], flag == 1, total_size);
        if !header.is_wf() {
            return Err(JournalError::InvalidHeader);
        }
        assert(parse_header(bytes@, total_size) == Ok::<Coordinator, JournalError>(header));
        let (count, n) = match read_uint(bytes, 4) {
            Ok(found) => found,
            Err(e) => {
                return Err(e);
            },
        };
        let range = match read_cursors(bytes, 4 + n, count) {
            Ok(found) => found,
            Err(e) => {
                return Err(e);
            },
        };
        let steal_ptr = clamp_steal_ptr(header.steal_ptr, range.len());
        Ok(
            Download {
                coordinator: Coordinator::from_parts(
                    header.next_index,
                    header.max_index,
                    steal_ptr,
                    header.steal_exhausted,
                    total_size,
                ),
                range,
            },
        )
    }

    /// The bytes that the cursors still owe, all together; `u64::MAX` when
    /// the sum is beyond that.
    pub fn bytes_remaining(&self) -> (r: u64)
        ensures
            r == if sum_remaining(self.range@) <= u64::MAX {
                sum_remaining(self.range@)
            } else {
                u64::MAX as int
            },
    {
        let mut total: u128 = 0;
        let mut i: usize = 0;
        while i < self.range.len()
            invariant
                i <= self.range.len(),
                total == sum_remaining(self.range@.take(i as int)),
                total <= i * 0xffff_ffff_ffff_ffff,
            decreases self.range.len() - i,
        {
            proof {
                assert(self.range@.take(i + 1).drop_last() =~= self.range@.take(i as int));
            }
            total = total + self.range[i].remaining() as u128;
            i = i + 1;
        }
        proof {
            assert(self.range@.take(self.range.len() as int) =~= self.range@);
        }
        if total <= u64::MAX as u128 {
            total as u64
        } else {
            u64::MAX
        }
    }

    /// The bytes that the workers have written, all together; `u64::MAX`
    /// when the sum is beyond that.
    pub fn bytes_downloaded(&self) -> (r: u64)
        ensures
            r == if sum_done(self.range@) <= u64::MAX {
                sum_done(self.range@)
            } else {
                u64::MAX as int
            },
    {
        let mut total: u128 = 0;
        let mut i: usize = 0;
        while i < self.range.len()
            invariant
                i <= self.range.len(),
                total == sum_done(self.range@.take(i as int)),
                total <= i * 0xffff_ffff_ffff_ffff,
            decreases self.range.len() - i,
        {
            proof {
                assert(self.range@.take(i + 1).drop_last() =~= self.range@.take(i as int));
            }
            let c = self.range[i];
            if c.origin <= c.start {
                total = total + (c.start - c.origin) as u128;
            }
            i = i + 1;
        }
        proof {
            assert(self.range@.take(self.range.len() as int) =~= self.range@);
        }
        if total <= u64::MAX as u128 {
            total as u64
        } else {
            u64::MAX
        }
    }

    /// Records that the worker of the cursor `handle` received `len` more
    /// bytes, and returns how many of them belong to its segment; none for
    /// a handle that names no cursor.
    ///
    /// The count of written bytes grows, and the count of owed bytes
    /// shrinks, by exactly the number returned: what a worker adds to the
    /// download's byte counter is what its cursor has moved.
    pub fn advance(&mut self, handle: usize, len: u64) -> (taken: u64)
        ensures
            handle >= old(self).range@.len() ==> taken == 0 && final(self).range@
                == old(self).range@,
            handle < old(self).range@.len() ==> taken == if len
                <= old(self).range@[handle as int].remaining_spec() {
                len as int
            } else {
                old(self).range@[handle as int].remaining_spec()
            },
            final(self).coordinator == old(self).coordinator,
            handle < old(self).range@.len() ==> final(self).range@ == old(self).range@.update(
                handle as int,
                Index {
                    origin: old(self).range@[handle as int].origin,
                    start: (old(self).range@[handle as int].start + taken) as u64,
                    end: old(self).range@[handle as int].end,
                },
            ),
            sum_by(final(self).range@, Measure::Span) == sum_by(old(self).range@, Measure::Span),
            sum_by(final(self).range@, Measure::Done) == sum_by(old(self).range@, Measure::Done)
                + taken,
            sum_by(final(self).range@, Measure::Remaining) == sum_by(
                old(self).range@,
                Measure::Remaining,
            ) - taken,
            old(self).coordinator.consistent(old(self).range@) ==> final(self).coordinator.consistent(
                final(self).range@,
            ),
    {
        if handle >= self.range.len() {
            return 0;
        }
        let mut cursor = self.range[handle];
        let taken = cursor.advance(len);
        proof {
            lemma_sum_update(self.range@, handle as int, cursor, Measure::Span);
            lemma_sum_update(self.range@, handle as int, cursor, Measure::Done);
            lemma_sum_update(self.range@, handle as int, cursor, Measure::Remaining);
            if self.coordinator.consistent(self.range@) {
                let before = self.range@;
                let after = before.update(handle as int, cursor);
                assert(before[handle as int].wf());
                assert forall|i: int| 0 <= i < after.len() implies (#[trigger] after[i]).wf() by {
                    if i != handle {
                        assert(before[i].wf());
                    }
                }
                assert forall|i: int, j: int| 0 <= i < j < after.len() implies (
                #[trigger] after[i]).end <= (#[trigger] after[j]).origin || after[j].end
                    <= after[i].origin by {
                    assert(before[i].end <= before[j].origin || before[j].end <= before[i].origin);
                }
                assert forall|i: int| 0 <= i < after.len() implies (#[trigger] after[i]).end
                    <= self.coordinator.assigned() by {
                    assert(before[i].end <= self.coordinator.assigned());
                }
            }
        }
        self.range.set(handle, cursor);
        taken
    }
}

impl Coordinator {
    /// Whether the segment indices are in order and inside the table.
    pub fn is_wf(&self) -> (r: bool)
        ensures
            r == self.wf(),
    {
        self.next_index <= self.max_index && self.max_index as usize <= RANGE_LEN
    }
}

/// Sum of the bytes that the cursors of `s` still owe, a cursor whose
/// `start` has passed its `end` counting as nothing.
pub open spec fn sum_remaining(s: Seq<Index>) -> int
    decreases s.len(),
{
    if s.len() == 0 {
        0
    } else {
        sum_remaining(s.drop_last()) + s.last().remaining_spec()
    }
}

/// Sum of the bytes that the workers of the cursors of `s` have written, a
/// cursor whose `start` lies before its `origin` counting as nothing.
pub open spec fn sum_done(s: Seq<Index>) -> int
    decreases s.len(),
{
    if s.len() == 0 {
        0
    } else {
        sum_done(s.drop_last()) + if s.last().origin <= s.last().start {
            s.last().start - s.last().origin
        } else {
            0
        }
    }
}

/// For cursors with `origin <= start <= end`, the bytes written are the sum
/// of `start - origin` and the bytes owed are the sum of `end - start`; what
/// was handed out is the one plus the other.
pub proof fn lemma_bytes_of_cursors(s: Seq<Index>)
    requires
        all_wf(s),
    ensures
        sum_done(s) == sum_by(s, Measure::Done),
        sum_remaining(s) == sum_by(s, Measure::Remaining),
        sum_done(s) + sum_remaining(s) == sum_by(s, Measure::Span),
    decreases s.len(),
{
    if s.len() > 0 {
        let d = s.drop_last();
        assert(s.last().wf());
        assert forall|i: int| 0 <= i < d.len() implies (#[trigger] d[i]).wf() by {
            assert(d[i] == s[i]);
        }
        lemma_bytes_of_cursors(d);
    }
}

/// Reads the unsigned integer at `pos`.
fn read_uint(bytes: &[u8], pos: usize) -> (r: Result<(u64, usize), JournalError>)
    requires
        pos <= bytes@.len(),
    ensures
        match r {
            Ok((v, n)) => parse_uint(bytes@.skip(pos as int)) == Ok::<(u64, int), JournalError>(
                (v, n as int),
            ) && 1 <= n && pos + n <= bytes@.len(),
            Err(e) => parse_uint(bytes@.skip(pos as int)) == Err::<(u64, int), JournalError>(e),
        },
{
    let rest = slice_subrange(bytes, pos, bytes.len());
    assert(rest@ =~= bytes@.skip(pos as int));
    match uint_from_bytes(rest) {
        Some(found) => Ok(found),
        None => {
            if rest.len() > 0 && rest[0] >= 254 {
                Err(JournalError::InvalidInteger)
            } else {
                Err(JournalError::UnexpectedEnd)
            }
        },
    }
}

/// Reads `count` cursors from `first` on.
fn read_cursors(bytes: &[u8], first: usize, count: u64) -> (r: Result<Vec<Index>, JournalError>)
    requires
        first <= bytes@.len(),
    ensures
        match r {
            Ok(range) => parse_cursors(bytes@.skip(first as int), count as int) == Ok::<
                Seq<Index>,
                JournalError,
            >(range@) && all_wf(range@),
            Err(e) => parse_cursors(bytes@.skip(first as int), count as int) == Err::<
                Seq<Index>,
                JournalError,
            >(e),
        },
{
    let mut range: Vec<Index> = Vec::new();
    let mut pos: usize = first;
    let mut i: u64 = 0;
    proof {
        assert(range@ + Seq::<Index>::empty() =~= range@);
    }
    while i < count
        invariant
            first <= pos <= bytes.len(),
            i <= count,
            all_wf(range@),
            parse_cursors(bytes@.skip(first as int), count as int) == glue(
                range@,
                parse_cursors(bytes@.skip(pos as int), count - i),
            ),
        decreases count - i,
    {
        let ghost here = bytes@.skip(pos as int);
        let (start, n1) = match read_uint(bytes, pos) {
            Ok(found) => found,
            Err(e) => {
                proof {
                    lemma_glue_fail(range@, here, e, count - i);
                }
                return Err(e);
            },
        };
        proof {
            assert(here.skip(n1 as int) =~= bytes@.skip(pos + n1));
        }
        let (end, n2) = match read_uint(bytes, pos + n1) {
            Ok(found) => found,
            Err(e) => {
                proof {
                    lemma_glue_fail(range@, here, e, count - i);
                }
                return Err(e);
            },
        };
        if start > end {
            proof {
                lemma_glue_fail(range@, here, JournalError::InvalidCursor, count - i);
            }
            return Err(JournalError::InvalidCursor);
        }
        let c = Index::new(start, end);
        proof {
            lemma_glue_step(range@, here, c, n1 + n2, count - i);
            assert(here.skip(n1 + n2) =~= bytes@.skip(pos + n1 + n2));
        }
        range.push(c);
        pos = pos + n1 + n2;
        i = i + 1;
    }
    proof {
        assert(range@ + Seq::<Index>::empty() =~= range@);
    }
    Ok(range)
}

/// Reading goes on behind a cursor that was read.
proof fn lemma_glue_step(done: Seq<Index>, s: Seq<u8>, c: Index, n: int, k: int)
    requires
        k > 0,
        parse_cursor(s) == Ok::<(Index, int), JournalError>((c, n)),
    ensures
        glue(done, parse_cursors(s, k)) == glue(done.push(c), parse_cursors(s.skip(n), k - 1)),
{
    match parse_cursors(s.skip(n), k - 1) {
        Ok(more) => {
            assert(done + (seq![c] + more) =~= done.push(c) + more);
        },
        Err(e) => {},
    }
}

/// Reading ends where a cursor cannot be read.
proof fn lemma_glue_fail(done: Seq<Index>, s: Seq<u8>, e: JournalError, k: int)
    requires
        k > 0,
        parse_cursor(s) == Err::<(Index, int), JournalError>(e),
    ensures
        glue(done, parse_cursors(s, k)) == Err::<Seq<Index>, JournalError>(e),
{
}

/// A cursor as the journal keeps it: with nothing written yet.
pub open spec fn rebased(c: Index) -> Index {
    Index { origin: c.start, start: c.start, end: c.end }
}

/// The cursor `kept` is what the journal keeps of the cursor at `i` of `s`.
pub open spec fn kept_from(kept: Index, s: Seq<Index>, i: int) -> bool {
    0 <= i < s.len() && s[i].live() && kept == rebased(s[i])
}

/// The cursor at `k` of `saved` is what the journal keeps of `c`.
pub open spec fn kept_at(saved: Seq<Index>, c: Index, k: int) -> bool {
    0 <= k < saved.len() && saved[k] == rebased(c)
}

/// The cursor `kept` is what the journal keeps of some cursor of `s`.
pub open spec fn kept_from_some(kept: Index, s: Seq<Index>) -> bool {
    exists|i: int| kept_from(kept, s, i)
}

/// Some cursor of `saved` is what the journal keeps of `c`.
pub open spec fn kept_in(saved: Seq<Index>, c: Index) -> bool {
    exists|k: int| kept_at(saved, c, k)
}

/// The journal keeps exactly the cursors that still owe bytes: each saved
/// cursor comes from such a cursor, and each such cursor is saved.
pub proof fn lemma_saved_both_ways(s: Seq<Index>)
    ensures
        forall|k: int|
            0 <= k < saved_cursors(s).len() ==> kept_from_some(#[trigger] saved_cursors(s)[k], s),
        forall|i: int| 0 <= i < s.len() && (#[trigger] s[i]).live() ==> kept_in(saved_cursors(s), s[i]),
    decreases s.len(),
{
    if s.len() > 0 {
        let d = s.drop_last();
        let saved = saved_cursors(s);
        lemma_saved_both_ways(d);
        assert forall|k: int| 0 <= k < saved.len() implies kept_from_some(#[trigger] saved[k], s) by {
            if k < saved_cursors(d).len() {
                assert(kept_from_some(saved_cursors(d)[k], d));
                let i = choose|i: int| kept_from(saved_cursors(d)[k], d, i);
                assert(kept_from(saved[k], s, i));
            } else {
                assert(kept_from(saved[k], s, s.len() - 1));
            }
        }
        assert forall|i: int| 0 <= i < s.len() && (#[trigger] s[i]).live() implies kept_in(
            saved,
            s[i],
        ) by {
            if i < d.len() {
                assert(d[i].live());
                assert(kept_in(saved_cursors(d), d[i]));
                let k = choose|k: int| kept_at(saved_cursors(d), d[i], k);
                assert(kept_at(saved, s[i], k));
            } else {
                assert(kept_at(saved, s[i], saved.len() - 1));
            }
        }
    }
}

/// What the journal keeps still owes the same number of bytes.
pub proof fn lemma_saved_remaining(s: Seq<Index>)
    requires
        all_wf(s),
    ensures
        sum_by(saved_cursors(s), Measure::Remaining) == sum_by(s, Measure::Remaining),
    decreases s.len(),
{
    if s.len() > 0 {
        let d = s.drop_last();
        assert(s.last().wf());
        assert forall|i: int| 0 <= i < d.len() implies (#[trigger] d[i]).wf() by {
            assert(d[i] == s[i]);
        }
        lemma_saved_remaining(d);
        if s.last().live() {
            super::index::lemma_sum_push(saved_cursors(d), rebased(s.last()), Measure::Remaining);
        }
    }
}

/// Cursors that share no byte still share none in the journal.
pub proof fn lemma_saved_disjoint(s: Seq<Index>)
    requires
        all_wf(s),
        disjoint(s),
    ensures
        disjoint(saved_cursors(s)),
    decreases s.len(),
{
    if s.len() > 0 {
        let d = s.drop_last();
        let saved = saved_cursors(s);
        assert forall|i: int| 0 <= i < d.len() implies (#[trigger] d[i]).wf() by {
            assert(d[i] == s[i]);
        }
        assert forall|i: int, j: int| 0 <= i < j < d.len() implies (#[trigger] d[i]).end <= (
        #[trigger] d[j]).origin || d[j].end <= d[i].origin by {
            assert(s[i].end <= s[j].origin || s[j].end <= s[i].origin);
        }
        lemma_saved_disjoint(d);
        lemma_saved_both_ways(d);
        assert forall|k: int, l: int| 0 <= k < l < saved.len() implies (#[trigger] saved[k]).end <= (
        #[trigger] saved[l]).origin || saved[l].end <= saved[k].origin by {
            if l < saved_cursors(d).len() {
                assert(saved_cursors(d)[k].end <= saved_cursors(d)[l].origin || saved_cursors(
                    d,
                )[l].end <= saved_cursors(d)[k].origin);
            } else {
                let i = choose|i: int| kept_from(saved_cursors(d)[k], d, i);
                assert(kept_from(saved_cursors(d)[k], d, i));
                assert(s[i].wf());
                assert(s[s.len() - 1].wf());
                assert(s[i].end <= s[s.len() - 1].origin || s[s.len() - 1].end <= s[i].origin);
            }
        }
    }
}

/// A journal is read back as it was written when every cursor still owes
/// bytes and has written none, and `steal_ptr` is in the range that the
/// number of cursors allows.
pub proof fn lemma_journal_identity(c: Coordinator, live: Seq<Index>)
    requires
        c.wf(),
        live.len() <= u64::MAX,
        forall|i: int| 0 <= i < live.len() ==> (#[trigger] live[i]).origin == live[i].start < live[i].end,
        c.steal_ptr == clamp_ptr(c.steal_ptr as int, live.len() as int),
    ensures
        parse_journal(journal_bytes(c, live), c.total_size) == Ok::<
            (Coordinator, Seq<Index>),
            JournalError,
        >((c, live)),
{
    lemma_saved_all(live);
    lemma_journal_round_trip(c, live, Seq::empty());
    assert(journal_bytes(c, live) + Seq::<u8>::empty() =~= journal_bytes(c, live));
}

/// After a pause and a load the cursors cover exactly the bytes that were
/// not yet written.
///
/// Reading the journal of a consistent state gives a consistent state again
/// whose cursors owe the same set of file offsets, and as many bytes, as the
/// cursors owed when the journal was written; what was handed out stays
/// handed out.
pub proof fn lemma_resume_covers_unwritten(c: Coordinator, live: Seq<Index>)
    requires
        c.consistent(live),
        live.len() <= u64::MAX,
    ensures
        parse_journal(journal_bytes(c, live), c.total_size) matches Ok((c2, live2)) && {
            &&& c2.consistent(live2)
            &&& c2.assigned() == c.assigned()
            &&& owed_bytes(live2) == owed_bytes(live)
            &&& sum_by(live2, Measure::Remaining) == sum_by(live, Measure::Remaining)
        },
{
    let saved = saved_cursors(live);
    lemma_journal_round_trip(c, live, Seq::empty());
    assert(journal_bytes(c, live) + Seq::<u8>::empty() =~= journal_bytes(c, live));
    lemma_saved_cursors(live);
    lemma_saved_both_ways(live);
    lemma_saved_disjoint(live);
    lemma_saved_remaining(live);
    assert forall|k: int| 0 <= k < saved.len() implies (#[trigger] saved[k]).end <= c.assigned() by {
        let i = choose|i: int| kept_from(saved[k], live, i);
        assert(kept_from(saved[k], live, i));
        assert(live[i].end <= c.assigned());
    }
    assert forall|b: int| owed_bytes(saved).contains(b) <==> owed_bytes(live).contains(b) by {
        if owed_bytes(saved).contains(b) {
            let k = choose|k: int| 0 <= k < saved.len() && (#[trigger] saved[k]).start <= b < saved[k].end;
            let i = choose|i: int| kept_from(saved[k], live, i);
            assert(kept_from(saved[k], live, i));
            assert(live[i].start <= b < live[i].end);
        }
        if owed_bytes(live).contains(b) {
            let i = choose|i: int| 0 <= i < live.len() && (#[trigger] live[i]).start <= b < live[i].end;
            assert(live[i].live());
            let k = choose|k: int| kept_at(saved, live[i], k);
            assert(kept_at(saved, live[i], k));
            assert(saved[k].start <= b < saved[k].end);
        }
    }
    assert(owed_bytes(saved) =~= owed_bytes(live));
}

/// Once every segment has been handed out, what was handed out is the whole
/// file: the spans of the cursors add up to the file size.
///
/// This holds for a file that does not end in the middle of the 8 MiB unit
/// at which the segment after its last one begins.
pub proof fn lemma_spans_cover_file(c: Coordinator, live: Seq<Index>)
    requires
        c.wf(),
        c.next_index == c.max_index,
        c.max_index == index_for(c.total_size as int / 8388608),
        c.max_index < RANGE_LEN,
        c.total_size as int % 8388608 == 0 || BOUNDARIES[c.max_index as int] != c.total_size as int
            / 8388608,
        sum_by(live, Measure::Span) == c.assigned(),
    ensures
        sum_by(live, Measure::Span) == c.total_size,
{
    let v = c.total_size as int / 8388608;
    lemma_index_for_found(v, 0);
}

/// The last segment that a file is cut into is the first one of the table
/// whose end reaches the size of the file in whole units of 8 MiB.
pub proof fn lemma_last_segment(size: u64)
    requires
        max_index_for(size) > 0,
    ensures
        max_index_for(size) <= RANGE_LEN,
        range_end(max_index_for(size) - 1) >= size as int / 8388608,
        forall|i: int|
            0 <= i < max_index_for(size) - 1 ==> #[trigger] range_end(i) < size as int / 8388608,
{
    let v = size as int / 8388608;
    lemma_index_for_found(v, 0);
    lemma_index_for_first(v, 0);
    lemma_table_increasing();
}

/// The linear search passes only segments that begin before `v`.
proof fn lemma_index_for_first(v: int, from: int)
    requires
        0 <= from <= RANGE_LEN,
    ensures
        forall|i: int| from <= i < index_for_from(v, from) ==> BOUNDARIES[i] < v,
    decreases RANGE_LEN - from,
{
    if from < RANGE_LEN && BOUNDARIES[from] < v {
        lemma_index_for_first(v, from + 1);
    }
}

/// The linear search stops at a segment that begins at `v` or later.
proof fn lemma_index_for_found(v: int, from: int)
    requires
        0 <= from <= RANGE_LEN,
    ensures
        from <= index_for_from(v, from) <= RANGE_LEN,
        index_for_from(v, from) < RANGE_LEN ==> BOUNDARIES[index_for_from(v, from)] >= v,
    decreases RANGE_LEN - from,
{
    if from < RANGE_LEN && BOUNDARIES[from] < v {
        lemma_index_for_found(v, from + 1);
    }
}

/// Cursors that all owe bytes and have written none are saved as they are.
proof fn lemma_saved_all(s: Seq<Index>)
    requires
        forall|i: int| 0 <= i < s.len() ==> (#[trigger] s[i]).origin == s[i].start < s[i].end,
    ensures
        saved_cursors(s) == s,
    decreases s.len(),
{
    if s.len() > 0 {
        let d = s.drop_last();
        assert forall|i: int| 0 <= i < d.len() implies (#[trigger] d[i]).origin == d[i].start
            < d[i].end by {
            assert(d[i] == s[i]);
        }
        lemma_saved_all(d);
        assert(s.last() == s[s.len() - 1]);
        assert(d.push(s.last()) =~= s);
    } else {
        assert(s =~= Seq::<Index>::empty());
    }
}

/// The linear search from `from` on arrives at `i` when every segment
/// before `i` begins below `v` and segment `i`, if there is one, does not.
proof fn lemma_index_for(v: int, i: int, from: int)
    requires
        0 <= from <= i <= RANGE_LEN,
        forall|j: int| 0 <= j < i ==> BOUNDARIES[j] < v,
        i < RANGE_LEN ==> BOUNDARIES[i] >= v,
    ensures
        index_for_from(v, from) == i,
    decreases i - from,
{
    if from < i {
        lemma_index_for(v, i, from + 1);
    }
}

} // verus!
