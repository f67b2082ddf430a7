//! The byte format of the metadata journal.
//!
//! A journal is the snapshot of one download that is written on pause and
//! read on resume: four bytes of coordinator state, the number of cursors
//! that still owe bytes, and for each of them its `start` and `end`.
//!
//! ```text
//! next_index:u8 max_index:u8 steal_ptr:u8 steal_exhausted:u8
//! cursor_count:varint (start:varint end:varint)*
//! ```
//!
//! Integers wider than a byte are written by `bincode` in its standard
//! configuration: a value below 251 is one byte; a larger one is a marker
//! byte (251, 252 or 253) followed by the value in 2, 4 or 8 bytes, least
//! significant byte first.

use vstd::prelude::*;
use super::coordinator::Coordinator;
use super::coordinator::clamp_ptr;
use super::index::Index;

verus! {

/// Why a journal could not be read.
#[derive(Clone, Copy, Debug, PartialEq, Eq, Structural)]
pub enum JournalError {
    /// The bytes stop in the middle of a field.
    UnexpectedEnd,
    /// The `steal_exhausted` byte is neither 0 nor 1.
    InvalidBoolean,
    /// An integer begins with a marker byte that stands for no width that
    /// fits 64 bits.
    InvalidInteger,
    /// The segment indices are out of order or outside the table.
    InvalidHeader,
    /// A cursor ends before it starts.
    InvalidCursor,
}

/// The `width` low bytes of `v`, least significant first.
pub open spec fn le_bytes(v: int, width: nat) -> Seq<u8>
    decreases width,
{
    if width == 0 {
        Seq::empty()
    } else {
        seq![(v % 256) as u8] + le_bytes(v / 256, (width - 1) as nat)
    }
}

/// The number whose bytes, least significant first, are `s`.
pub open spec fn le_value(s: Seq<u8>) -> int
    decreases s.len(),
{
    if s.len() == 0 {
        0
    } else {
        s[0] as int + 256 * le_value(s.drop_first())
    }
}

/// The bytes of an unsigned integer in the journal.
pub open spec fn uint_bytes(v: u64) -> Seq<u8> {
    if v < 251 {
        seq![v as u8]
    } else if v < 0x1_0000 {
        seq![251u8] + le_bytes(v as int, 2)
    } else if v < 0x1_0000_0000 {
        seq![252u8] + le_bytes(v as int, 4)
    } else {
        seq![253u8] + le_bytes(v as int, 8)
    }
}

/// The unsigned integer that `s` begins with, and how many bytes it takes;
/// `None` when `s` is empty, begins with a marker above 253, or is shorter
/// than its marker announces.
pub open spec fn uint_parse(s: Seq<u8>) -> Option<(u64, int)> {
    if s.len() == 0 {
        None
    } else if s[0] < 251 {
        Some((s[0] as u64, 1))
    } else if s[0] == 251 && s.len() >= 3 {
        Some((le_value(s.subrange(1, 3)) as u64, 3))
    } else if s[0] == 252 && s.len() >= 5 {
        Some((le_value(s.subrange(1, 5)) as u64, 5))
    } else if s[0] == 253 && s.len() >= 9 {
        Some((le_value(s.subrange(1, 9)) as u64, 9))
    } else {
        None
    }
}

/// What the journal holds of a sequence of cursors: those that still owe
/// bytes, each with only its `start` and `end`.
pub open spec fn saved_cursors(s: Seq<Index>) -> Seq<Index>
    decreases s.len(),
{
    if s.len() == 0 {
        Seq::empty()
    } else if s.last().live() {
        saved_cursors(s.drop_last()).push(
            Index { origin: s.last().start, start: s.last().start, end: s.last().end },
        )
    } else {
        saved_cursors(s.drop_last())
    }
}

/// The bytes of the cursors of `s`, one after the other.
pub open spec fn cursors_bytes(s: Seq<Index>) -> Seq<u8>
    decreases s.len(),
{
    if s.len() == 0 {
        Seq::empty()
    } else {
        cursors_bytes(s.drop_last()) + uint_bytes(s.last().start) + uint_bytes(s.last().end)
    }
}

/// The four bytes of coordinator state.
pub open spec fn header_bytes(c: Coordinator) -> Seq<u8> {
    seq![
        c.next_index,
        c.max_index,
        c.steal_ptr,
        if c.steal_exhausted {
            1u8
        } else {
            0u8
        },
    ]
}

/// The journal of a coordinator and its cursors.
pub open spec fn journal_bytes(c: Coordinator, live: Seq<Index>) -> Seq<u8> {
    header_bytes(c) + uint_bytes(saved_cursors(live).len() as u64) + cursors_bytes(
        saved_cursors(live),
    )
}

/// Reading an unsigned integer: the value and its length, or why not.
pub open spec fn parse_uint(s: Seq<u8>) -> Result<(u64, int), JournalError> {
    match uint_parse(s) {
        Some(found) => Ok(found),
        None => if s.len() > 0 && s[0] >= 254 {
            Err(JournalError::InvalidInteger)
        } else {
            Err(JournalError::UnexpectedEnd)
        },
    }
}

/// Reading the coordinator state for a file of `total` bytes.
pub open spec fn parse_header(s: Seq<u8>, total: u64) -> Result<Coordinator, JournalError> {
    if s.len() < 4 {
        Err(JournalError::UnexpectedEnd)
    } else if s[3] > 1 {
        Err(JournalError::InvalidBoolean)
    } else {
        let c = Coordinator {
            next_index: s[0],
            max_index: s[1],
            steal_ptr: s[2],
            steal_exhausted: s[3] == 1,
            total_size: total,
        };
        if c.wf() {
            Ok(c)
        } else {
            Err(JournalError::InvalidHeader)
        }
    }
}

/// Reading one cursor: the cursor and its length in bytes, or why not.
pub open spec fn parse_cursor(s: Seq<u8>) -> Result<(Index, int), JournalError> {
    match parse_uint(s) {
        Err(e) => Err(e),
        Ok((start, n1)) => match parse_uint(s.skip(n1)) {
            Err(e) => Err(e),
            Ok((end, n2)) => if start <= end {
                Ok((Index { origin: start, start, end }, n1 + n2))
            } else {
                Err(JournalError::InvalidCursor)
            },
        },
    }
}

/// Reading `count` cursors, one after the other.
pub open spec fn parse_cursors(s: Seq<u8>, count: int) -> Result<Seq<Index>, JournalError>
    decreases count,
{
    if count <= 0 {
        Ok(Seq::empty())
    } else {
        match parse_cursor(s) {
            Err(e) => Err(e),
            Ok((c, n)) => match parse_cursors(s.skip(n), count - 1) {
                Err(e) => Err(e),
                Ok(rest) => Ok(seq![c] + rest),
            },
        }
    }
}

/// Reading a whole journal for a file of `total` bytes: the coordinator,
/// with `steal_ptr` clamped to the number of cursors read, and the cursors.
/// Bytes behind the last cursor are not looked at.
pub open spec fn parse_journal(s: Seq<u8>, total: u64) -> Result<
    (Coordinator, Seq<Index>),
    JournalError,
> {
    match parse_header(s, total) {
        Err(e) => Err(e),
        Ok(c) => match parse_uint(s.skip(4)) {
            Err(e) => Err(e),
            Ok((count, n)) => match parse_cursors(s.skip(4 + n), count as int) {
                Err(e) => Err(e),
                Ok(live) => Ok(
                    (
                        Coordinator {
                            next_index: c.next_index,
                            max_index: c.max_index,
                            steal_ptr: clamp_ptr(c.steal_ptr as int, live.len() as int) as u8,
                            steal_exhausted: c.steal_exhausted,
                            total_size: c.total_size,
                        },
                        live,
                    ),
                ),
            },
        },
    }
}

/// `bincode::encode_to_vec` on a `u64`, in the standard configuration
/// (little endian, variable-length integers).
///
/// Claimed of it: encoding an integer into a vector cannot fail, and the
/// bytes are `uint_bytes(v)`: the value itself below 251, else the marker
/// 251, 252 or 253 and the value in 2, 4 or 8 little-endian bytes, the
/// shortest form that holds it.
#[verifier::external_body]
pub(crate) fn uint_to_bytes(v: u64) -> (r: Option<Vec<u8>>)
    ensures
        r is Some,
        r.unwrap()@ == uint_bytes(v),
{
    bincode::encode_to_vec(v, bincode::config::standard()).ok()
}

/// `bincode::decode_from_slice` for a `u64`, in the standard configuration.
///
/// Claimed of it: it reads the integer that `src` begins with and reports
/// how many bytes it took, as `uint_parse` says; a longer form than needed
/// is accepted. It fails exactly when `src` is empty, begins with a marker
/// above 253, or ends before the bytes that the marker announces.
#[verifier::external_body]
pub(crate) fn uint_from_bytes(src: &[u8]) -> (r: Option<(u64, usize)>)
    ensures
        match r {
            Some((v, n)) => uint_parse(src@) == Some((v, n as int)),
            None => uint_parse(src@) is None,
        },
{
    bincode::decode_from_slice::<u64, _>(src, bincode::config::standard()).ok()
}

/// 256 to the power `w`.
pub open spec fn pow256(w: nat) -> int
    decreases w,
{
    if w == 0 {
        1
    } else {
        256 * pow256((w - 1) as nat)
    }
}

/// `le_bytes` has the width asked for, and `le_value` reads back a number
/// that the width can hold.
pub proof fn lemma_le_round_trip(v: int, width: nat)
    requires
        0 <= v < pow256(width),
    ensures
        le_bytes(v, width).len() == width,
        le_value(le_bytes(v, width)) == v,
    decreases width,
{
    if width > 0 {
        lemma_le_round_trip(v / 256, (width - 1) as nat);
        assert(le_bytes(v, width).drop_first() =~= le_bytes(v / 256, (width - 1) as nat));
    }
}

/// An integer that was written is read back, whatever follows it.
pub proof fn lemma_uint_round_trip(v: u64, rest: Seq<u8>)
    ensures
        parse_uint(uint_bytes(v) + rest) == Ok::<(u64, int), JournalError>(
            (v, uint_bytes(v).len() as int),
        ),
        1 <= uint_bytes(v).len() <= 9,
{
    let s = uint_bytes(v) + rest;
    reveal_with_fuel(pow256, 9);
    if v < 251 {
    } else if v < 0x1_0000 {
        lemma_le_round_trip(v as int, 2);
        assert(s.subrange(1, 3) =~= le_bytes(v as int, 2));
    } else if v < 0x1_0000_0000 {
        lemma_le_round_trip(v as int, 4);
        assert(s.subrange(1, 5) =~= le_bytes(v as int, 4));
    } else {
        lemma_le_round_trip(v as int, 8);
        assert(s.subrange(1, 9) =~= le_bytes(v as int, 8));
    }
}

/// Appending a cursor to a sequence appends its bytes.
pub proof fn lemma_cursors_bytes_push(s: Seq<Index>, c: Index)
    ensures
        cursors_bytes(s.push(c)) == cursors_bytes(s) + uint_bytes(c.start) + uint_bytes(c.end),
{
    assert(s.push(c).drop_last() =~= s);
}

/// The bytes of a sequence of cursors begin with those of its first one.
pub proof fn lemma_cursors_bytes_first(s: Seq<Index>)
    requires
        s.len() > 0,
    ensures
        cursors_bytes(s) == uint_bytes(s[0].start) + uint_bytes(s[0].end) + cursors_bytes(
            s.drop_first(),
        ),
    decreases s.len(),
{
    if s.len() == 1 {
        assert(s.drop_last() =~= Seq::<Index>::empty());
        assert(s.drop_first() =~= Seq::<Index>::empty());
        assert(cursors_bytes(s) =~= uint_bytes(s[0].start) + uint_bytes(s[0].end) + cursors_bytes(
            s.drop_first(),
        ));
    } else {
        lemma_cursors_bytes_first(s.drop_last());
        assert(s.drop_last().drop_first() =~= s.drop_first().drop_last());
        assert(s.drop_first().last() == s.last());
        assert(cursors_bytes(s) =~= uint_bytes(s[0].start) + uint_bytes(s[0].end) + cursors_bytes(
            s.drop_first(),
        ));
    }
}

/// A cursor that was written is read back, whatever follows it, unless it
/// ends before it starts.
pub proof fn lemma_cursor_round_trip(c: Index, rest: Seq<u8>)
    requires
        c.origin == c.start <= c.end,
    ensures
        parse_cursor(uint_bytes(c.start) + uint_bytes(c.end) + rest) == Ok::<
            (Index, int),
            JournalError,
        >((c, (uint_bytes(c.start).len() + uint_bytes(c.end).len()) as int)),
{
    let a = uint_bytes(c.start);
    let b = uint_bytes(c.end);
    let bytes = a + b + rest;
    lemma_uint_round_trip(c.start, b + rest);
    lemma_uint_round_trip(c.end, rest);
    assert(bytes =~= a + (b + rest));
    assert(bytes.skip(a.len() as int) =~= b + rest);
}

/// Cursors that were written are read back, whatever follows them, as long
/// as none of them ends before it starts.
pub proof fn lemma_cursors_round_trip(s: Seq<Index>, rest: Seq<u8>)
    requires
        forall|i: int| 0 <= i < s.len() ==> (#[trigger] s[i]).origin == s[i].start <= s[i].end,
    ensures
        parse_cursors(cursors_bytes(s) + rest, s.len() as int) == Ok::<Seq<Index>, JournalError>(s),
    decreases s.len(),
{
    if s.len() == 0 {
        assert(s =~= Seq::<Index>::empty());
    } else {
        let c = s[0];
        let tail = s.drop_first();
        let bytes = cursors_bytes(s) + rest;
        let head = uint_bytes(c.start) + uint_bytes(c.end);
        let after = cursors_bytes(tail) + rest;
        assert(bytes =~= head + after) by {
            lemma_cursors_bytes_first(s);
        }
        assert(parse_cursor(bytes) == Ok::<(Index, int), JournalError>((c, head.len() as int))) by {
            lemma_cursor_round_trip(c, after);
        }
        assert(bytes.skip(head.len() as int) =~= after);
        assert(parse_cursors(after, tail.len() as int) == Ok::<Seq<Index>, JournalError>(tail)) by {
            assert forall|i: int| 0 <= i < tail.len() implies (#[trigger] tail[i]).origin
                == tail[i].start <= tail[i].end by {
                assert(tail[i] == s[i + 1]);
            }
            lemma_cursors_round_trip(tail, rest);
        }
        assert(seq![c] + tail =~= s);
    }
}

/// What is saved of a sequence of cursors: no more cursors than there were,
/// each with `origin == start < end`.
pub proof fn lemma_saved_cursors(s: Seq<Index>)
    ensures
        saved_cursors(s).len() <= s.len(),
        forall|i: int|
            0 <= i < saved_cursors(s).len() ==> (#[trigger] saved_cursors(s)[i]).origin
                == saved_cursors(s)[i].start < saved_cursors(s)[i].end,
    decreases s.len(),
{
    if s.len() > 0 {
        lemma_saved_cursors(s.drop_last());
    }
}

/// A journal that was written is read back: the coordinator comes back with
/// `steal_ptr` clamped to the number of saved cursors, and the cursors are
/// the saved ones. Bytes that follow the journal change nothing.
pub proof fn lemma_journal_round_trip(c: Coordinator, live: Seq<Index>, rest: Seq<u8>)
    requires
        c.wf(),
        live.len() <= u64::MAX,
    ensures
        parse_journal(journal_bytes(c, live) + rest, c.total_size) == Ok::<
            (Coordinator, Seq<Index>),
            JournalError,
        >(
            (
                Coordinator {
                    next_index: c.next_index,
                    max_index: c.max_index,
                    steal_ptr: clamp_ptr(c.steal_ptr as int, saved_cursors(live).len() as int) as u8,
                    steal_exhausted: c.steal_exhausted,
                    total_size: c.total_size,
                },
                saved_cursors(live),
            ),
        ),
{
    let saved = saved_cursors(live);
    lemma_saved_cursors(live);
    let count = saved.len() as u64;
    let bytes = journal_bytes(c, live) + rest;
    let tail = cursors_bytes(saved) + rest;
    assert(bytes =~= header_bytes(c) + (uint_bytes(count) + tail));
    assert(bytes.skip(4) =~= uint_bytes(count) + tail);
    lemma_uint_round_trip(count, tail);
    assert(bytes.skip(4 + uint_bytes(count).len() as int) =~= tail);
    lemma_cursors_round_trip(saved, rest);
    assert(parse_header(bytes, c.total_size) == Ok::<Coordinator, JournalError>(c));
}

} // verus!
