//! Partition table and tuning constants of the segment coordinator.
//!
//! A download is cut into segments whose sizes grow like the Fibonacci
//! numbers: many small leading segments give fast first bytes and good
//! initial parallelism, a few very large trailing ones keep coordination
//! cheap for big files. The table is stored as its boundaries: segment `i`
//! is the half-open interval `[BOUNDARIES[i], BOUNDARIES[i + 1])`, counted
//! in units of 8 MiB. Journals on disk refer to segments by their index, so
//! the boundaries must never change.

use vstd::prelude::*;

verus! {

/// Bytes in one table unit (8 MiB, a shift by 23 bits).
pub const UNIT_BYTES: u64 = 8388608;

/// Number of segments in the table.
pub const RANGE_LEN: usize = 59;

/// A victim must have more than this many bytes left to be stolen from.
pub const MIN_STEAL_BYTES: u64 = 1048576;

/// Segment boundaries in units of 8 MiB, capped at 2^41 units (2^64 bytes).
pub const BOUNDARIES: [u64; 60] = [
    0, 1, 2, 4,
    7, 12, 20, 33,
    54, 88, 143, 232,
    376, 609, 986, 1596,
    2583, 4180, 6764, 10945,
    17710, 28656, 46367, 75024,
    121392, 196417, 317810, 514228,
    832039, 1346268, 2178308, 3524577,
    5702886, 9227464, 14930351, 24157816,
    39088168, 63245985, 102334154, 165580140,
    267914295, 433494436, 701408732, 1134903169,
    1836311902, 2971215072, 4807526975, 7778742048,
    12586269024, 20365011073, 32951280098, 53316291172,
    86267571271, 139583862444, 225851433716, 365435296161,
    591286729878, 956722026040, 1548008755918, 2199023255552,
];

/// First unit of segment `i`.
pub open spec fn range_start(i: int) -> int {
    BOUNDARIES[i] as int
}

/// One past the last unit of segment `i`.
pub open spec fn range_end(i: int) -> int {
    BOUNDARIES[i + 1] as int
}

} // verus!

verus! {

/// The table is strictly increasing: every segment is non-empty and each
/// boundary lies above all earlier ones. Segment `i` ends where segment
/// `i + 1` begins by construction.
pub proof fn lemma_table_increasing()
    ensures
        forall|i: int| 0 <= i < RANGE_LEN ==> range_start(i) < range_end(i),
        forall|i: int| 0 <= i < RANGE_LEN - 1 ==> range_end(i) == range_start(i + 1),
        forall|i: int, j: int| 0 <= i < j <= RANGE_LEN ==> BOUNDARIES[i] < BOUNDARIES[j],
        BOUNDARIES[0] == 0,
        BOUNDARIES[RANGE_LEN as int] == 2199023255552,
{
}

} // verus!
