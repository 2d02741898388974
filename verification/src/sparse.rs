//! Sparse-run accounting for raw stream reads.
//!
//! A sparse data attribute can be split over several non-resident
//! fragments; runs without a data position are holes. The payload of such
//! a stream starts past the holes' allocated bytes, so the reader seeks to
//! their accumulated size before copying. Reading the run table is the
//! NTFS parser's work; the accounting over it is decided here.

use vstd::prelude::*;

verus! {

/// One data run of a non-resident attribute fragment: whether it is a hole
/// (no data position on disk) and how many bytes it has allocated.
#[derive(Debug, Clone, Copy, PartialEq, Eq, Structural)]
pub struct SparseRun {
    pub is_hole: bool,
    pub allocated_size: u64,
}

/// The allocated bytes of all hole runs, summed.
pub open spec fn hole_sum(runs: Seq<SparseRun>) -> int
    decreases runs.len(),
{
    if runs.len() == 0 {
        0
    } else {
        hole_sum(runs.drop_last()) + (if runs.last().is_hole {
            runs.last().allocated_size as int
        } else {
            0
        })
    }
}

/// Where the declared non-hole payload of a sparse stream starts: the sum
/// of the hole runs' allocated sizes, saturated at the largest position.
pub fn sparse_payload_start(runs: &Vec<SparseRun>) -> (r: u64)
    ensures
        hole_sum(runs@) <= u64::MAX ==> r == hole_sum(runs@),
        hole_sum(runs@) > u64::MAX ==> r == u64::MAX,
{
    let mut acc: u64 = 0;
    let mut i: usize = 0;
    proof {
        assert(runs@.subrange(0, 0) =~= Seq::<SparseRun>::empty());
    }
    while i < runs.len()
        invariant
            i <= runs@.len(),
            hole_sum(runs@.subrange(0, i as int)) <= u64::MAX ==> acc == hole_sum(
                runs@.subrange(0, i as int),
            ),
            hole_sum(runs@.subrange(0, i as int)) > u64::MAX ==> acc == u64::MAX,
            acc <= hole_sum(runs@.subrange(0, i as int)),
        decreases runs@.len() - i,
    {
        let ghost pre = runs@.subrange(0, i as int);
        let run = runs[i];
        if run.is_hole {
            if acc <= u64::MAX - run.allocated_size {
                acc = acc + run.allocated_size;
            } else {
                acc = u64::MAX;
            }
        }
        proof {
            assert(runs@.subrange(0, i + 1).drop_last() =~= pre);
        }
        i = i + 1;
    }
    proof {
        assert(runs@.subrange(0, runs@.len() as int) =~= runs@);
    }
    acc
}

} // verus!
