//! The pure side of chart rendering: the quantities a bar graph of a
//! poll's tallies is laid out from. Drawing itself is the caller's
//! graphics stack's job.

use vstd::prelude::*;

use crate::models::PollCount;

verus! {

/// How many colours the bar palette cycles through.
pub const PALETTE_SIZE: usize = 6;

/// Which palette entry the bar at `index` gets: the palette repeats
/// every six bars.
pub fn color_index(index: usize) -> (c: usize)
    ensures
        c == index % 6,
        c < 6,
{
    index % PALETTE_SIZE
}

/// The largest tally among `counts`, or 0 when there are none: the
/// upper bound of a chart's value axis.
pub fn max_vote_count(counts: &Vec<PollCount>) -> (m: usize)
    ensures
        counts@.len() == 0 ==> m == 0,
        forall|k: int| 0 <= k < counts@.len() ==> (#[trigger] counts@[k]).count <= m,
        counts@.len() > 0 ==> exists|k: int|
            0 <= k < counts@.len() && (#[trigger] counts@[k]).count == m,
{
    let n = counts.len();
    let mut m: usize = 0;
    let ghost mut widx: int = 0;
    let mut i: usize = 0;
    while i < n
        invariant
            n == counts@.len(),
            0 <= i <= n,
            i == 0 ==> m == 0,
            i > 0 ==> 0 <= widx < i && counts@[widx].count == m,
            forall|k: int| 0 <= k < i ==> (#[trigger] counts@[k]).count <= m,
        decreases n - i,
    {
        if counts[i].count > m {
            m = counts[i].count;
            proof {
                widx = i as int;
            }
        } else {
            if i == 0 {
                proof {
                    widx = 0;
                }
            }
        }
        i += 1;
    }
    m
}

} // verus!
