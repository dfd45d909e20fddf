//! The weighted neighbor sampler.
//!
//! Stage A draws an index into a table of nine weights, each index being
//! selected with probability proportional to its weight. Stage B translates
//! the index into a relative offset in the 3x3 neighborhood and resolves it
//! against a cell position, redrawing until the neighbor lies inside the
//! grid.

use vstd::prelude::*;

use crate::rng::RandomSource;
use crate::BlendError;

verus! {

/// How many redraws stage B attempts before falling back to the cell
/// itself. A table that gives some cell no in-bounds neighbor of positive
/// weight would otherwise spin forever; blending a cell with itself leaves
/// it unchanged, so the fallback is a no-op for that cell.
pub const RETRY_LIMIT: u32 = 1000000;

/// The sum of the first `k` weights of the table.
pub open spec fn prefix_total(t: Seq<u8>, k: int) -> int
    decreases k,
{
    if k <= 0 {
        0
    } else {
        prefix_total(t, k - 1) + t[k - 1]
    }
}

/// The total weight of the table.
pub open spec fn table_total(t: Seq<u8>) -> int {
    prefix_total(t, t.len() as int)
}

/// The draw `d` selects index `k`: `k` is the first index whose running
/// sum, after including weight `k` itself, strictly exceeds `d`.
pub open spec fn is_selected(t: Seq<u8>, d: int, k: int) -> bool {
    &&& 0 <= k < t.len()
    &&& prefix_total(t, k) <= d
    &&& d < prefix_total(t, k + 1)
}

/// Offset `m` of the 3x3 table, applied to cell `(i, j)`, resolves inside
/// the `size`-sided grid.
pub open spec fn offset_in_bounds(i: int, j: int, size: int, m: int) -> bool {
    0 <= i + (m / 3 - 1) < size && 0 <= j + (m % 3 - 1) < size
}

/// Some offset with strictly positive weight resolves out of bounds for
/// cell `(i, j)`: only such a cell can ever see stage B reject a draw, and
/// so only such a cell can exhaust the retry budget.
pub open spec fn has_blocked_offset(t: Seq<u8>, i: int, j: int, size: int) -> bool {
    exists|m: int| 0 <= m < 9 && t[m] > 0 && !offset_in_bounds(i, j, size, m)
}

pub proof fn lemma_prefix_total_bounds(t: Seq<u8>, k: int)
    requires
        0 <= k <= t.len(),
    ensures
        0 <= prefix_total(t, k) <= 255 * k,
    decreases k,
{
    if k > 0 {
        lemma_prefix_total_bounds(t, k - 1);
    }
}

pub proof fn lemma_prefix_total_mono(t: Seq<u8>, k1: int, k2: int)
    requires
        0 <= k1 <= k2 <= t.len(),
    ensures
        prefix_total(t, k1) <= prefix_total(t, k2),
    decreases k2 - k1,
{
    if k1 < k2 {
        lemma_prefix_total_mono(t, k1, k2 - 1);
    }
}

/// A draw never selects an index whose weight is zero: the running sum
/// does not increase across such an index, so it cannot be the first to
/// exceed the draw.
pub proof fn lemma_selected_weight_positive(t: Seq<u8>, d: int, k: int)
    requires
        is_selected(t, d, k),
    ensures
        t[k] > 0,
{
}

/// Calibration of the weighted draw: index `k` is selected by exactly the
/// draws in the interval `[prefix_total(t, k), prefix_total(t, k) + t[k])`,
/// which holds `t[k]` of the `table_total(t)` equally likely draws. A
/// uniform draw therefore selects `k` with probability `t[k]` over
/// `table_total(t)`.
pub proof fn lemma_selection_calibration(t: Seq<u8>, k: int)
    requires
        0 <= k < t.len(),
    ensures
        forall|d: int|
            is_selected(t, d, k) <==> (prefix_total(t, k) <= d < prefix_total(t, k) + t[k]),
{
}

proof fn lemma_selection_exists_from(t: Seq<u8>, d: int, k: int)
    requires
        0 <= k <= t.len(),
        prefix_total(t, k) <= d < table_total(t),
    ensures
        exists|j: int| is_selected(t, d, j),
    decreases t.len() - k,
{
    assert(k < t.len());
    if prefix_total(t, k + 1) > d {
        assert(is_selected(t, d, k));
    } else {
        lemma_selection_exists_from(t, d, k + 1);
    }
}

/// Every draw below the total selects some index.
pub proof fn lemma_selection_exists(t: Seq<u8>, d: int)
    requires
        0 <= d < table_total(t),
    ensures
        exists|j: int| is_selected(t, d, j),
{
    lemma_selection_exists_from(t, d, 0);
}

/// A draw selects exactly one index.
pub proof fn lemma_selection_unique(t: Seq<u8>, d: int, k1: int, k2: int)
    requires
        is_selected(t, d, k1),
        is_selected(t, d, k2),
    ensures
        k1 == k2,
{
    if k1 < k2 {
        lemma_prefix_total_mono(t, k1 + 1, k2);
    }
    if k2 < k1 {
        lemma_prefix_total_mono(t, k2 + 1, k1);
    }
}

/// The total weight of the nine-entry table.
pub fn total_weight(probabilities: &[u8; 9]) -> (t: usize)
    ensures
        t == table_total(probabilities@),
{
    let mut t: usize = 0;
    let mut k: usize = 0;
    while k < 9
        invariant
            k <= 9,
            t == prefix_total(probabilities@, k as int),
            t <= 255 * k,
        decreases 9 - k,
    {
        t = t + probabilities[k] as usize;
        k = k + 1;
    }
    t
}

/// Scan the weights in index order, accumulating a running sum, and return
/// the first index whose running sum, after including that entry, exceeds
/// the draw `d`.
pub fn select_index(probabilities: &[u8; 9], d: usize) -> (k: usize)
    requires
        (d as int) < table_total(probabilities@),
    ensures
        is_selected(probabilities@, d as int, k as int),
{
    let mut k: usize = 0;
    let mut sum: usize = probabilities[0] as usize;
    proof {
        assert(prefix_total(probabilities@, 0) == 0);
        assert(prefix_total(probabilities@, 1) == probabilities@[0]);
    }
    while sum <= d
        invariant
            k < 9,
            sum == prefix_total(probabilities@, k as int + 1),
            prefix_total(probabilities@, k as int) <= d as int,
            (d as int) < table_total(probabilities@),
            sum <= 255 * (k + 1),
        decreases 9 - k,
    {
        proof {
            if k as int + 1 == 9 {
                assert(table_total(probabilities@) == prefix_total(probabilities@, 9));
                assert(false);
            }
            lemma_prefix_total_bounds(probabilities@, k as int + 1);
        }
        k = k + 1;
        sum = sum + probabilities[k] as usize;
    }
    k
}

/// Stage A: draw an integer uniformly below the table's total and select
/// the index whose weight interval covers it. An index with weight zero is
/// never returned; a table whose total is zero is reported as degenerate.
pub fn pick_from_probability(rng: &mut RandomSource, probabilities: &[u8; 9]) -> (r: Result<
    usize,
    BlendError,
>)
    ensures
        r is Err <==> table_total(probabilities@) == 0,
        r matches Err(e) ==> e == BlendError::DegenerateProbabilityTable,
        r matches Ok(k) ==> k < 9 && probabilities@[k as int] > 0 && (exists|d: int|
            0 <= d < table_total(probabilities@) && is_selected(probabilities@, d, k as int)),
{
    let total = total_weight(probabilities);
    if total == 0 {
        return Err(BlendError::DegenerateProbabilityTable);
    }
    let d = rng.draw_below(total);
    let k = select_index(probabilities, d);
    proof {
        lemma_selected_weight_positive(probabilities@, d as int, k as int);
        assert(k < 9);
        assert(probabilities@[k as int] > 0);
        assert(exists|d2: int|
            0 <= d2 < table_total(probabilities@) && is_selected(probabilities@, d2, k as int))
            by {
            assert(0 <= (d as int) && (d as int) < table_total(probabilities@) && is_selected(
                probabilities@,
                d as int,
                k as int,
            ));
        }
    }
    Ok(k)
}

/// Translate a table index to its fixed relative offset, the indices
/// covering `{-1, 0, 1} x {-1, 0, 1}` in row-major order (index 4 is the
/// center offset `(0, 0)`).
pub fn split_index(idx: usize) -> (r: (isize, isize))
    requires
        idx < 9,
    ensures
        r.0 as int == idx as int / 3 - 1,
        r.1 as int == idx as int % 3 - 1,
{
    match idx {
        0 => (-1, -1),
        1 => (-1, 0),
        2 => (-1, 1),
        3 => (0, -1),
        4 => (0, 0),
        5 => (0, 1),
        6 => (1, -1),
        7 => (1, 0),
        _ => (1, 1),
    }
}

/// Stage B: repeatedly draw a weighted offset and resolve it against the
/// cell `(i, j)`, accepting the first resulting coordinate that lies inside
/// the `size`-sided grid.
///
/// The result is always in bounds and at most one step away on each axis,
/// and it is reached through an offset of strictly positive weight — except
/// that a cell for which some positive-weight offset resolves out of bounds
/// may, when the retry budget runs out, fall back to the cell itself.
#[verifier::loop_isolation(false)]
pub fn pick_blend_indexes(
    rng: &mut RandomSource,
    i: usize,
    j: usize,
    size: usize,
    probabilities: &[u8; 9],
) -> (r: Result<(usize, usize), BlendError>)
    requires
        i < size,
        j < size,
    ensures
        r matches Ok(p) ==> p.0 < size && p.1 < size && -1 <= p.0 as int - i as int <= 1 && -1
            <= p.1 as int - j as int <= 1,
        r matches Ok(p) ==> probabilities@[3 * (p.0 as int - i as int + 1) + (p.1 as int
            - j as int + 1)] > 0 || (p.0 == i && p.1 == j && has_blocked_offset(
            probabilities@,
            i as int,
            j as int,
            size as int,
        )),
        r is Err <==> table_total(probabilities@) == 0,
        r matches Err(e) ==> e == BlendError::DegenerateProbabilityTable,
{
    proof {
        lemma_prefix_total_bounds(probabilities@, 9);
    }
    let mut attempts: u32 = 0;
    while attempts < RETRY_LIMIT
        invariant
            attempts > 0 ==> table_total(probabilities@) > 0,
            attempts > 0 ==> has_blocked_offset(probabilities@, i as int, j as int, size as int),
        decreases RETRY_LIMIT - attempts,
    {
        let k = match pick_from_probability(rng, probabilities) {
            Ok(k) => k,
            Err(e) => {
                return Err(e);
            },
        };
        let (row_diff, col_diff) = split_index(k);
        let row_ok = if row_diff < 0 {
            i >= 1
        } else if row_diff > 0 {
            i + 1 < size
        } else {
            true
        };
        let col_ok = if col_diff < 0 {
            j >= 1
        } else if col_diff > 0 {
            j + 1 < size
        } else {
            true
        };
        proof {
            assert((row_ok && col_ok) == offset_in_bounds(i as int, j as int, size as int, k as int));
        }
        if row_ok && col_ok {
            let ni = if row_diff < 0 {
                i - 1
            } else if row_diff > 0 {
                i + 1
            } else {
                i
            };
            let nj = if col_diff < 0 {
                j - 1
            } else if col_diff > 0 {
                j + 1
            } else {
                j
            };
            proof {
                assert(ni as int - i as int == row_diff as int);
                assert(nj as int - j as int == col_diff as int);
                assert(3 * (ni as int - i as int + 1) + (nj as int - j as int + 1) == k as int);
            }
            return Ok((ni, nj));
        }
        proof {
            // The rejected draw itself witnesses a positive-weight offset
            // that resolves out of bounds for this cell.
            assert(probabilities@[k as int] > 0 && !offset_in_bounds(
                i as int,
                j as int,
                size as int,
                k as int,
            ));
            assert(has_blocked_offset(probabilities@, i as int, j as int, size as int));
        }
        attempts = attempts + 1;
    }
    // The retry budget is exhausted, which only a cell with a blocked
    // offset can reach: fall back to the cell itself, which is always in
    // bounds and blends to a no-op.
    Ok((i, j))
}

} // verus!
