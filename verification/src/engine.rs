//! The diffusion engine: noise grid generation and the double-buffered
//! blending rounds.
//!
//! Each round builds a complete destination grid from the previous round's
//! source grid: every destination cell is the truncated average of the
//! matching source cell and one randomly sampled in-bounds neighbor of it.
//! Two buffers alternate as source and destination, so no cell ever reads
//! a value written in the same round.

use vstd::prelude::*;

use crate::rng::RandomSource;
use crate::sampler::has_blocked_offset;
use crate::sampler::pick_blend_indexes;
use crate::sampler::table_total;
use crate::BlendError;

verus! {

/// The mathematical model of a grid: a sequence of rows, each a sequence
/// of byte intensities.
pub open spec fn grid_view(g: Vec<Vec<u8>>) -> Seq<Seq<u8>> {
    Seq::new(g@.len(), |i: int| g@[i]@)
}

/// A grid is square with side `n`: `n` rows of `n` cells each.
pub open spec fn is_grid(g: Seq<Seq<u8>>, n: int) -> bool {
    g.len() == n && forall|i: int| 0 <= i < n ==> (#[trigger] g[i]).len() == n
}

/// The rounded-down average of two cell values; the fractional half, if
/// any, is discarded.
pub open spec fn avg(a: u8, b: u8) -> int {
    (a + b) / 2
}

/// `v` is a value the blending round may put at cell `(i, j)` of the
/// destination: the truncated average of source cell `(i, j)` and some
/// in-bounds source cell at most one step away on each axis, reached
/// through an offset of strictly positive weight in `t` — or, for a cell
/// that some positive-weight offset of `t` resolves out of bounds, the
/// cell's own value (the sampler's fall-back after exhausted retries).
pub open spec fn blended_value(from: Seq<Seq<u8>>, t: Seq<u8>, i: int, j: int, v: u8) -> bool {
    exists|ni: int, nj: int|
        0 <= ni < from.len() && 0 <= nj < from.len() && -1 <= ni - i <= 1 && -1 <= nj - j <= 1 && (
        t[3 * (ni - i + 1) + (nj - j + 1)] > 0 || (ni == i && nj == j && has_blocked_offset(
            t,
            i,
            j,
            from.len() as int,
        ))) && v == avg(from[i][j], #[trigger] from[ni][nj])
}

/// One complete blending round under the weight table `t`: `into` is
/// square, and every one of its cells blends the matching `from` cell with
/// an in-bounds neighbor that the table can select.
pub open spec fn blend_rel(from: Seq<Seq<u8>>, into: Seq<Seq<u8>>, t: Seq<u8>, n: int) -> bool {
    &&& is_grid(from, n)
    &&& is_grid(into, n)
    &&& forall|i: int, j: int|
        0 <= i < n && 0 <= j < n ==> blended_value(from, t, i, j, #[trigger] into[i][j])
}

/// `out` arises from `init` by exactly `rounds` complete blending rounds
/// under the weight table `t`.
pub open spec fn diffusion_trace(
    init: Seq<Seq<u8>>,
    out: Seq<Seq<u8>>,
    t: Seq<u8>,
    n: int,
    rounds: int,
) -> bool {
    exists|c: Seq<Seq<Seq<u8>>>|
        #[trigger] c.len() == rounds + 1 && c[0] == init && c[rounds] == out && (forall|q: int|
            0 <= q < rounds ==> blend_rel(#[trigger] c[q], c[q + 1], t, n))
}

/// The truncated average of two byte intensities, computed in a width
/// wide enough that the sum (at most 510) cannot overflow.
pub fn average(a: u8, b: u8) -> (r: u8)
    ensures
        r as int == avg(a, b),
{
    (((a as u16) + (b as u16)) / 2) as u8
}

/// Generate a square matrix filled with noise: every cell independently
/// drawn uniformly over the full byte range.
#[verifier::loop_isolation(false)]
pub fn gen_matrix(rng: &mut RandomSource, size: usize) -> (m: Vec<Vec<u8>>)
    ensures
        is_grid(grid_view(m), size as int),
{
    let mut mat: Vec<Vec<u8>> = Vec::new();
    let mut i: usize = 0;
    while i < size
        invariant
            i <= size,
            mat@.len() == i,
            forall|a: int| 0 <= a < i ==> (#[trigger] grid_view(mat)[a]).len() == size,
        decreases size - i,
    {
        let mut row: Vec<u8> = Vec::new();
        let mut j: usize = 0;
        while j < size
            invariant
                j <= size,
                row@.len() == j,
            decreases size - j,
        {
            row.push(rng.draw_byte());
            j = j + 1;
        }
        let ghost prev = grid_view(mat);
        mat.push(row);
        proof {
            assert forall|a: int| 0 <= a < i + 1 implies (#[trigger] grid_view(mat)[a]).len()
                == size by {
                if a == i as int {
                    assert(grid_view(mat)[a] == row@);
                } else {
                    assert(grid_view(mat)[a] == prev[a]);
                }
            }
        }
        i = i + 1;
    }
    mat
}

/// An independent copy of a grid, cell by cell.
#[verifier::loop_isolation(false)]
pub fn clone_grid(g: &Vec<Vec<u8>>) -> (r: Vec<Vec<u8>>)
    ensures
        grid_view(r) == grid_view(*g),
{
    let mut out: Vec<Vec<u8>> = Vec::new();
    let mut i: usize = 0;
    while i < g.len()
        invariant
            i <= g@.len(),
            out@.len() == i,
            forall|a: int| 0 <= a < i ==> #[trigger] grid_view(out)[a] == grid_view(*g)[a],
        decreases g@.len() - i,
    {
        let src_row = &g[i];
        let mut row: Vec<u8> = Vec::new();
        let mut j: usize = 0;
        while j < src_row.len()
            invariant
                j <= src_row@.len(),
                row@.len() == j,
                forall|b: int| 0 <= b < j ==> row@[b] == src_row@[b],
            decreases src_row@.len() - j,
        {
            row.push(src_row[j]);
            j = j + 1;
        }
        proof {
            assert(row@ =~= src_row@);
        }
        let ghost prev = grid_view(out);
        out.push(row);
        proof {
            assert forall|a: int| 0 <= a < i + 1 implies #[trigger] grid_view(out)[a] == grid_view(
                *g,
            )[a] by {
                if a == i as int {
                    assert(grid_view(out)[a] == row@);
                    assert(grid_view(*g)[a] == g@[a]@);
                } else {
                    assert(grid_view(out)[a] == prev[a]);
                }
            }
        }
        i = i + 1;
    }
    proof {
        assert(grid_view(out) =~= grid_view(*g));
    }
    out
}

/// Randomly blend the cells of `from`, placing the results into `into`.
///
/// Every destination cell becomes the truncated average of the matching
/// source cell and one randomly sampled in-bounds neighbor; the source is
/// never written, so every read in the round sees the complete prior grid.
#[verifier::loop_isolation(false)]
pub fn blend_into(
    rng: &mut RandomSource,
    size: usize,
    from: &Vec<Vec<u8>>,
    into: &mut Vec<Vec<u8>>,
    probabilities: &[u8; 9],
) -> (r: Result<(), BlendError>)
    requires
        is_grid(grid_view(*from), size as int),
        is_grid(grid_view(*old(into)), size as int),
    ensures
        r matches Ok(()) ==> blend_rel(
            grid_view(*from),
            grid_view(*final(into)),
            probabilities@,
            size as int,
        ),
        r matches Err(e) ==> e == BlendError::DegenerateProbabilityTable && table_total(
            probabilities@,
        ) == 0,
        table_total(probabilities@) > 0 ==> r is Ok,
        size > 0 && table_total(probabilities@) == 0 ==> r is Err,
{
    let mut i: usize = 0;
    while i < size
        invariant
            i <= size,
            into@.len() == size,
            forall|a: int| 0 <= a < size ==> (#[trigger] grid_view(*into)[a]).len() == size,
            forall|a: int, b: int|
                0 <= a < i && 0 <= b < size ==> blended_value(
                    grid_view(*from),
                    probabilities@,
                    a,
                    b,
                    #[trigger] grid_view(*into)[a][b],
                ),
            i > 0 ==> table_total(probabilities@) > 0,
        decreases size - i,
    {
        let mut row: Vec<u8> = Vec::new();
        let mut j: usize = 0;
        while j < size
            invariant
                j <= size,
                i < size,
                row@.len() == j,
                forall|b: int|
                    0 <= b < j ==> blended_value(
                        grid_view(*from),
                        probabilities@,
                        i as int,
                        b,
                        #[trigger] row@[b],
                    ),
                j > 0 ==> table_total(probabilities@) > 0,
            decreases size - j,
        {
            let (ni, nj) = match pick_blend_indexes(rng, i, j, size, probabilities) {
                Ok(p) => p,
                Err(e) => {
                    return Err(e);
                },
            };
            proof {
                assert(grid_view(*from).len() == from@.len());
                assert(grid_view(*from)[i as int] == from@[i as int]@);
                assert(grid_view(*from)[ni as int] == from@[ni as int]@);
            }
            let v = average(from[i][j], from[ni][nj]);
            proof {
                assert(grid_view(*from).len() == size as int);
                assert(blended_value(grid_view(*from), probabilities@, i as int, j as int, v));
                crate::sampler::lemma_prefix_total_bounds(probabilities@, 9);
            }
            row.push(v);
            j = j + 1;
        }
        let ghost prev = grid_view(*into);
        into[i] = row;
        proof {
            assert forall|a: int| 0 <= a < size implies (#[trigger] grid_view(*into)[a]).len()
                == size by {
                if a == i as int {
                    assert(grid_view(*into)[a] == row@);
                } else {
                    assert(grid_view(*into)[a] == prev[a]);
                }
            }
            assert forall|a: int, b: int| 0 <= a < i + 1 && 0 <= b < size implies blended_value(
                grid_view(*from),
                probabilities@,
                a,
                b,
                #[trigger] grid_view(*into)[a][b],
            ) by {
                if a == i as int {
                    assert(grid_view(*into)[a] == row@);
                } else {
                    assert(grid_view(*into)[a] == prev[a]);
                }
            }
        }
        i = i + 1;
    }
    Ok(())
}

/// Diffuse `initial` for `iterations` rounds, alternating two buffers as
/// source and destination.
///
/// With `iterations == 0`, or with a grid of side 0 or 1 (where no
/// distinct in-bounds neighbor exists), the initial grid is returned
/// unmodified, bit for bit. Otherwise the rounds run, and fail only when
/// the probability table's total weight is zero.
#[verifier::loop_isolation(false)]
pub fn diffuse(
    rng: &mut RandomSource,
    initial: Vec<Vec<u8>>,
    iterations: usize,
    probabilities: &[u8; 9],
) -> (r: Result<Vec<Vec<u8>>, BlendError>)
    requires
        is_grid(grid_view(initial), initial@.len() as int),
    ensures
        iterations == 0 ==> r == Ok::<Vec<Vec<u8>>, BlendError>(initial),
        initial@.len() <= 1 ==> r == Ok::<Vec<Vec<u8>>, BlendError>(initial),
        r matches Ok(g) ==> is_grid(grid_view(g), initial@.len() as int),
        r matches Err(e) ==> e == BlendError::DegenerateProbabilityTable && table_total(
            probabilities@,
        ) == 0 && iterations > 0 && initial@.len() > 1,
        iterations > 0 && initial@.len() > 1 && table_total(probabilities@) > 0 ==> r is Ok,
        iterations > 0 && initial@.len() > 1 && table_total(probabilities@) == 0 ==> r is Err,
        iterations > 0 && initial@.len() > 1 ==> (r matches Ok(g) ==> diffusion_trace(
            grid_view(initial),
            grid_view(g),
            probabilities@,
            initial@.len() as int,
            iterations as int,
        )),
{
    let ghost init_v = grid_view(initial);
    let size = initial.len();
    if iterations == 0 || size <= 1 {
        return Ok(initial);
    }
    proof {
        crate::sampler::lemma_prefix_total_bounds(probabilities@, 9);
    }
    let mut first = initial;
    let mut second = clone_grid(&first);
    let ghost mut chain: Seq<Seq<Seq<u8>>> = seq![init_v];
    let mut swapped = false;
    let mut iter_num: usize = 0;
    while iter_num < iterations
        invariant
            iter_num <= iterations,
            is_grid(grid_view(first), size as int),
            is_grid(grid_view(second), size as int),
            chain.len() == iter_num + 1,
            chain[0] == init_v,
            swapped ==> chain[iter_num as int] == grid_view(second),
            !swapped ==> chain[iter_num as int] == grid_view(first),
            forall|q: int|
                0 <= q < iter_num ==> blend_rel(
                    #[trigger] chain[q],
                    chain[q + 1],
                    probabilities@,
                    size as int,
                ),
            iter_num > 0 ==> table_total(probabilities@) > 0,
        decreases iterations - iter_num,
    {
        if swapped {
            match blend_into(rng, size, &second, &mut first, probabilities) {
                Ok(()) => {},
                Err(e) => {
                    return Err(e);
                },
            }
            proof {
                chain = chain.push(grid_view(first));
            }
            swapped = false;
        } else {
            match blend_into(rng, size, &first, &mut second, probabilities) {
                Ok(()) => {},
                Err(e) => {
                    return Err(e);
                },
            }
            proof {
                chain = chain.push(grid_view(second));
            }
            swapped = true;
        }
        iter_num = iter_num + 1;
    }
    let out = if swapped {
        second
    } else {
        first
    };
    proof {
        assert(diffusion_trace(init_v, grid_view(out), probabilities@, size as int, iterations as int))
            by {
            assert(chain.len() == iterations as int + 1 && chain[0] == init_v
                && chain[iterations as int] == grid_view(out) && (forall|q: int|
                0 <= q < iterations as int ==> blend_rel(
                    #[trigger] chain[q],
                    chain[q + 1],
                    probabilities@,
                    size as int,
                )));
        }
    }
    Ok(out)
}

/// The built-in weight table of the direct invocation surface.
pub fn default_probabilities() -> (t: [u8; 9])
    ensures
        t@ == seq![1u8, 4u8, 5u8, 1u8, 0u8, 5u8, 1u8, 1u8, 1u8],
{
    let t = [1u8, 4, 5, 1, 0, 5, 1, 1, 1];
    proof {
        assert(t@ =~= seq![1u8, 4u8, 5u8, 1u8, 0u8, 5u8, 1u8, 1u8, 1u8]);
    }
    t
}

/// Generate a new grayscale grid via random blending, drawing from the
/// given random source: a fresh noise grid of side `size`, diffused for
/// `iterations` rounds.
///
/// The result is a `size` by `size` grid whose cells, being bytes, all lie
/// in [0, 255]. It fails exactly when the rounds would run (`size > 1` and
/// `iterations > 0`) over a table whose total weight is zero.
pub fn random_blending_with_source(
    rng: &mut RandomSource,
    size: usize,
    iterations: usize,
    probabilities: &[u8; 9],
) -> (r: Result<Vec<Vec<u8>>, BlendError>)
    ensures
        r matches Ok(g) ==> is_grid(grid_view(g), size as int),
        r matches Err(e) ==> e == BlendError::DegenerateProbabilityTable && table_total(
            probabilities@,
        ) == 0 && iterations > 0 && size > 1,
        size > 1 && iterations > 0 && table_total(probabilities@) > 0 ==> r is Ok,
        size > 1 && iterations > 0 && table_total(probabilities@) == 0 ==> r is Err,
        size <= 1 || iterations == 0 ==> r is Ok,
        size > 1 && iterations > 0 ==> (r matches Ok(g) ==> exists|init: Seq<Seq<u8>>|
            is_grid(init, size as int) && diffusion_trace(
                init,
                grid_view(g),
                probabilities@,
                size as int,
                iterations as int,
            )),
{
    let initial = gen_matrix(rng, size);
    proof {
        assert(grid_view(initial).len() == initial@.len());
    }
    let ghost init_v = grid_view(initial);
    let r = diffuse(rng, initial, iterations, probabilities);
    proof {
        if size > 1 && iterations > 0 && r is Ok {
            assert(diffusion_trace(
                init_v,
                grid_view(r->Ok_0),
                probabilities@,
                size as int,
                iterations as int,
            ));
        }
    }
    r
}

/// Generate a new grayscale grid via random blending, drawing from fresh
/// operating-system entropy.
pub fn random_blending(size: usize, iterations: usize, probabilities: &[u8; 9]) -> (r: Result<
    Vec<Vec<u8>>,
    BlendError,
>)
    ensures
        r matches Ok(g) ==> is_grid(grid_view(g), size as int),
        r matches Err(e) ==> e == BlendError::DegenerateProbabilityTable && table_total(
            probabilities@,
        ) == 0 && iterations > 0 && size > 1,
        size > 1 && iterations > 0 && table_total(probabilities@) > 0 ==> r is Ok,
        size > 1 && iterations > 0 && table_total(probabilities@) == 0 ==> r is Err,
        size <= 1 || iterations == 0 ==> r is Ok,
        size > 1 && iterations > 0 ==> (r matches Ok(g) ==> exists|init: Seq<Seq<u8>>|
            is_grid(init, size as int) && diffusion_trace(
                init,
                grid_view(g),
                probabilities@,
                size as int,
                iterations as int,
            )),
{
    let mut rng = RandomSource::from_entropy();
    random_blending_with_source(&mut rng, size, iterations, probabilities)
}

/// Generate a new grayscale grid via random blending, drawing from a
/// seeded source: two runs with the same seed and the same parameters
/// draw the same stream and so produce the same grid.
pub fn random_blending_seeded(
    size: usize,
    iterations: usize,
    probabilities: &[u8; 9],
    seed: u64,
) -> (r: Result<Vec<Vec<u8>>, BlendError>)
    ensures
        r matches Ok(g) ==> is_grid(grid_view(g), size as int),
        r matches Err(e) ==> e == BlendError::DegenerateProbabilityTable && table_total(
            probabilities@,
        ) == 0 && iterations > 0 && size > 1,
        size > 1 && iterations > 0 && table_total(probabilities@) > 0 ==> r is Ok,
        size > 1 && iterations > 0 && table_total(probabilities@) == 0 ==> r is Err,
        size <= 1 || iterations == 0 ==> r is Ok,
        size > 1 && iterations > 0 ==> (r matches Ok(g) ==> exists|init: Seq<Seq<u8>>|
            is_grid(init, size as int) && diffusion_trace(
                init,
                grid_view(g),
                probabilities@,
                size as int,
                iterations as int,
            )),
{
    let mut rng = RandomSource::from_seed(seed);
    random_blending_with_source(&mut rng, size, iterations, probabilities)
}

} // verus!
