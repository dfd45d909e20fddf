//! The boundary adapter: translates raw externally supplied values into
//! validated parameters, and only then invokes the diffusion engine.
//!
//! Every failure is detected before any algorithmic work begins and is
//! surfaced as an error value, never as a panic: an uncontrolled failure
//! unwinding across a foreign call boundary would be undefined behavior
//! for the caller.

use vstd::prelude::*;

use crate::engine::grid_view;
use crate::engine::is_grid;
use crate::engine::random_blending;
use crate::sampler::table_total;
use crate::BlendError;

verus! {

/// The probability buffer as the validation cascade sees it: the bytes
/// behind the reference, where a reference was supplied at all.
pub open spec fn prob_arg_view(probabilities: Option<&Vec<u8>>) -> Option<Seq<u8>> {
    match probabilities {
        Some(p) => Some(p@),
        None => None,
    }
}

/// The validation cascade over raw foreign inputs, in order: absent
/// references first, then a non-positive size, then a non-positive
/// iteration count, then a probability buffer whose length is not nine.
/// `None` means every check passed.
pub open spec fn validate_params(
    size: int,
    iterations: int,
    probabilities: Option<Seq<u8>>,
    path_present: bool,
) -> Option<BlendError> {
    if probabilities is None || !path_present {
        Some(BlendError::AbsentReference)
    } else if size <= 0 {
        Some(BlendError::NonPositiveSize)
    } else if iterations <= 0 {
        Some(BlendError::NonPositiveIterations)
    } else if probabilities->0.len() != 9 {
        Some(BlendError::WrongProbabilityLength)
    } else {
        None
    }
}

/// Reinterpret a slice as exactly nine weight values; any other length is
/// refused.
pub fn convert_slice_to_prob_arr(sli: &[u8]) -> (r: Option<[u8; 9]>)
    ensures
        r is Some <==> sli@.len() == 9,
        r matches Some(a) ==> a@ == sli@,
{
    if sli.len() != 9 {
        None
    } else {
        let a = [sli[0], sli[1], sli[2], sli[3], sli[4], sli[5], sli[6], sli[7], sli[8]];
        proof {
            assert(a@ =~= sli@);
        }
        Some(a)
    }
}

/// Run the validation cascade over raw foreign inputs and, when every
/// check passes, hand back the probability data reinterpreted as nine
/// weights. No entropy is consumed and no algorithmic work is done here.
pub fn validate_request(
    size: i32,
    iterations: i32,
    probabilities: Option<&Vec<u8>>,
    path_present: bool,
) -> (r: Result<[u8; 9], BlendError>)
    ensures
        validate_params(size as int, iterations as int, prob_arg_view(probabilities), path_present)
            matches Some(e) ==> r == Err::<[u8; 9], BlendError>(e),
        validate_params(size as int, iterations as int, prob_arg_view(probabilities), path_present)
            is None ==> (r matches Ok(a) && a@ == probabilities->0@),
{
    let p = match probabilities {
        Some(p) if path_present => p,
        _ => {
            return Err(BlendError::AbsentReference);
        },
    };
    if size <= 0 {
        return Err(BlendError::NonPositiveSize);
    }
    if iterations <= 0 {
        return Err(BlendError::NonPositiveIterations);
    }
    match convert_slice_to_prob_arr(p.as_slice()) {
        Some(arr) => Ok(arr),
        None => Err(BlendError::WrongProbabilityLength),
    }
}

/// Validate externally supplied parameters and, when they all pass, run
/// the diffusion engine and hand back the resulting grid for the caller
/// to encode and persist.
///
/// An absent probability or path reference, a non-positive size, a
/// non-positive iteration count, or a probability buffer of the wrong
/// length is rejected in that order, before any entropy is consumed; a
/// degenerate table (total weight zero) is the engine's only failure.
pub fn run_blending(
    size: i32,
    iterations: i32,
    probabilities: Option<&Vec<u8>>,
    out_path: Option<&String>,
) -> (r: Result<Vec<Vec<u8>>, BlendError>)
    ensures
        validate_params(
            size as int,
            iterations as int,
            prob_arg_view(probabilities),
            out_path is Some,
        ) matches Some(e) ==> r == Err::<Vec<Vec<u8>>, BlendError>(e),
        r matches Ok(g) ==> is_grid(grid_view(g), size as int),
        probabilities is Some && out_path is Some && size > 0 && iterations > 0
            && probabilities->0@.len() == 9 ==> {
            &&& size == 1 || table_total(probabilities->0@) > 0 ==> r is Ok
            &&& size > 1 && table_total(probabilities->0@) == 0 ==> r == Err::<
                Vec<Vec<u8>>,
                BlendError,
            >(BlendError::DegenerateProbabilityTable)
        },
{
    let arr = match validate_request(size, iterations, probabilities, out_path.is_some()) {
        Ok(arr) => arr,
        Err(e) => {
            return Err(e);
        },
    };
    random_blending(size as usize, iterations as usize, &arr)
}

} // verus!
