use vstd::prelude::*;

verus! {

/// Why a run, or one of its targets, produced no slide.
#[derive(Clone, Copy, Debug, PartialEq, Eq, Structural)]
pub enum Failure {
    /// The caller is not the superuser; the run stops before any target.
    InsufficientPrivilege,
    /// The listing of live processes could not be obtained.
    EnumerationFailed,
    /// No live process carries the requested name.
    TargetNotFound,
    /// The task handle of the target could not be obtained.
    TaskGrabFailure,
    /// The region query failed, or its address is not above the expected base.
    SlideUnavailable,
}

/// The slide reported for a region at `observed` when the binary was linked
/// for `expected`: their distance, kept to its low 32 bits.
pub open spec fn slide_value(observed: u64, expected: u64) -> u32 {
    ((observed - expected) % 0x1_0000_0000) as u32
}

/// A slide exists only where the region lies strictly above the expected base.
pub open spec fn slide_result(region: Option<u64>, expected: u64) -> Result<u32, Failure> {
    match region {
        Some(observed) if observed > expected => Ok(slide_value(observed, expected)),
        _ => Err(Failure::SlideUnavailable),
    }
}

/// Computes the slide from the outcome of the first-region query: `None` when
/// the query failed, else the start address of the lowest mapped region.
pub fn compute_slide(region: Option<u64>, expected_base: u64) -> (r: Result<u32, Failure>)
    ensures
        r == slide_result(region, expected_base),
        r is Ok <==> (region is Some && region->0 > expected_base),
        r is Err ==> r == Err::<u32, Failure>(Failure::SlideUnavailable),
{
    match region {
        Some(observed) => {
            if observed > expected_base {
                let distance: u64 = observed - expected_base;
                let low: u64 = distance & 0xFFFF_FFFF;
                assert(low == distance % 0x1_0000_0000) by (bit_vector)
                    requires
                        low == distance & 0xFFFF_FFFF,
                ;
                Ok(low as u32)
            } else {
                Err(Failure::SlideUnavailable)
            }
        },
        None => Err(Failure::SlideUnavailable),
    }
}

/// A slide that fits in 32 bits is reported exactly as the distance between
/// the observed region and the expected base.
pub proof fn lemma_slide_is_distance(observed: u64, expected: u64)
    requires
        observed > expected,
        observed - expected < 0x1_0000_0000,
    ensures
        slide_result(Some(observed), expected) == Ok::<u32, Failure>((observed - expected) as u32),
        slide_value(observed, expected) as int == observed - expected,
{
}

/// A region at or below the expected base never yields a slide, whether zero,
/// wrapped or otherwise.
pub proof fn lemma_no_slide_at_or_below_base(observed: u64, expected: u64)
    requires
        observed <= expected,
    ensures
        slide_result(Some(observed), expected) == Err::<u32, Failure>(Failure::SlideUnavailable),
{
}

} // verus!
