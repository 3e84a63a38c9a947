use vstd::prelude::*;

verus! {

/// Fewest points a custom wave is drawn with.
pub const MIN_WAVE_SAMPLES: usize = 2;

/// Most points a custom wave is drawn with.
pub const MAX_WAVE_SAMPLES: usize = 512;

/// How many points a custom wave asking for `n` samples is drawn with: `n`
/// held between `MIN_WAVE_SAMPLES` and `MAX_WAVE_SAMPLES`.
pub fn wave_sample_count(n: usize) -> (r: usize)
    ensures
        r == (if n < MIN_WAVE_SAMPLES {
            MIN_WAVE_SAMPLES
        } else if n > MAX_WAVE_SAMPLES {
            MAX_WAVE_SAMPLES
        } else {
            n
        }),
        MIN_WAVE_SAMPLES <= r <= MAX_WAVE_SAMPLES,
{
    let capped = if n > MAX_WAVE_SAMPLES { MAX_WAVE_SAMPLES } else { n };
    if capped < MIN_WAVE_SAMPLES {
        MIN_WAVE_SAMPLES
    } else {
        capped
    }
}

} // verus!
