//! Fixed configuration of the signal pipeline.

use vstd::prelude::*;

verus! {

/// Configuration chosen at startup; immutable afterwards.
///
/// `fft_size` is the power-of-two sample window of the forward transform,
/// `buffer_size` caps how many mono frames one processing call accepts, and
/// `bar_count` is the number of spectrum bars.
#[derive(Clone, Copy)]
pub struct AudioConfig {
    pub fft_size: usize,
    pub buffer_size: usize,
    pub bar_count: usize,
}

/// `n` is a power of two.
pub open spec fn is_pow2(n: int) -> bool
    decreases n,
{
    if n <= 0 {
        false
    } else if n == 1 {
        true
    } else {
        n % 2 == 0 && is_pow2(n / 2)
    }
}

impl AudioConfig {
    /// The machine bounds under which every pipeline stage is overflow-free.
    pub open spec fn wf(self) -> bool {
        &&& is_pow2(self.fft_size as int)
        &&& 4 <= self.fft_size <= 65536
        &&& 1 <= self.buffer_size <= 0x100000
        &&& 2 <= self.bar_count <= 512
    }

    /// Checks the well-formedness bounds at run time, so unverified callers
    /// can validate a configuration before constructing the pipeline.
    pub fn is_valid(&self) -> (r: bool)
        ensures
            r == self.wf(),
    {
        let pow2 = check_pow2(self.fft_size);
        pow2 && 4 <= self.fft_size && self.fft_size <= 65536 && 1 <= self.buffer_size
            && self.buffer_size <= 0x100000 && 2 <= self.bar_count && self.bar_count <= 512
    }
}

/// Run-time test matching the `is_pow2` spec.
fn check_pow2(n: usize) -> (r: bool)
    ensures
        r == is_pow2(n as int),
    decreases n,
{
    if n == 0 {
        false
    } else if n == 1 {
        true
    } else if n % 2 != 0 {
        false
    } else {
        check_pow2(n / 2)
    }
}

} // verus!
