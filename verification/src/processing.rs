//! Settings for how a freshly loaded impulse response is processed.
use vstd::prelude::*;

verus! {

/// Whether a loaded impulse response is normalized (RMS) and resampled to the
/// host's sample rate before it is turned into convolvers.
#[derive(Clone, Copy, Debug, PartialEq, Eq, Structural)]
pub struct IrProcessingConfig {
    pub normalize: bool,
    pub resample: bool,
}

impl Default for IrProcessingConfig {
    /// Neither normalization nor resampling.
    fn default() -> (r: Self)
        ensures
            !r.normalize,
            !r.resample,
    {
        IrProcessingConfig { normalize: false, resample: false }
    }
}

} // verus!
