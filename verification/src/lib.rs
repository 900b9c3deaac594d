//! Verified control and data-selection logic of an SDR receiver core:
//! demodulation mode handling, decimation, FFT bin ordering, the shared
//! spectrum buffer and the start/processing decisions of the pipeline.
use vstd::prelude::*;

pub mod demod;
pub mod fft;
pub mod device;
pub mod pipeline;

pub use demod::DemodMode;
pub use fft::FFT_SIZE;
pub use device::DeviceInfo;

verus! {

/// Opaque handle type under which the receiver core is known on the C
/// interface; it has no content of its own.
#[allow(dead_code)]
pub struct SdrappCoreOpaque {
    _private: [u8; 0],
}

} // verus!
