use vstd::prelude::*;

verus! {

/// Number of samples the audio driver delivers per callback invocation.
pub const FRAMES_PER_BUFFER: usize = 64;

/// Capture sample rate in hertz.
pub const SAMPLE_RATE: u32 = 44100;

/// Number of autocorrelation lags computed per buffer.
pub const AUTO_COEFFS: usize = 64;

/// Length of the frame handed to the forward transform.
pub const FFT_SIZE: usize = 256;

/// Number of spectrum bins emitted: half of the symmetric real spectrum.
pub const HALF_FFT_SIZE: usize = 128;

/// Capacity of the rolling autocorrelation history window.
pub const AC_BUFFER_SIZE: usize = 1024;

/// Fixed-point unit: an amplitude of one is represented as this value (Q15).
pub const SAMPLE_SCALE: i64 = 32768;

/// Fixed-point unit of the normalized autocorrelation coefficients.
pub const COEFF_SCALE: i64 = 32768;

/// Fixed-point unit of the cosine/sine basis tables (Q14).
pub const TABLE_SCALE: i64 = 16384;

/// Largest history window the estimators accept; keeps every intermediate
/// sum of Q15 products inside `i64`.
pub const MAX_WINDOW_LEN: usize = 65536;

/// Largest transform length the analyzer accepts, for the same headroom.
pub const MAX_FFT_LEN: usize = 4096;

/// Immutable stream configuration, fixed once at startup and shared by the
/// capture and render sides.
pub struct Config {
    pub frames_per_buffer: usize,
    pub sample_rate: u32,
    pub auto_coeffs: usize,
    pub ac_capacity: usize,
    pub fft_size: usize,
}

impl Config {
    /// A configuration the pipeline can run with: non-degenerate sizes, and
    /// window lengths small enough that fixed-point sums cannot overflow.
    pub open spec fn wf(&self) -> bool {
        &&& 1 <= self.frames_per_buffer
        &&& 1 <= self.auto_coeffs
        &&& 1 <= self.ac_capacity <= MAX_WINDOW_LEN
        &&& 2 <= self.fft_size <= MAX_FFT_LEN
    }

    /// The stream configuration used by the application.
    pub fn default_config() -> (c: Config)
        ensures
            c.wf(),
            c.frames_per_buffer == FRAMES_PER_BUFFER,
            c.sample_rate == SAMPLE_RATE,
            c.auto_coeffs == AUTO_COEFFS,
            c.ac_capacity == AC_BUFFER_SIZE,
            c.fft_size == FFT_SIZE,
    {
        Config {
            frames_per_buffer: FRAMES_PER_BUFFER,
            sample_rate: SAMPLE_RATE,
            auto_coeffs: AUTO_COEFFS,
            ac_capacity: AC_BUFFER_SIZE,
            fft_size: FFT_SIZE,
        }
    }
}

} // verus!
