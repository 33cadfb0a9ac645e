//! Real-time audio feature pipeline.
//!
//! An audio driver delivers fixed-size buffers of samples on a dedicated
//! thread; per buffer the pipeline computes normalized autocorrelation
//! coefficients over a rolling history window and a discrete-Fourier power
//! spectrum over the most recent frame, and hands both feature vectors to a
//! rendering thread through fixed-capacity, non-blocking FIFO handoffs.
//! Samples and coefficients are Q15 fixed-point integers, so every step of
//! the signal path carries an exact arithmetic contract.

pub mod config;
pub mod fixed;
pub mod handoff;
pub mod history;
pub mod autocorr;
pub mod spectrum;
pub mod capture;
pub mod render;
