//! Real-time audio front-end: a bounded drop-oldest sample buffer,
//! magnitude-spectrum analysis, a bank of streaming first-order filters,
//! and lifecycle state machines for the wake-word and speech capabilities.
//!
//! Samples travel through the library as fixed-point signed integers
//! (integer PCM); the boundary to a floating-point capture device is an
//! explicit conversion made by the caller.
pub mod audio;
pub mod calc;
pub mod numeric;
pub mod signal;
pub mod speech;
pub mod wake_word;
