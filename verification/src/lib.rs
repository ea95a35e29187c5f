//! A fixed-channel-count feedback-delay-network (FDN) reverb.
//!
//! The signal path works on `CHANNELS`-wide frames of fixed-point samples
//! (signed 64-bit, `FP_SHIFT` fractional bits, saturating arithmetic): a
//! diffuser smears the input across time, a bank of delay lines mixed through
//! a Householder reflection and scaled by a decay gain produces the tail, and
//! the top level blends dry input with the wet tail.

pub mod basic_reverb;
pub mod delay;
pub mod diffuser;
pub mod householder;
pub mod multi_channel_mixed_feedback;
pub mod sample;
pub mod tuning;
