//! A constant-time Bernoulli sampler.
//!
//! The sampler decides, once per event, whether the event is recorded, so that
//! the recorded fraction converges to a configured probability. Instead of one
//! random draw per event it keeps a skip count, the number of coming events
//! that are certain to be rejected, and draws afresh only when that count is
//! used up.
//!
//! The verified code holds no floating-point value: a binary64 number crosses
//! its boundary as the 64 bits of its IEEE 754 encoding, and [`binary64`] says
//! what such a pattern denotes.

pub mod binary64;
pub mod laws;
pub mod sampler;

pub use sampler::FastBernoulli;
pub use sampler::SamplerState;
