//! A procedural lo-fi music engine on fixed-point samples: waveform
//! generators, plucked-string resonators, enveloped voices with echo, a
//! generative timeline, a mixer and the pacing of output buffers.

pub mod composer;
pub mod engine;
pub mod envelope;
pub mod fixed;
pub mod mixer;
pub mod random;
pub mod scheduler;
pub mod synth;
pub mod voices;
