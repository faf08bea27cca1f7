//! A duet partner for a live performer: phrase capture from note events,
//! melodic transformation, envelope-gated voices and the channels and
//! tunable parameters that join the stages.

pub mod melody;
pub mod event;
pub mod recorder;
pub mod random;
pub mod transform;
pub mod catalog;
pub mod performer;
pub mod synth;
pub mod channel;
pub mod tunable;
pub mod playback;
