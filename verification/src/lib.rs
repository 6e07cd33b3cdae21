//! Verified core of a two-deck DJ audio engine: the on-disk analysis cache
//! formats, track identities and their digests, the analysis job queue, the
//! routing and device decisions, and the text reports of the engine.

pub mod analysis;
pub mod audio;
pub mod benchmark;
pub mod cli;
pub mod deck;
pub mod device;
pub mod dual_output;
pub mod library;
pub mod mixer;
pub mod mixer_service;
pub mod persistence;
pub mod render;
pub mod resample;
pub mod routing;
pub mod tempo;
pub mod text;

