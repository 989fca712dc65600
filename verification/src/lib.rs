//! Stages of a continuous audio streaming pipeline, each one a small state
//! machine with a proved contract: the catalog of tracks, the shuffling
//! playlist, the decode session with its sample rate conversion, the encoder
//! session, the cancellation filter and the rate limiter.

pub mod decoder;
pub mod encoder;
pub mod exit_filter;
pub mod pcm;
pub mod playlist;
pub mod rate_limited_stream;
pub mod scanner;
pub mod service;
