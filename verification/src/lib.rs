//! An audio playback engine core, verified: the playback state machine
//! and its queue, the pull-mode output callback, triangular dither with
//! noise shaping, the soft limiter, resampler selection, the
//! shared-memory seqlock and command-ring protocols, and the text
//! handling of the control surface. Samples are fixed point throughout,
//! with `sample::SAMPLE_ONE` standing for 1.0; the unverified shell
//! around the library decodes, talks to devices, and converts at the
//! boundary.

pub mod sample;
pub mod dither;
pub mod text;
pub mod commands;
pub mod resample;
pub mod media;
pub mod decode;
pub mod state;
pub mod control;
pub mod ring;
pub mod callback;
pub mod output;
pub mod seqlock;
