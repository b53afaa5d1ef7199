//! Loudness measurement and normalization of audio files with FFmpeg.
//!
//! The library decides everything around the FFmpeg runs: which files are
//! audio inputs, where normalized copies go, the `loudnorm` filters and
//! argument lists of single- and two-pass runs, the values read back from
//! FFmpeg's reports, and the rows, tables and logs of a loudness run.

pub mod extensions;
pub mod text;
pub mod paths;
pub mod pattern;
pub mod loudnorm;
pub mod plan;
pub mod report;
