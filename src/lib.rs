//! Batch assembly of still-image videos from audio and subtitle files, and
//! rendering of speech transcripts as LRC and SRT subtitles.
pub mod batch;
pub mod command;
pub mod paths;
pub mod runs;
pub mod text;
pub mod transcript;
