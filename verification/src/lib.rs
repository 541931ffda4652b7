//! Voice capture pipeline: negotiated stream formats, an incremental waveform
//! sink, the capture and resampling protocols, and the extraction of a text
//! prompt from transcribed speech segments.
//!
//! Hardware, files, processes and the speech engine are driven by the caller.
//! This crate holds the rules they are driven by, each with a machine-checked
//! contract.

pub mod capture;
pub mod device;
pub mod error;
pub mod format;
pub mod pipeline;
pub mod resample;
pub mod segment;
pub mod transcribe;
pub mod writer;
