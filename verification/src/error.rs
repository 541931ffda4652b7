//! The failure kinds of the pipeline.

use vstd::prelude::*;
use vstd::string::StringExecFns;

verus! {

/// Why a stage of the pipeline gave up. Every kind is fatal to the run.
#[derive(Clone, Copy, Debug, PartialEq, Eq, Structural, Hash)]
pub enum PipelineError {
    /// The host has no default input device.
    NoInputDevice,
    /// The device reports no usable default input configuration.
    UnsupportedConfig,
    /// The device's sample format is not one the capture path converts.
    UnsupportedSampleFormat,
    /// A file could not be created, read or written.
    Io,
    /// The sink was finalized before, or never held a writer.
    AlreadyFinalized,
    /// The input stream could not be built or started.
    Capture,
    /// The resampling tool was not found or exited with a failure.
    ExternalTool,
    /// The speech model could not be loaded.
    ModelLoad,
    /// The speech engine failed to decode or to hand out a segment.
    Transcribe,
}

impl PipelineError {
    /// The text shown to the user for this failure.
    pub open spec fn text(self) -> Seq<char> {
        match self {
            PipelineError::NoInputDevice => "no default input device"@,
            PipelineError::UnsupportedConfig => "no supported default input configuration"@,
            PipelineError::UnsupportedSampleFormat => "unsupported sample format"@,
            PipelineError::Io => "waveform file input/output failed"@,
            PipelineError::AlreadyFinalized => "waveform sink already finalized"@,
            PipelineError::Capture => "input stream could not be built or started"@,
            PipelineError::ExternalTool => "resampling tool failed"@,
            PipelineError::ModelLoad => "speech model could not be loaded"@,
            PipelineError::Transcribe => "transcription failed"@,
        }
    }

    /// Renders the failure as a message for the user.
    pub fn message(&self) -> (out: String)
        ensures
            out@ == self.text(),
    {
        match self {
            PipelineError::NoInputDevice => String::from_str("no default input device"),
            PipelineError::UnsupportedConfig => String::from_str(
                "no supported default input configuration",
            ),
            PipelineError::UnsupportedSampleFormat => String::from_str("unsupported sample format"),
            PipelineError::Io => String::from_str("waveform file input/output failed"),
            PipelineError::AlreadyFinalized => String::from_str("waveform sink already finalized"),
            PipelineError::Capture => String::from_str(
                "input stream could not be built or started",
            ),
            PipelineError::ExternalTool => String::from_str("resampling tool failed"),
            PipelineError::ModelLoad => String::from_str("speech model could not be loaded"),
            PipelineError::Transcribe => String::from_str("transcription failed"),
        }
    }
}

} // verus!
