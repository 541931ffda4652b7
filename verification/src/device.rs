//! The outcome of device negotiation.

use crate::error::PipelineError;
use crate::format::{SampleFormat, StreamConfig};
use vstd::prelude::*;

verus! {

/// What the host answered when asked for its default input device and for
/// that device's default input configuration.
#[derive(Clone, Copy, Debug, PartialEq, Eq, Structural)]
pub enum DeviceReport {
    /// The host has no default input device.
    NoDevice,
    /// The device could not report a default input configuration.
    NoDefaultConfig,
    /// The device's default input configuration.
    Config { sample_format: SampleFormat, channel_count: u16, sample_rate: u32 },
}

/// The stream configuration a report leads to, or the reason there is none.
pub open spec fn negotiated(report: DeviceReport) -> Result<StreamConfig, PipelineError> {
    match report {
        DeviceReport::NoDevice => Err(PipelineError::NoInputDevice),
        DeviceReport::NoDefaultConfig => Err(PipelineError::UnsupportedConfig),
        DeviceReport::Config { sample_format, channel_count, sample_rate } => {
            if channel_count > 0 && sample_rate > 0 {
                Ok(StreamConfig { sample_format, channel_count, sample_rate })
            } else {
                Err(PipelineError::UnsupportedConfig)
            }
        },
    }
}

/// Settles the stream configuration from what the host reported. A missing
/// device and a missing configuration are told apart; a configuration without
/// channels or without a rate counts as no configuration.
pub fn negotiate(report: DeviceReport) -> (config: Result<StreamConfig, PipelineError>)
    ensures
        config == negotiated(report),
        config matches Ok(c) ==> c.valid(),
{
    match report {
        DeviceReport::NoDevice => Err(PipelineError::NoInputDevice),
        DeviceReport::NoDefaultConfig => Err(PipelineError::UnsupportedConfig),
        DeviceReport::Config { sample_format, channel_count, sample_rate } => {
            if channel_count > 0 && sample_rate > 0 {
                Ok(StreamConfig { sample_format, channel_count, sample_rate })
            } else {
                Err(PipelineError::UnsupportedConfig)
            }
        },
    }
}

} // verus!
