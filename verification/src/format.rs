//! Sample formats, stream configurations and waveform headers.

use crate::error::PipelineError;
use vstd::prelude::*;

verus! {

/// The sample formats an input device can report.
#[derive(Clone, Copy, Debug, PartialEq, Eq, Structural, Hash)]
pub enum SampleFormat {
    I8,
    I16,
    I32,
    I64,
    U8,
    U16,
    U32,
    U64,
    F32,
    F64,
}

/// Whether a waveform stores its samples as integers or as IEEE floats.
#[derive(Clone, Copy, Debug, PartialEq, Eq, Structural, Hash)]
pub enum SampleKind {
    Int,
    Float,
}

/// The closed set of encodings that the capture path converts and writes.
#[derive(Clone, Copy, Debug, PartialEq, Eq, Structural, Hash)]
pub enum SampleEncoding {
    Int8,
    Int16,
    Int32,
    Float32,
}

impl SampleFormat {
    /// Size in bytes of one sample of this format.
    pub open spec fn width(self) -> nat {
        match self {
            SampleFormat::I8 | SampleFormat::U8 => 1,
            SampleFormat::I16 | SampleFormat::U16 => 2,
            SampleFormat::I32 | SampleFormat::U32 | SampleFormat::F32 => 4,
            SampleFormat::I64 | SampleFormat::U64 | SampleFormat::F64 => 8,
        }
    }

    /// Whether samples of this format are floating-point numbers.
    pub open spec fn float(self) -> bool {
        self == SampleFormat::F32 || self == SampleFormat::F64
    }

    /// The encoding the capture path uses for this format, if it has one.
    pub open spec fn encoding(self) -> Option<SampleEncoding> {
        match self {
            SampleFormat::I8 => Some(SampleEncoding::Int8),
            SampleFormat::I16 => Some(SampleEncoding::Int16),
            SampleFormat::I32 => Some(SampleEncoding::Int32),
            SampleFormat::F32 => Some(SampleEncoding::Float32),
            _ => None,
        }
    }

    /// Size in bytes of one sample of this format.
    pub fn sample_size(&self) -> (size: usize)
        ensures
            size == self.width(),
    {
        match self {
            SampleFormat::I8 | SampleFormat::U8 => 1,
            SampleFormat::I16 | SampleFormat::U16 => 2,
            SampleFormat::I32 | SampleFormat::U32 | SampleFormat::F32 => 4,
            SampleFormat::I64 | SampleFormat::U64 | SampleFormat::F64 => 8,
        }
    }

    /// Whether samples of this format are floating-point numbers.
    pub fn is_float(&self) -> (yes: bool)
        ensures
            yes == self.float(),
    {
        match self {
            SampleFormat::F32 | SampleFormat::F64 => true,
            _ => false,
        }
    }
}

impl SampleEncoding {
    /// The device format this encoding is selected for.
    pub open spec fn format(self) -> SampleFormat {
        match self {
            SampleEncoding::Int8 => SampleFormat::I8,
            SampleEncoding::Int16 => SampleFormat::I16,
            SampleEncoding::Int32 => SampleFormat::I32,
            SampleEncoding::Float32 => SampleFormat::F32,
        }
    }

    /// Number of bits one encoded sample takes.
    pub open spec fn bits(self) -> nat {
        8 * self.format().width()
    }

    /// Number of bits one encoded sample takes.
    pub fn bit_depth(&self) -> (bits: u16)
        ensures
            bits == self.bits(),
    {
        match self {
            SampleEncoding::Int8 => 8,
            SampleEncoding::Int16 => 16,
            SampleEncoding::Int32 | SampleEncoding::Float32 => 32,
        }
    }
}

/// What the device negotiator settled on for the input stream.
#[derive(Clone, Copy, Debug, PartialEq, Eq, Structural, Hash)]
pub struct StreamConfig {
    pub sample_format: SampleFormat,
    pub channel_count: u16,
    pub sample_rate: u32,
}

impl StreamConfig {
    /// A configuration has at least one channel and a positive rate.
    pub open spec fn valid(self) -> bool {
        self.channel_count > 0 && self.sample_rate > 0
    }
}

/// The header fields of a waveform file.
#[derive(Clone, Copy, Debug, PartialEq, Eq, Structural, Hash)]
pub struct WaveformSpec {
    pub channels: u16,
    pub sample_rate: u32,
    pub bits_per_sample: u16,
    pub sample_kind: SampleKind,
}

/// Largest number of bytes a waveform header can announce per second.
pub open spec fn max_byte_rate() -> nat {
    0xffff_ffff
}

impl WaveformSpec {
    /// Number of bytes one stored sample takes.
    pub open spec fn bytes_per_sample(self) -> nat {
        (self.bits_per_sample as nat + 7) / 8
    }

    /// Number of bytes one second of audio takes.
    pub open spec fn byte_rate(self) -> nat {
        self.sample_rate as nat * self.bytes_per_sample() * self.channels as nat
    }

    /// Whether a header can be written for these fields: a bit depth of one,
    /// two, three or four bytes, floats only at 32 bits, at least one channel,
    /// a positive rate, and a byte rate that fits the header's 32-bit field.
    pub open spec fn encodable(self) -> bool {
        &&& self.bits_per_sample == 8 || self.bits_per_sample == 16 || self.bits_per_sample == 24
            || self.bits_per_sample == 32
        &&& self.sample_kind == SampleKind::Float ==> self.bits_per_sample == 32
        &&& self.channels > 0
        &&& self.sample_rate > 0
        &&& self.byte_rate() <= max_byte_rate()
    }

    /// Decides whether a header can be written for these fields.
    pub fn is_encodable(&self) -> (yes: bool)
        ensures
            yes == self.encodable(),
    {
        let bits = self.bits_per_sample;
        if !(bits == 8 || bits == 16 || bits == 24 || bits == 32) {
            return false;
        }
        if self.sample_kind == SampleKind::Float && bits != 32 {
            return false;
        }
        if self.channels == 0 || self.sample_rate == 0 {
            return false;
        }
        let width: u64 = ((bits + 7) / 8) as u64;
        assert(width * self.channels <= 4 * 0xffff) by (nonlinear_arith)
            requires
                width <= 4,
                self.channels <= 0xffff,
        ;
        let per_frame: u64 = width * (self.channels as u64);
        assert(self.sample_rate * per_frame <= 0xffff_ffff * (4 * 0xffff)) by (nonlinear_arith)
            requires
                self.sample_rate <= 0xffff_ffff,
                per_frame <= 4 * 0xffff,
        ;
        assert(self.byte_rate() == self.sample_rate * per_frame) by (nonlinear_arith)
            requires
                width as nat == self.bytes_per_sample(),
                per_frame == width * self.channels,
                self.byte_rate() == self.sample_rate as nat * self.bytes_per_sample()
                    * self.channels as nat,
        ;
        let rate: u64 = (self.sample_rate as u64) * per_frame;
        rate <= 0xffff_ffff
    }
}

/// The storage kind of a device format: floats stay floats, the rest are
/// integers.
pub fn sample_format(format: SampleFormat) -> (kind: SampleKind)
    ensures
        kind == (if format.float() {
            SampleKind::Float
        } else {
            SampleKind::Int
        }),
{
    if format.is_float() {
        SampleKind::Float
    } else {
        SampleKind::Int
    }
}

/// The header a stream configuration calls for.
pub open spec fn spec_of_config(config: StreamConfig) -> WaveformSpec {
    WaveformSpec {
        channels: config.channel_count,
        sample_rate: config.sample_rate,
        bits_per_sample: (8 * config.sample_format.width()) as u16,
        sample_kind: if config.sample_format.float() {
            SampleKind::Float
        } else {
            SampleKind::Int
        },
    }
}

/// Derives the waveform header from the negotiated stream configuration:
/// same channels and rate, eight bits per byte of the sample format.
pub fn wav_spec_from_config(config: &StreamConfig) -> (spec: WaveformSpec)
    ensures
        spec == spec_of_config(*config),
{
    let size: usize = config.sample_format.sample_size();
    WaveformSpec {
        channels: config.channel_count,
        sample_rate: config.sample_rate,
        bits_per_sample: (size * 8) as u16,
        sample_kind: sample_format(config.sample_format),
    }
}

/// Selects the conversion for a reported format. Only 8-, 16- and 32-bit
/// signed integers and 32-bit floats are converted.
pub fn select_encoding(format: SampleFormat) -> (selected: Result<SampleEncoding, PipelineError>)
    ensures
        selected == match format.encoding() {
            Some(encoding) => Ok::<SampleEncoding, PipelineError>(encoding),
            None => Err::<SampleEncoding, PipelineError>(PipelineError::UnsupportedSampleFormat),
        },
{
    match format {
        SampleFormat::I8 => Ok(SampleEncoding::Int8),
        SampleFormat::I16 => Ok(SampleEncoding::Int16),
        SampleFormat::I32 => Ok(SampleEncoding::Int32),
        SampleFormat::F32 => Ok(SampleEncoding::Float32),
        _ => Err(PipelineError::UnsupportedSampleFormat),
    }
}

/// For a configuration whose format has a conversion, the header carries the
/// bit depth of that conversion, and it can be written exactly when the byte
/// rate fits the header.
pub proof fn lemma_supported_header(config: StreamConfig)
    requires
        config.valid(),
        config.sample_format.encoding() is Some,
    ensures
        spec_of_config(config).bits_per_sample == config.sample_format.encoding()->Some_0.bits(),
        spec_of_config(config).encodable() <==> spec_of_config(config).byte_rate()
            <= max_byte_rate(),
{
}

} // verus!
