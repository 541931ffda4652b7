//! The waveform sink: a writer that is open, finalized or absent, and the
//! non-blocking path that feeds it from the audio callback.
//!
//! The sink decides what reaches the waveform file and keeps the count the
//! file's header is completed with. Its driver owns the file: it appends what
//! the sink forwards and completes the header when the sink is finalized.

use crate::error::PipelineError;
use crate::format::{SampleEncoding, WaveformSpec};
use vstd::prelude::*;

verus! {

/// Most bytes of sample data one waveform can hold: the header counts the
/// file's length in 32 bits, and the longest header takes 60 of them.
pub open spec fn max_data_bytes() -> nat {
    0xffff_ffc3
}

/// The three states of a sink.
#[derive(Clone, Copy, Debug, PartialEq, Eq, Structural)]
pub enum SinkState {
    /// Accepting samples.
    Open,
    /// The header has been completed; no further sample is accepted.
    Finalized,
    /// There is no writer: none was created yet, or it was taken.
    Absent,
}

/// A sink as contracts see it.
pub struct SinkView {
    pub state: SinkState,
    /// The header the sink was opened with, if it ever was.
    pub spec: Option<WaveformSpec>,
    /// The codes of the samples forwarded to the file, oldest first.
    pub samples: Seq<i32>,
}

/// The destination of captured samples.
pub struct WaveformSink {
    state: SinkState,
    spec: Option<WaveformSpec>,
    count: u32,
    samples: Ghost<Seq<i32>>,
}

impl View for WaveformSink {
    type V = SinkView;

    closed spec fn view(&self) -> SinkView {
        SinkView { state: self.state, spec: self.spec, samples: self.samples@ }
    }
}

/// How many more samples a sink forwards before its data would pass the
/// waveform's size limit. A sink that is not open forwards none.
pub open spec fn room(sink: SinkView) -> nat {
    match sink.spec {
        Some(spec) => if sink.state == SinkState::Open && spec.bytes_per_sample() > 0
            && sink.samples.len() * spec.bytes_per_sample() <= max_data_bytes() {
            ((max_data_bytes() - sink.samples.len() * spec.bytes_per_sample())
                / spec.bytes_per_sample() as int) as nat
        } else {
            0
        },
        None => 0,
    }
}

/// Whether a code can be stored at the header's bit depth: the value lies in
/// the signed range of 8, 16 or 24 bits, and any value fits 32.
pub open spec fn fits(spec: WaveformSpec, code: i32) -> bool {
    if spec.bits_per_sample == 8 {
        -0x80 <= code <= 0x7f
    } else if spec.bits_per_sample == 16 {
        -0x8000 <= code <= 0x7fff
    } else if spec.bits_per_sample == 24 {
        -0x80_0000 <= code <= 0x7f_ffff
    } else {
        true
    }
}

/// The codes of a batch that can be stored in the sink's waveform, in order.
pub open spec fn fitting(sink: SinkView, codes: Seq<i32>) -> Seq<i32> {
    match sink.spec {
        Some(spec) => codes.filter(|code: i32| fits(spec, code)),
        None => Seq::empty(),
    }
}

/// The part of a batch that a sink forwards: every sample that fits while
/// there is room, and otherwise the fitting samples that still find room,
/// oldest first.
pub open spec fn forwarded(sink: SinkView, codes: Seq<i32>) -> Seq<i32> {
    let fitting = fitting(sink, codes);
    if fitting.len() <= room(sink) {
        fitting
    } else {
        fitting.take(room(sink) as int)
    }
}

/// The sink after a batch was offered to it: it has grown by what it
/// forwarded and is otherwise the same.
pub open spec fn after_batch(sink: SinkView, codes: Seq<i32>) -> SinkView {
    SinkView { state: sink.state, spec: sink.spec, samples: sink.samples + forwarded(sink, codes) }
}

/// The sink after an attempt to finalize it: an open sink becomes finalized,
/// any other stays as it is.
pub open spec fn after_finalize(sink: SinkView) -> SinkView {
    if sink.state == SinkState::Open {
        SinkView { state: SinkState::Finalized, spec: sink.spec, samples: sink.samples }
    } else {
        sink
    }
}

impl WaveformSink {
    #[verifier::type_invariant]
    spec fn consistent(self) -> bool {
        &&& self.count == self.samples@.len()
        &&& self.state != SinkState::Absent ==> self.spec is Some
        &&& self.spec matches Some(spec) ==> spec.encodable() && self.count
            * spec.bytes_per_sample() <= max_data_bytes()
    }

    /// A sink without a writer.
    pub fn absent() -> (sink: Self)
        ensures
            sink@ == (SinkView {
                state: SinkState::Absent,
                spec: None,
                samples: Seq::<i32>::empty(),
            }),
    {
        WaveformSink {
            state: SinkState::Absent,
            spec: None,
            count: 0,
            samples: Ghost(Seq::empty()),
        }
    }

    /// Opens a sink for a waveform with the given header. Fields that no
    /// header can carry are refused as an unsupported configuration.
    pub fn open(spec: WaveformSpec) -> (sink: Result<Self, PipelineError>)
        ensures
            spec.encodable() ==> sink is Ok && sink->Ok_0@ == (SinkView {
                state: SinkState::Open,
                spec: Some(spec),
                samples: Seq::<i32>::empty(),
            }),
            !spec.encodable() ==> sink is Err && sink->Err_0 == PipelineError::UnsupportedConfig,
    {
        if spec.is_encodable() {
            assert(0 * spec.bytes_per_sample() == 0) by (nonlinear_arith);
            Ok(
                WaveformSink {
                    state: SinkState::Open,
                    spec: Some(spec),
                    count: 0,
                    samples: Ghost(Seq::empty()),
                },
            )
        } else {
            Err(PipelineError::UnsupportedConfig)
        }
    }

    /// The state the sink is in.
    pub fn state(&self) -> (state: SinkState)
        ensures
            state == self@.state,
    {
        self.state
    }

    /// The header the sink was opened with.
    pub fn spec(&self) -> (spec: Option<WaveformSpec>)
        ensures
            spec == self@.spec,
            spec matches Some(s) ==> s.encodable(),
    {
        proof {
            use_type_invariant(self);
        }
        self.spec
    }

    /// Number of samples forwarded to the file so far.
    pub fn len(&self) -> (count: u32)
        ensures
            count == self@.samples.len(),
    {
        proof {
            use_type_invariant(self);
        }
        self.count
    }

    /// Number of bytes the forwarded samples take in the file: the length
    /// the header's data field is completed with.
    pub fn data_bytes(&self) -> (bytes: u32)
        ensures
            bytes == data_length(self@),
            bytes <= max_data_bytes(),
    {
        proof {
            use_type_invariant(self);
        }
        match self.spec {
            Some(spec) => {
                let width: u32 = ((spec.bits_per_sample + 7) / 8) as u32;
                self.count * width
            },
            None => 0,
        }
    }

    /// How many more samples the sink forwards.
    pub fn remaining(&self) -> (samples: u32)
        ensures
            samples == room(self@),
    {
        proof {
            use_type_invariant(self);
        }
        if self.state != SinkState::Open {
            return 0;
        }
        match self.spec {
            Some(spec) => {
                let width: u32 = ((spec.bits_per_sample + 7) / 8) as u32;
                let used: u32 = self.count * width;
                (0xffff_ffc3u32 - used) / width
            },
            None => 0,
        }
    }

    /// Offers one sample. An open sink with room forwards a sample that fits
    /// its bit depth, and the driver appends it to the file; otherwise the
    /// sample is left out and the sink stays as it is, without failing.
    pub fn write_sample(&mut self, code: i32) -> (forward: bool)
        ensures
            forward == (room(old(self)@) > 0 && fits(old(self)@.spec->Some_0, code)),
            final(self)@ == after_batch(old(self)@, seq![code]),
    {
        let ghost before = self@;
        proof {
            use_type_invariant(&*self);
            lemma_forwarded_one(before, code);
        }
        if self.remaining() == 0 {
            return false;
        }
        let spec = match self.spec {
            Some(spec) => spec,
            None => {
                return false;
            },
        };
        let bits = spec.bits_per_sample;
        let fit = if bits == 8 {
            -0x80 <= code && code <= 0x7f
        } else if bits == 16 {
            -0x8000 <= code && code <= 0x7fff
        } else if bits == 24 {
            -0x80_0000 <= code && code <= 0x7f_ffff
        } else {
            true
        };
        if !fit {
            return false;
        }
        proof {
            lemma_room_step(before);
            let width = spec.bytes_per_sample();
            assert(self.count + 1 <= max_data_bytes()) by (nonlinear_arith)
                requires
                    (self.count + 1) * width <= max_data_bytes(),
                    width >= 1,
            ;
        }
        *self = WaveformSink {
            state: self.state,
            spec: self.spec,
            count: self.count + 1,
            samples: Ghost(self.samples@.push(code)),
        };
        true
    }

    /// Closes the sink. An open sink becomes finalized, and the driver
    /// completes the file's header with `data_bytes`; a sink that is
    /// finalized or absent is refused and stays as it is.
    pub fn finalize(&mut self) -> (outcome: Result<(), PipelineError>)
        ensures
            final(self)@ == after_finalize(old(self)@),
            old(self)@.state == SinkState::Open ==> outcome is Ok,
            old(self)@.state != SinkState::Open ==> outcome is Err && outcome->Err_0
                == PipelineError::AlreadyFinalized,
    {
        proof {
            use_type_invariant(&*self);
        }
        match self.state {
            SinkState::Open => {
                *self = WaveformSink {
                    state: SinkState::Finalized,
                    spec: self.spec,
                    count: self.count,
                    samples: self.samples,
                };
                Ok(())
            },
            _ => Err(PipelineError::AlreadyFinalized),
        }
    }
}

/// Number of bytes the forwarded samples of a sink take in the file.
pub open spec fn data_length(sink: SinkView) -> nat {
    match sink.spec {
        Some(spec) => sink.samples.len() * spec.bytes_per_sample(),
        None => 0,
    }
}

/// A sink with room still has room for one sample less after taking one.
proof fn lemma_room_step(sink: SinkView)
    requires
        room(sink) > 0,
    ensures
        sink.spec matches Some(spec) && (sink.samples.len() + 1) * spec.bytes_per_sample()
            <= max_data_bytes(),
{
    let spec = sink.spec->Some_0;
    let width = spec.bytes_per_sample() as int;
    let used = sink.samples.len() * width;
    let left = max_data_bytes() - used;
    assert(left / width >= 1);
    assert(left >= width) by (nonlinear_arith)
        requires
            left / width >= 1,
            width > 0,
            left >= 0,
    ;
    assert((sink.samples.len() + 1) * width == used + width) by (nonlinear_arith)
        requires
            used == sink.samples.len() * width,
    ;
}

/// Offering a single sample: the sink grows by it when it has room and the
/// sample fits, and stays as it is otherwise.
proof fn lemma_forwarded_one(sink: SinkView, code: i32)
    ensures
        forwarded(sink, seq![code]) == (if room(sink) > 0 && fits(sink.spec->Some_0, code) {
            seq![code]
        } else {
            Seq::<i32>::empty()
        }),
        after_batch(sink, seq![code]) == (if room(sink) > 0 && fits(sink.spec->Some_0, code) {
            SinkView { state: sink.state, spec: sink.spec, samples: sink.samples.push(code) }
        } else {
            sink
        }),
{
    let one = seq![code];
    match sink.spec {
        Some(spec) => {
            let pred = |c: i32| fits(spec, c);
            reveal_with_fuel(Seq::filter, 2);
            assert(one.drop_last() =~= Seq::<i32>::empty());
            assert(one.last() == code);
            if fits(spec, code) {
                assert(one.filter(pred) =~= one);
            } else {
                assert(one.filter(pred) =~= Seq::<i32>::empty());
            }
        },
        None => {},
    }
    if room(sink) > 0 && fits(sink.spec->Some_0, code) {
        assert(forwarded(sink, one) =~= one);
        assert(sink.samples + one =~= sink.samples.push(code));
    } else {
        assert(forwarded(sink, one) =~= Seq::<i32>::empty());
        assert(sink.samples + Seq::<i32>::empty() =~= sink.samples);
    }
}

/// The code a 32-bit float sample is carried by: its IEEE 754 bit pattern,
/// read as a signed integer.
pub open spec fn float_code(bits: u32) -> i32 {
    if bits < 0x8000_0000 {
        bits as i32
    } else {
        (bits - 0x1_0000_0000) as i32
    }
}

/// The bit pattern a code stands for: the inverse of `float_code`.
pub open spec fn float_bits(code: i32) -> u32 {
    if code >= 0 {
        code as u32
    } else {
        (code + 0x1_0000_0000) as u32
    }
}

/// Carries the bit pattern of a float sample as a code.
pub fn code_of_float(bits: u32) -> (code: i32)
    ensures
        code == float_code(bits),
{
    if bits < 0x8000_0000 {
        bits as i32
    } else {
        (bits as i64 - 0x1_0000_0000) as i32
    }
}

/// Recovers the bit pattern of a float sample from its code.
pub fn bits_of_code(code: i32) -> (bits: u32)
    ensures
        bits == float_bits(code),
{
    if code >= 0 {
        code as u32
    } else {
        (code as i64 + 0x1_0000_0000) as u32
    }
}

/// A batch of raw samples as the audio callback receives it, in one of the
/// four supported encodings. Float samples are given by their bit patterns.
pub enum SampleBatch<'a> {
    Int8(&'a [i8]),
    Int16(&'a [i16]),
    Int32(&'a [i32]),
    Float32(&'a [u32]),
}

impl<'a> SampleBatch<'a> {
    /// The encoding of the batch.
    pub open spec fn encoding(self) -> SampleEncoding {
        match self {
            SampleBatch::Int8(_) => SampleEncoding::Int8,
            SampleBatch::Int16(_) => SampleEncoding::Int16,
            SampleBatch::Int32(_) => SampleEncoding::Int32,
            SampleBatch::Float32(_) => SampleEncoding::Float32,
        }
    }

    /// The samples of the batch as codes, in order: an integer sample is its
    /// own code, a float sample is carried by its bit pattern.
    pub open spec fn codes(self) -> Seq<i32> {
        match self {
            SampleBatch::Int8(samples) => samples@.map_values(|v: i8| v as i32),
            SampleBatch::Int16(samples) => samples@.map_values(|v: i16| v as i32),
            SampleBatch::Int32(samples) => samples@,
            SampleBatch::Float32(samples) => samples@.map_values(|b: u32| float_code(b)),
        }
    }

    /// Number of samples in the batch.
    pub fn len(&self) -> (count: usize)
        ensures
            count == self.codes().len(),
    {
        match self {
            SampleBatch::Int8(samples) => samples.len(),
            SampleBatch::Int16(samples) => samples.len(),
            SampleBatch::Int32(samples) => samples.len(),
            SampleBatch::Float32(samples) => samples.len(),
        }
    }

    /// The code of the sample at `index`.
    pub fn code(&self, index: usize) -> (code: i32)
        requires
            index < self.codes().len(),
        ensures
            code == self.codes()[index as int],
    {
        match self {
            SampleBatch::Int8(samples) => samples[index] as i32,
            SampleBatch::Int16(samples) => samples[index] as i32,
            SampleBatch::Int32(samples) => samples[index],
            SampleBatch::Float32(samples) => code_of_float(samples[index]),
        }
    }
}

/// The audio callback's write path. `access` is the outcome of one attempt to
/// take the sink's lock without waiting: the sink when the lock was free,
/// nothing when it was held. Under contention the whole batch is dropped. With
/// access, every sample is converted to its code and offered to the sink, and
/// what the sink forwards is returned for the driver to append to the file.
pub fn write_input_data(input: &SampleBatch, access: Option<&mut WaveformSink>) -> (out: Vec<i32>)
    ensures
        match access {
            Some(sink) => out@ == forwarded(sink@, input.codes()) && final(sink)@ == after_batch(
                sink@,
                input.codes(),
            ),
            None => out@ == Seq::<i32>::empty(),
        },
{
    let mut out: Vec<i32> = Vec::new();
    match access {
        Some(sink) => {
            let ghost before = sink@;
            let ghost codes = input.codes();
            let count: usize = input.len();
            let mut i: usize = 0;
            proof {
                assert(forwarded(before, codes.take(0)) =~= Seq::<i32>::empty());
                assert(before.samples + Seq::<i32>::empty() =~= before.samples);
            }
            while i < count
                invariant
                    i <= count,
                    count == codes.len(),
                    codes == input.codes(),
                    out@ == forwarded(before, codes.take(i as int)),
                    sink@ == after_batch(before, codes.take(i as int)),
                decreases count - i,
            {
                let code: i32 = input.code(i);
                let forward: bool = sink.write_sample(code);
                if forward {
                    out.push(code);
                }
                proof {
                    let offered = codes.take(i as int);
                    lemma_forwarded_step(before, offered, code);
                    lemma_forwarded_one(after_batch(before, offered), code);
                    assert(codes.take(i as int + 1) =~= offered.push(code));
                }
                i = i + 1;
            }
            assert(codes.take(count as int) =~= codes);
        },
        None => {},
    }
    out
}

/// Offering a batch and then one more sample is offering the batch with the
/// sample appended.
pub proof fn lemma_forwarded_step(sink: SinkView, codes: Seq<i32>, code: i32)
    ensures
        after_batch(after_batch(sink, codes), seq![code]) == after_batch(sink, codes.push(code)),
        forwarded(sink, codes.push(code)) == forwarded(sink, codes) + forwarded(
            after_batch(sink, codes),
            seq![code],
        ),
{
    let mid = after_batch(sink, codes);
    let kept = forwarded(sink, codes);
    lemma_room_after_batch(sink, codes);
    lemma_forwarded_one(mid, code);
    let fit_before = fitting(sink, codes);
    let fit_after = fitting(sink, codes.push(code));
    match sink.spec {
        Some(spec) => {
            let pred = |c: i32| fits(spec, c);
            assert(codes.push(code).drop_last() =~= codes);
            assert(fit_after == (if fits(spec, code) {
                fit_before.push(code)
            } else {
                fit_before
            })) by {
                reveal_with_fuel(Seq::filter, 2);
            }
        },
        None => {},
    }
    if room(mid) > 0 && fits(mid.spec->Some_0, code) {
        assert(kept.len() < room(sink));
        assert(forwarded(sink, codes.push(code)) =~= kept.push(code));
        assert(mid.samples.push(code) =~= sink.samples + kept.push(code));
        assert(kept + seq![code] =~= kept.push(code));
    } else {
        assert(forwarded(sink, codes.push(code)) =~= kept);
        assert(kept + Seq::<i32>::empty() =~= kept);
    }
}

/// What a sink forwards comes out of its room: after a batch, the room left is
/// the room before less the number of samples forwarded.
pub proof fn lemma_room_after_batch(sink: SinkView, codes: Seq<i32>)
    ensures
        room(after_batch(sink, codes)) == room(sink) - forwarded(sink, codes).len(),
        forwarded(sink, codes).len() <= room(sink),
{
    let taken = forwarded(sink, codes).len();
    if room(sink) > 0 {
        let spec = sink.spec->Some_0;
        let width = spec.bytes_per_sample() as int;
        let used = sink.samples.len() * width;
        let left = max_data_bytes() - used;
        let after = after_batch(sink, codes);
        assert(after.samples.len() == sink.samples.len() + taken);
        assert(after.samples.len() * width == used + taken * width) by (nonlinear_arith)
            requires
                after.samples.len() == sink.samples.len() + taken,
                used == sink.samples.len() * width,
        ;
        assert(taken * width <= left && (left - taken * width) / width == left / width - taken)
            by (nonlinear_arith)
            requires
                0 <= taken <= left / width,
                width > 0,
                left >= 0,
        ;
    } else {
        assert(forwarded(sink, codes) =~= Seq::<i32>::empty());
        assert(sink.samples + Seq::<i32>::empty() =~= sink.samples);
    }
}


/// Finalizing is done once. After the first attempt the sink is never open,
/// so a second attempt is refused; and the second attempt changes nothing:
/// the header and the samples stay what the first attempt left.
pub proof fn lemma_finalize_once(sink: SinkView)
    ensures
        after_finalize(sink).state != SinkState::Open,
        after_finalize(after_finalize(sink)) == after_finalize(sink),
        after_finalize(sink).samples == sink.samples,
        after_finalize(sink).spec == sink.spec,
{
}

/// A sink that is not open takes nothing: whatever is offered to a finalized
/// or absent sink, the sink stays as it is and forwards no sample.
pub proof fn lemma_closed_sink_takes_nothing(sink: SinkView, codes: Seq<i32>)
    requires
        sink.state != SinkState::Open,
    ensures
        forwarded(sink, codes) == Seq::<i32>::empty(),
        after_batch(sink, codes) == sink,
{
    assert(forwarded(sink, codes) =~= Seq::<i32>::empty());
    assert(sink.samples + Seq::<i32>::empty() =~= sink.samples);
}

/// A batch is kept whole when the sink has room for it and each of its
/// samples fits the sink's bit depth: the sink forwards every sample, in order
/// and unchanged, and grows by exactly the size of the batch.
pub proof fn lemma_batch_kept_whole(sink: SinkView, codes: Seq<i32>)
    requires
        codes.len() <= room(sink),
        sink.spec matches Some(spec) ==> forall|i: int|
            0 <= i < codes.len() ==> fits(spec, #[trigger] codes[i]),
    ensures
        forwarded(sink, codes) == codes,
        after_batch(sink, codes).samples == sink.samples + codes,
        after_batch(sink, codes).samples.len() == sink.samples.len() + codes.len(),
{
    match sink.spec {
        Some(spec) => {
            lemma_all_fit(spec, codes);
        },
        None => {
            assert(codes =~= Seq::<i32>::empty());
        },
    }
}

/// Codes that all fit pass the filter unchanged.
proof fn lemma_all_fit(spec: WaveformSpec, codes: Seq<i32>)
    requires
        forall|i: int| 0 <= i < codes.len() ==> fits(spec, #[trigger] codes[i]),
    ensures
        codes.filter(|code: i32| fits(spec, code)) == codes,
    decreases codes.len(),
{
    reveal_with_fuel(Seq::filter, 2);
    if codes.len() > 0 {
        lemma_all_fit(spec, codes.drop_last());
        assert(fits(spec, codes.last()));
        assert(codes.drop_last().push(codes.last()) =~= codes);
    }
}

/// Every sample of a batch fits a waveform of the batch's own bit depth, so a
/// sink opened for the negotiated format, with room left, keeps each batch of
/// that format whole: as many samples as were captured, each with the code of
/// its value.
pub proof fn lemma_matching_batch_kept_whole(sink: SinkView, batch: SampleBatch)
    requires
        sink.spec matches Some(spec) && spec.bits_per_sample == batch.encoding().bits(),
        batch.codes().len() <= room(sink),
    ensures
        forwarded(sink, batch.codes()) == batch.codes(),
        after_batch(sink, batch.codes()).samples == sink.samples + batch.codes(),
{
    let spec = sink.spec->Some_0;
    let codes = batch.codes();
    assert forall|i: int| 0 <= i < codes.len() implies fits(spec, #[trigger] codes[i]) by {
        lemma_codes_are_faithful(batch, i);
    }
    lemma_batch_kept_whole(sink, codes);
}

/// Codes lose nothing. An integer sample is its own code, and the bit pattern
/// of a float sample is recovered from its code.
pub proof fn lemma_codes_are_faithful(batch: SampleBatch, index: int)
    requires
        0 <= index < batch.codes().len(),
    ensures
        batch matches SampleBatch::Int8(samples) ==> batch.codes()[index] == samples@[index],
        batch matches SampleBatch::Int16(samples) ==> batch.codes()[index] == samples@[index],
        batch matches SampleBatch::Int32(samples) ==> batch.codes()[index] == samples@[index],
        batch matches SampleBatch::Float32(samples) ==> float_bits(batch.codes()[index])
            == samples@[index],
{
}

/// Bit patterns and codes correspond one to one.
pub proof fn lemma_float_code_round_trip(bits: u32, code: i32)
    ensures
        float_bits(float_code(bits)) == bits,
        float_code(float_bits(code)) == code,
{
}


} // verus!
