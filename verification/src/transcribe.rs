//! The transcription protocol: the engine's fixed parameters, the decoding of
//! waveform bytes into samples, and the collection of timestamped segments.

use crate::error::PipelineError;
use crate::format::SampleEncoding;
use crate::segment::{segment_views, Segment, SegmentView};
use vstd::prelude::*;
use vstd::string::StringExecFns;

verus! {

/// The configuration the speech engine always runs with.
pub struct EngineParams {
    /// Number of candidates the greedy decoder keeps.
    pub best_of: i32,
    /// Number of decoding threads.
    pub n_threads: i32,
    /// Whether the transcript is translated to English.
    pub translate: bool,
    /// The language the engine is told to expect.
    pub language: String,
    pub print_special: bool,
    pub print_progress: bool,
    pub print_realtime: bool,
    pub print_timestamps: bool,
}

/// Greedy decoding with a single candidate on a single thread, translating to
/// English, with every kind of diagnostic printing switched off.
pub fn engine_params() -> (params: EngineParams)
    ensures
        params.best_of == 1,
        params.n_threads == 1,
        params.translate,
        params.language@ == "en"@,
        !params.print_special,
        !params.print_progress,
        !params.print_realtime,
        !params.print_timestamps,
{
    EngineParams {
        best_of: 1,
        n_threads: 1,
        translate: true,
        language: String::from_str("en"),
        print_special: false,
        print_progress: false,
        print_realtime: false,
        print_timestamps: false,
    }
}

/// The signed 16-bit value stored little-endian in two bytes.
pub open spec fn sample_value(low: u8, high: u8) -> int {
    let unsigned = low as int + 256 * (high as int);
    if unsigned < 32768 {
        unsigned
    } else {
        unsigned - 65536
    }
}

/// The samples held in a run of bytes: one per complete pair, in order. A
/// trailing odd byte belongs to no sample.
pub open spec fn samples_of(bytes: Seq<u8>) -> Seq<i16> {
    Seq::new(bytes.len() / 2, |i: int| sample_value(bytes[2 * i], bytes[2 * i + 1]) as i16)
}

fn join_bytes(low: u8, high: u8) -> (value: i16)
    ensures
        value == sample_value(low, high),
{
    let unsigned: i32 = low as i32 + 256 * (high as i32);
    if unsigned < 32768 {
        unsigned as i16
    } else {
        (unsigned - 65536) as i16
    }
}

/// Reads raw bytes as little-endian 16-bit samples, dropping a trailing
/// partial sample.
pub fn decode_samples(bytes: &[u8]) -> (samples: Vec<i16>)
    ensures
        samples@ == samples_of(bytes@),
{
    let count: usize = bytes.len() / 2;
    let mut samples: Vec<i16> = Vec::with_capacity(count);
    let mut i: usize = 0;
    while i < count
        invariant
            i <= count,
            count == bytes@.len() / 2,
            bytes@.len() <= usize::MAX,
            samples@.len() == i,
            forall|k: int|
                0 <= k < i ==> samples@[k] == sample_value(bytes@[2 * k], bytes@[2 * k + 1]),
        decreases count - i,
    {
        let value: i16 = join_bytes(bytes[2 * i], bytes[2 * i + 1]);
        samples.push(value);
        i = i + 1;
    }
    assert(samples@ =~= samples_of(bytes@));
    samples
}

/// Where a transcription stands, which is also what its driver does next.
#[derive(Clone, Copy, Debug, PartialEq, Eq, Structural)]
pub enum Phase {
    /// Load the speech model and create its decoding state.
    LoadModel,
    /// Read the bytes of the audio file.
    ReadAudio,
    /// Run the engine once over the decoded samples.
    RunEngine,
    /// Ask the engine how many segments it found.
    CountSegments,
    /// Retrieve the segment with this index.
    FetchSegment(i32),
    /// Every segment has been collected.
    Done,
    /// The transcription was abandoned.
    Failed(PipelineError),
}

/// What the driver reports after doing what the phase asked for.
pub enum EngineReply {
    /// The step could not be carried out.
    Failed,
    /// The model is loaded and ready.
    ModelLoaded,
    /// The bytes of the audio file.
    AudioRead(Vec<u8>),
    /// The engine decoded the samples.
    EngineFinished,
    /// The number of segments the engine reports.
    SegmentCount(i32),
    /// The timestamps and text of the requested segment.
    Segment { start: i64, end: i64, text: String },
}

/// One transcription in progress. The driver performs the step named by
/// `phase`, reports the result to `advance`, and repeats until the phase is
/// `Done` or `Failed`.
pub struct Transcriber {
    phase: Phase,
    samples: Vec<i16>,
    expected: i32,
    segments: Vec<Segment>,
}

/// The state of a transcription as contracts see it.
pub struct TranscriberView {
    pub phase: Phase,
    /// The engine's input, known once the audio has been read.
    pub samples: Seq<i16>,
    /// The number of segments the engine reported.
    pub expected: int,
    /// The segments collected so far, in retrieval order.
    pub segments: Seq<SegmentView>,
}

impl View for Transcriber {
    type V = TranscriberView;

    closed spec fn view(&self) -> TranscriberView {
        TranscriberView {
            phase: self.phase,
            samples: self.samples@,
            expected: self.expected as int,
            segments: segment_views(self.segments@),
        }
    }
}

/// The state with its phase replaced.
pub open spec fn with_phase(state: TranscriberView, phase: Phase) -> TranscriberView {
    TranscriberView {
        phase,
        samples: state.samples,
        expected: state.expected,
        segments: state.segments,
    }
}

/// The phase that follows the retrieval of segment `index` out of `expected`.
pub open spec fn phase_after(index: i32, expected: int) -> Phase {
    if index + 1 < expected {
        Phase::FetchSegment((index + 1) as i32)
    } else {
        Phase::Done
    }
}

/// The transition rule. Each phase accepts one kind of reply and moves on;
/// any other reply abandons the transcription with the error of that phase:
/// a model that does not load, audio that cannot be read, an engine that
/// fails to decode, count or hand out a segment, or a segment that ends
/// before it starts. `Done` and `Failed` are final.
pub open spec fn step(state: TranscriberView, reply: EngineReply) -> TranscriberView {
    match state.phase {
        Phase::LoadModel => match reply {
            EngineReply::ModelLoaded => with_phase(state, Phase::ReadAudio),
            _ => with_phase(state, Phase::Failed(PipelineError::ModelLoad)),
        },
        Phase::ReadAudio => match reply {
            EngineReply::AudioRead(bytes) => TranscriberView {
                phase: Phase::RunEngine,
                samples: samples_of(bytes@),
                expected: state.expected,
                segments: state.segments,
            },
            _ => with_phase(state, Phase::Failed(PipelineError::Io)),
        },
        Phase::RunEngine => match reply {
            EngineReply::EngineFinished => with_phase(state, Phase::CountSegments),
            _ => with_phase(state, Phase::Failed(PipelineError::Transcribe)),
        },
        Phase::CountSegments => match reply {
            EngineReply::SegmentCount(count) => TranscriberView {
                phase: if count > 0 {
                    Phase::FetchSegment(0)
                } else {
                    Phase::Done
                },
                samples: state.samples,
                expected: count as int,
                segments: state.segments,
            },
            _ => with_phase(state, Phase::Failed(PipelineError::Transcribe)),
        },
        Phase::FetchSegment(index) => match reply {
            EngineReply::Segment { start, end, text } => if start <= end {
                TranscriberView {
                    phase: phase_after(index, state.expected),
                    samples: state.samples,
                    expected: state.expected,
                    segments: state.segments.push(
                        SegmentView { start: start as int, end: end as int, text: text@ },
                    ),
                }
            } else {
                with_phase(state, Phase::Failed(PipelineError::Transcribe))
            },
            _ => with_phase(state, Phase::Failed(PipelineError::Transcribe)),
        },
        Phase::Done => state,
        Phase::Failed(_) => state,
    }
}

impl Transcriber {
    /// Starts a transcription of audio in the given encoding. Audio that is
    /// not 16-bit integer PCM is refused at once, before any model is loaded.
    pub fn begin(encoding: SampleEncoding) -> (transcriber: Transcriber)
        ensures
            transcriber@ == (TranscriberView {
                phase: if encoding == SampleEncoding::Int16 {
                    Phase::LoadModel
                } else {
                    Phase::Failed(PipelineError::Transcribe)
                },
                samples: Seq::<i16>::empty(),
                expected: 0,
                segments: Seq::<SegmentView>::empty(),
            }),
    {
        let phase = match encoding {
            SampleEncoding::Int16 => Phase::LoadModel,
            _ => Phase::Failed(PipelineError::Transcribe),
        };
        let transcriber = Transcriber {
            phase,
            samples: Vec::new(),
            expected: 0,
            segments: Vec::new(),
        };
        assert(segment_views(transcriber.segments@) =~= Seq::<SegmentView>::empty());
        transcriber
    }

    /// What the driver does next.
    pub fn phase(&self) -> (phase: Phase)
        ensures
            phase == self@.phase,
    {
        self.phase
    }

    /// The samples to normalise and hand to the engine.
    pub fn samples(&self) -> (samples: &Vec<i16>)
        ensures
            samples@ == self@.samples,
    {
        &self.samples
    }

    /// The segments collected so far.
    pub fn segments(&self) -> (segments: &Vec<Segment>)
        ensures
            segment_views(segments@) == self@.segments,
    {
        &self.segments
    }

    /// Takes the driver's report and moves to the next phase.
    pub fn advance(&mut self, reply: EngineReply)
        ensures
            final(self)@ == step(old(self)@, reply),
    {
        let ghost before = self@;
        match self.phase {
            Phase::LoadModel => match reply {
                EngineReply::ModelLoaded => {
                    self.phase = Phase::ReadAudio;
                },
                _ => {
                    self.phase = Phase::Failed(PipelineError::ModelLoad);
                },
            },
            Phase::ReadAudio => match reply {
                EngineReply::AudioRead(bytes) => {
                    self.samples = decode_samples(bytes.as_slice());
                    self.phase = Phase::RunEngine;
                },
                _ => {
                    self.phase = Phase::Failed(PipelineError::Io);
                },
            },
            Phase::RunEngine => match reply {
                EngineReply::EngineFinished => {
                    self.phase = Phase::CountSegments;
                },
                _ => {
                    self.phase = Phase::Failed(PipelineError::Transcribe);
                },
            },
            Phase::CountSegments => match reply {
                EngineReply::SegmentCount(count) => {
                    self.expected = count;
                    self.phase = if count > 0 {
                        Phase::FetchSegment(0)
                    } else {
                        Phase::Done
                    };
                },
                _ => {
                    self.phase = Phase::Failed(PipelineError::Transcribe);
                },
            },
            Phase::FetchSegment(index) => match reply {
                EngineReply::Segment { start, end, text } => {
                    let ghost view = SegmentView {
                        start: start as int,
                        end: end as int,
                        text: text@,
                    };
                    match Segment::new(start, end, text) {
                        Some(segment) => {
                            self.segments.push(segment);
                            self.phase = if (index as i64) + 1 < self.expected as i64 {
                                Phase::FetchSegment(index + 1)
                            } else {
                                Phase::Done
                            };
                            assert(segment_views(self.segments@) =~= before.segments.push(view));
                        },
                        None => {
                            self.phase = Phase::Failed(PipelineError::Transcribe);
                        },
                    }
                },
                _ => {
                    self.phase = Phase::Failed(PipelineError::Transcribe);
                },
            },
            Phase::Done => {},
            Phase::Failed(_) => {},
        }
    }

    /// Ends the transcription: the collected segments once every one has been
    /// retrieved, the error of a failed transcription, and a transcription
    /// error for one that was cut short.
    pub fn finish(self) -> (outcome: Result<Vec<Segment>, PipelineError>)
        ensures
            self@.phase == Phase::Done ==> outcome is Ok && segment_views(outcome->Ok_0@)
                == self@.segments,
            self@.phase matches Phase::Failed(error) ==> outcome == Err::<
                Vec<Segment>,
                PipelineError,
            >(error),
            !(self@.phase == Phase::Done) && !(self@.phase is Failed) ==> outcome == Err::<
                Vec<Segment>,
                PipelineError,
            >(PipelineError::Transcribe),
    {
        match self.phase {
            Phase::Done => Ok(self.segments),
            Phase::Failed(error) => Err(error),
            _ => Err(PipelineError::Transcribe),
        }
    }
}


/// The state reached from `state` after a run of reports, oldest first.
pub open spec fn run(state: TranscriberView, replies: Seq<EngineReply>) -> TranscriberView
    decreases replies.len(),
{
    if replies.len() == 0 {
        state
    } else {
        step(run(state, replies.drop_last()), replies.last())
    }
}

/// Whether a report hands out a segment that does not end before it starts.
pub open spec fn hands_out_segment(reply: EngineReply) -> bool {
    reply matches EngineReply::Segment { start, end, .. } && start <= end
}

/// The segment a report hands out.
pub open spec fn handed_out(reply: EngineReply) -> SegmentView
    recommends
        hands_out_segment(reply),
{
    match reply {
        EngineReply::Segment { start, end, text } => SegmentView {
            start: start as int,
            end: end as int,
            text: text@,
        },
        _ => SegmentView { start: 0, end: 0, text: Seq::empty() },
    }
}

/// A finished transcription ignores whatever is reported afterwards: `Done`
/// and `Failed` are final, and nothing collected is lost or added.
pub proof fn lemma_finished_is_final(state: TranscriberView, replies: Seq<EngineReply>)
    requires
        state.phase == Phase::Done || state.phase is Failed,
    ensures
        run(state, replies) == state,
    decreases replies.len(),
{
    if replies.len() > 0 {
        lemma_finished_is_final(state, replies.drop_last());
    }
}

/// While segments are being retrieved and the engine hands out each one asked
/// for, the collected segments are exactly those handed out, in the order of
/// their indices, behind what was collected before; the transcription is done
/// when the last index has been served and asks for the next index otherwise.
pub proof fn lemma_segments_in_order(
    state: TranscriberView,
    index: i32,
    replies: Seq<EngineReply>,
)
    requires
        state.phase == Phase::FetchSegment(index),
        0 <= index < state.expected,
        state.expected <= i32::MAX,
        index + replies.len() <= state.expected,
        forall|k: int| 0 <= k < replies.len() ==> hands_out_segment(#[trigger] replies[k]),
    ensures
        run(state, replies).segments == state.segments + replies.map_values(
            |r: EngineReply| handed_out(r),
        ),
        run(state, replies).samples == state.samples,
        run(state, replies).expected == state.expected,
        run(state, replies).phase == (if index + replies.len() == state.expected {
            Phase::Done
        } else {
            Phase::FetchSegment((index + replies.len()) as i32)
        }),
    decreases replies.len(),
{
    let views = replies.map_values(|r: EngineReply| handed_out(r));
    if replies.len() == 0 {
        assert(state.segments + views =~= state.segments);
    } else {
        let earlier = replies.drop_last();
        lemma_segments_in_order(state, index, earlier);
        let earlier_views = earlier.map_values(|r: EngineReply| handed_out(r));
        assert(hands_out_segment(replies.last()));
        assert(views =~= earlier_views.push(handed_out(replies.last())));
        assert(state.segments + views =~= (state.segments + earlier_views).push(
            handed_out(replies.last()),
        ));
    }
}

/// A whole transcription that meets no failure: the model loads, the audio is
/// read, the engine decodes and reports a count, and hands out that many
/// segments. It ends in `Done` holding the decoded samples and exactly the
/// segments handed out, in retrieval order.
pub proof fn lemma_complete_run(bytes: Vec<u8>, count: i32, handed: Seq<EngineReply>)
    requires
        handed.len() == (if count > 0 {
            count as int
        } else {
            0
        }),
        forall|k: int| 0 <= k < handed.len() ==> hands_out_segment(#[trigger] handed[k]),
    ensures
        ({
            let start = TranscriberView {
                phase: Phase::LoadModel,
                samples: Seq::<i16>::empty(),
                expected: 0,
                segments: Seq::<SegmentView>::empty(),
            };
            let replies = seq![
                EngineReply::ModelLoaded,
                EngineReply::AudioRead(bytes),
                EngineReply::EngineFinished,
                EngineReply::SegmentCount(count),
            ] + handed;
            let end = run(start, replies);
            &&& end.phase == Phase::Done
            &&& end.samples == samples_of(bytes@)
            &&& end.segments == handed.map_values(|r: EngineReply| handed_out(r))
        }),
{
    let start = TranscriberView {
        phase: Phase::LoadModel,
        samples: Seq::<i16>::empty(),
        expected: 0,
        segments: Seq::<SegmentView>::empty(),
    };
    let head = seq![
        EngineReply::ModelLoaded,
        EngineReply::AudioRead(bytes),
        EngineReply::EngineFinished,
        EngineReply::SegmentCount(count),
    ];
    let counted = run(start, head);
    assert(counted.segments == Seq::<SegmentView>::empty() && counted.samples == samples_of(bytes@)
        && counted.expected == count && counted.phase == (if count > 0 {
        Phase::FetchSegment(0)
    } else {
        Phase::Done
    })) by {
        reveal_with_fuel(run, 5);
        assert(head.drop_last() =~= seq![
            EngineReply::ModelLoaded,
            EngineReply::AudioRead(bytes),
            EngineReply::EngineFinished,
        ]);
        assert(head.drop_last().drop_last() =~= seq![
            EngineReply::ModelLoaded,
            EngineReply::AudioRead(bytes),
        ]);
        assert(head.drop_last().drop_last().drop_last() =~= seq![EngineReply::ModelLoaded]);
        assert(head.drop_last().drop_last().drop_last().drop_last() =~= Seq::<
            EngineReply,
        >::empty());
    }
    lemma_run_concat(start, head, handed);
    let views = handed.map_values(|r: EngineReply| handed_out(r));
    if count > 0 {
        lemma_segments_in_order(counted, 0, handed);
        assert(counted.segments + views =~= views);
    } else {
        assert(handed =~= Seq::<EngineReply>::empty());
        assert(views =~= Seq::<SegmentView>::empty());
    }
}

/// Reports can be taken in two batches: the state after both is the state
/// after the second batch, started from the state after the first.
pub proof fn lemma_run_concat(
    state: TranscriberView,
    first: Seq<EngineReply>,
    second: Seq<EngineReply>,
)
    ensures
        run(state, first + second) == run(run(state, first), second),
    decreases second.len(),
{
    if second.len() == 0 {
        assert(first + second =~= first);
    } else {
        lemma_run_concat(state, first, second.drop_last());
        assert((first + second).drop_last() =~= first + second.drop_last());
        assert((first + second).last() == second.last());
    }
}


} // verus!
