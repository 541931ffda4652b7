//! The capture protocol: which steps a recording takes, in which order, and
//! how it ends when the device refuses one of them.

use crate::error::PipelineError;
use crate::format::{select_encoding, SampleEncoding, StreamConfig};
use vstd::prelude::*;

verus! {

/// Where a capture stands, which is also what its driver does next.
#[derive(Clone, Copy, Debug, PartialEq, Eq, Structural)]
pub enum CaptureStep {
    /// Build the input stream, with the callback that converts this encoding.
    BuildStream(SampleEncoding),
    /// Start the stream.
    StartStream,
    /// Block the calling thread for this many seconds.
    Wait(u16),
    /// Stop the stream and release it.
    ReleaseStream,
    /// The capture ran for its whole duration and the stream is gone.
    Done,
    /// The capture was abandoned.
    Failed(PipelineError),
}

/// One recording in progress. The driver performs the step named by `step`,
/// reports whether it succeeded to `advance`, and repeats until the step is
/// `Done` or `Failed`.
pub struct CaptureSession {
    step: CaptureStep,
    duration: u16,
    failure: Option<PipelineError>,
}

/// The state of a capture as contracts see it.
pub struct CaptureView {
    pub step: CaptureStep,
    /// How long the recording lasts, in seconds.
    pub duration: u16,
    /// The error to end with once the stream has been released.
    pub failure: Option<PipelineError>,
}

impl View for CaptureSession {
    type V = CaptureView;

    closed spec fn view(&self) -> CaptureView {
        CaptureView { step: self.step, duration: self.duration, failure: self.failure }
    }
}

/// The state a capture starts in.
pub open spec fn initial(encoding: SampleEncoding, duration: u16) -> CaptureView {
    CaptureView { step: CaptureStep::BuildStream(encoding), duration, failure: None }
}

/// The transition rule. A stream that cannot be built ends the capture at
/// once. A stream that was built is always released: after the wait, or
/// straight away when it cannot be started. The wait and the release cannot
/// fail, so what is reported for them does not matter.
pub open spec fn capture_step(state: CaptureView, succeeded: bool) -> CaptureView {
    match state.step {
        CaptureStep::BuildStream(_) => CaptureView {
            step: if succeeded {
                CaptureStep::StartStream
            } else {
                CaptureStep::Failed(PipelineError::Capture)
            },
            duration: state.duration,
            failure: state.failure,
        },
        CaptureStep::StartStream => if succeeded {
            CaptureView {
                step: CaptureStep::Wait(state.duration),
                duration: state.duration,
                failure: state.failure,
            }
        } else {
            CaptureView {
                step: CaptureStep::ReleaseStream,
                duration: state.duration,
                failure: Some(PipelineError::Capture),
            }
        },
        CaptureStep::Wait(_) => CaptureView {
            step: CaptureStep::ReleaseStream,
            duration: state.duration,
            failure: state.failure,
        },
        CaptureStep::ReleaseStream => CaptureView {
            step: match state.failure {
                Some(error) => CaptureStep::Failed(error),
                None => CaptureStep::Done,
            },
            duration: state.duration,
            failure: state.failure,
        },
        CaptureStep::Done => state,
        CaptureStep::Failed(_) => state,
    }
}

impl CaptureSession {
    /// Plans a recording of `duration` seconds from a stream of the given
    /// configuration. The conversion is selected here, once; a format outside
    /// the supported set is refused before any stream is asked for.
    pub fn begin(config: &StreamConfig, duration: u16) -> (session: Result<
        CaptureSession,
        PipelineError,
    >)
        ensures
            match config.sample_format.encoding() {
                Some(encoding) => session is Ok && session->Ok_0@ == initial(encoding, duration),
                None => session is Err && session->Err_0 == PipelineError::UnsupportedSampleFormat,
            },
    {
        match select_encoding(config.sample_format) {
            Ok(encoding) => Ok(
                CaptureSession {
                    step: CaptureStep::BuildStream(encoding),
                    duration,
                    failure: None,
                },
            ),
            Err(error) => Err(error),
        }
    }

    /// What the driver does next.
    pub fn step(&self) -> (step: CaptureStep)
        ensures
            step == self@.step,
    {
        self.step
    }

    /// Takes the driver's report on the current step and moves to the next.
    pub fn advance(&mut self, succeeded: bool)
        ensures
            final(self)@ == capture_step(old(self)@, succeeded),
    {
        match self.step {
            CaptureStep::BuildStream(_) => {
                self.step = if succeeded {
                    CaptureStep::StartStream
                } else {
                    CaptureStep::Failed(PipelineError::Capture)
                };
            },
            CaptureStep::StartStream => {
                if succeeded {
                    self.step = CaptureStep::Wait(self.duration);
                } else {
                    self.failure = Some(PipelineError::Capture);
                    self.step = CaptureStep::ReleaseStream;
                }
            },
            CaptureStep::Wait(_) => {
                self.step = CaptureStep::ReleaseStream;
            },
            CaptureStep::ReleaseStream => {
                self.step = match self.failure {
                    Some(error) => CaptureStep::Failed(error),
                    None => CaptureStep::Done,
                };
            },
            CaptureStep::Done => {},
            CaptureStep::Failed(_) => {},
        }
    }

    /// How the capture ended: success after a full recording, the error of an
    /// abandoned one, and a capture error for one that was cut short.
    pub fn finish(self) -> (outcome: Result<(), PipelineError>)
        ensures
            outcome == match self@.step {
                CaptureStep::Done => Ok::<(), PipelineError>(()),
                CaptureStep::Failed(error) => Err::<(), PipelineError>(error),
                _ => Err::<(), PipelineError>(PipelineError::Capture),
            },
    {
        match self.step {
            CaptureStep::Done => Ok(()),
            CaptureStep::Failed(error) => Err(error),
            _ => Err(PipelineError::Capture),
        }
    }
}

/// The state reached from `state` after a run of reports, oldest first.
pub open spec fn capture_run(state: CaptureView, reports: Seq<bool>) -> CaptureView
    decreases reports.len(),
{
    if reports.len() == 0 {
        state
    } else {
        capture_step(capture_run(state, reports.drop_last()), reports.last())
    }
}

/// The steps the driver is asked to perform while it makes these reports: the
/// step of the starting state, then the step after each report but the last.
pub open spec fn steps_taken(state: CaptureView, reports: Seq<bool>) -> Seq<CaptureStep> {
    Seq::new(reports.len(), |k: int| capture_run(state, reports.take(k)).step)
}

/// Whether a capture has ended.
pub open spec fn ended(state: CaptureView) -> bool {
    state.step == CaptureStep::Done || state.step is Failed
}

/// An ended capture stays as it is, whatever is reported afterwards.
pub proof fn lemma_ended_is_final(state: CaptureView, reports: Seq<bool>)
    requires
        ended(state),
    ensures
        capture_run(state, reports) == state,
    decreases reports.len(),
{
    if reports.len() > 0 {
        lemma_ended_is_final(state, reports.drop_last());
    }
}

/// Every capture ends within four reports, in one of three ways. A stream
/// that cannot be built fails the capture with no further step. A stream that
/// cannot be started is released and then fails the capture. Otherwise the
/// driver waits for exactly the planned duration, releases the stream, and
/// the capture is done. No other order of steps occurs.
pub proof fn lemma_capture_course(encoding: SampleEncoding, duration: u16, reports: Seq<bool>)
    requires
        reports.len() >= 4,
    ensures
        ({
            let start = initial(encoding, duration);
            let end = capture_run(start, reports);
            let steps = steps_taken(start, reports.take(4));
            &&& steps[0] == CaptureStep::BuildStream(encoding)
            &&& !reports[0] ==> end.step == CaptureStep::Failed(PipelineError::Capture)
                && steps[1] == end.step
            &&& reports[0] && !reports[1] ==> end.step == CaptureStep::Failed(
                PipelineError::Capture,
            ) && steps[1] == CaptureStep::StartStream && steps[2] == CaptureStep::ReleaseStream
                && steps[3] == end.step
            &&& reports[0] && reports[1] ==> end.step == CaptureStep::Done && steps[1]
                == CaptureStep::StartStream && steps[2] == CaptureStep::Wait(duration) && steps[3]
                == CaptureStep::ReleaseStream
        }),
{
    let start = initial(encoding, duration);
    let head = reports.take(4);
    let s0 = capture_run(start, head.take(0));
    let s1 = capture_run(start, head.take(1));
    let s2 = capture_run(start, head.take(2));
    let s3 = capture_run(start, head.take(3));
    let s4 = capture_run(start, head);
    assert(head.take(0) =~= Seq::<bool>::empty());
    assert(head.take(1).drop_last() =~= head.take(0));
    assert(head.take(2).drop_last() =~= head.take(1));
    assert(head.take(3).drop_last() =~= head.take(2));
    assert(head.drop_last() =~= head.take(3));
    assert(s0 == start);
    assert(s1 == capture_step(s0, reports[0]));
    assert(s2 == capture_step(s1, reports[1]));
    assert(s3 == capture_step(s2, reports[2]));
    assert(s4 == capture_step(s3, reports[3]));
    assert(ended(s4));
    lemma_capture_run_concat(start, head, reports.skip(4));
    assert(head + reports.skip(4) =~= reports);
    lemma_ended_is_final(s4, reports.skip(4));
}

/// Reports can be taken in two batches: the state after both is the state
/// after the second batch, started from the state after the first.
pub proof fn lemma_capture_run_concat(state: CaptureView, first: Seq<bool>, second: Seq<bool>)
    ensures
        capture_run(state, first + second) == capture_run(capture_run(state, first), second),
    decreases second.len(),
{
    if second.len() == 0 {
        assert(first + second =~= first);
    } else {
        lemma_capture_run_concat(state, first, second.drop_last());
        assert((first + second).drop_last() =~= first + second.drop_last());
        assert((first + second).last() == second.last());
    }
}

} // verus!
