//! The order of the pipeline's stages and its policy on failure: each stage
//! runs after the one before it has succeeded, and the first failure ends the
//! run.

use crate::error::PipelineError;
use vstd::prelude::*;

verus! {

/// Where a run stands, which is also what the orchestrating thread does next.
#[derive(Clone, Copy, Debug, PartialEq, Eq, Structural)]
pub enum Stage {
    /// Ask the host for its input device and stream configuration.
    Negotiate,
    /// Select the conversion for the device's sample format.
    SelectConversion,
    /// Create the waveform file and open the sink.
    CreateSink,
    /// Record: build the stream, let it run, stop and release it.
    Capture,
    /// Finalize the sink and complete the file's header.
    Finalize,
    /// Resample the file to the rate the speech engine expects.
    Resample,
    /// Transcribe the file into segments.
    Transcribe,
    /// Join the segments into the prompt.
    Assemble,
    /// The prompt is ready.
    Done,
    /// The run was abandoned with this error.
    Failed(PipelineError),
}

impl Stage {
    /// The stage that follows a success. `Done` and `Failed` have no
    /// successor but themselves.
    pub open spec fn successor(self) -> Stage {
        match self {
            Stage::Negotiate => Stage::SelectConversion,
            Stage::SelectConversion => Stage::CreateSink,
            Stage::CreateSink => Stage::Capture,
            Stage::Capture => Stage::Finalize,
            Stage::Finalize => Stage::Resample,
            Stage::Resample => Stage::Transcribe,
            Stage::Transcribe => Stage::Assemble,
            Stage::Assemble => Stage::Done,
            Stage::Done => Stage::Done,
            Stage::Failed(error) => Stage::Failed(error),
        }
    }

    /// The position of a stage in the run.
    pub open spec fn rank(self) -> nat {
        match self {
            Stage::Negotiate => 0,
            Stage::SelectConversion => 1,
            Stage::CreateSink => 2,
            Stage::Capture => 3,
            Stage::Finalize => 4,
            Stage::Resample => 5,
            Stage::Transcribe => 6,
            Stage::Assemble => 7,
            Stage::Done => 8,
            Stage::Failed(_) => 9,
        }
    }

    /// Whether the run has ended.
    pub open spec fn ended(self) -> bool {
        self == Stage::Done || self is Failed
    }

    /// The stage after the current one has been carried out with the given
    /// outcome: its successor after a success, failure with the stage's error
    /// otherwise. There is no retry and no partial success.
    pub open spec fn after(self, outcome: Result<(), PipelineError>) -> Stage {
        if self.ended() {
            self
        } else {
            match outcome {
                Ok(_) => self.successor(),
                Err(error) => Stage::Failed(error),
            }
        }
    }

    /// The stage every run starts with.
    pub fn first() -> (stage: Stage)
        ensures
            stage == Stage::Negotiate,
    {
        Stage::Negotiate
    }

    /// Moves on from the current stage, given how it went.
    pub fn advance(self, outcome: Result<(), PipelineError>) -> (next: Stage)
        ensures
            next == self.after(outcome),
    {
        match self {
            Stage::Done => self,
            Stage::Failed(_) => self,
            _ => match outcome {
                Err(error) => Stage::Failed(error),
                Ok(_) => match self {
                    Stage::Negotiate => Stage::SelectConversion,
                    Stage::SelectConversion => Stage::CreateSink,
                    Stage::CreateSink => Stage::Capture,
                    Stage::Capture => Stage::Finalize,
                    Stage::Finalize => Stage::Resample,
                    Stage::Resample => Stage::Transcribe,
                    Stage::Transcribe => Stage::Assemble,
                    _ => Stage::Done,
                },
            },
        }
    }
}

/// The stage reached from `stage` after a run of outcomes, oldest first.
pub open spec fn stage_after(stage: Stage, outcomes: Seq<Result<(), PipelineError>>) -> Stage
    decreases outcomes.len(),
{
    if outcomes.len() == 0 {
        stage
    } else {
        stage_after(stage, outcomes.drop_last()).after(outcomes.last())
    }
}

/// While every stage succeeds, the run walks the stages in their order: after
/// `n` successes it stands at the stage of rank `n`, and it is done after
/// eight.
pub proof fn lemma_stages_in_order(outcomes: Seq<Result<(), PipelineError>>)
    requires
        forall|k: int| 0 <= k < outcomes.len() ==> (#[trigger] outcomes[k]) is Ok,
    ensures
        stage_after(Stage::Negotiate, outcomes).rank() == (if outcomes.len() < 8 {
            outcomes.len()
        } else {
            8
        }),
    decreases outcomes.len(),
{
    if outcomes.len() > 0 {
        lemma_stages_in_order(outcomes.drop_last());
        assert(outcomes.last() is Ok);
    }
}

/// The first failure ends the run: when the stage of rank `n` fails, the run
/// is abandoned with that stage's error, whatever is reported afterwards. No
/// later stage is entered and none is tried again.
pub proof fn lemma_first_failure_ends_the_run(
    outcomes: Seq<Result<(), PipelineError>>,
    n: int,
    error: PipelineError,
)
    requires
        0 <= n < 8,
        n < outcomes.len(),
        forall|k: int| 0 <= k < n ==> (#[trigger] outcomes[k]) is Ok,
        outcomes[n] == Err::<(), PipelineError>(error),
    ensures
        stage_after(Stage::Negotiate, outcomes) == Stage::Failed(error),
    decreases outcomes.len(),
{
    let earlier = outcomes.drop_last();
    if outcomes.len() == n + 1 {
        lemma_stages_in_order(earlier);
    } else {
        lemma_first_failure_ends_the_run(earlier, n, error);
    }
}

/// A stage is entered only from the stage before it, and only after that
/// stage succeeded. In particular the sink is finalized only after the capture
/// has ended, and no file is created unless the format has a conversion.
pub proof fn lemma_stage_follows_its_predecessor(
    outcomes: Seq<Result<(), PipelineError>>,
)
    requires
        outcomes.len() > 0,
        !stage_after(Stage::Negotiate, outcomes).ended(),
    ensures
        outcomes.last() is Ok,
        stage_after(Stage::Negotiate, outcomes) == stage_after(
            Stage::Negotiate,
            outcomes.drop_last(),
        ).successor(),
        stage_after(Stage::Negotiate, outcomes).rank() == stage_after(
            Stage::Negotiate,
            outcomes.drop_last(),
        ).rank() + 1,
{
}

} // verus!
