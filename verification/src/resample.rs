//! The resampling protocol: the command handed to the external tool, and the
//! rule that the original file is replaced only by a finished output.

use crate::error::PipelineError;
use vstd::prelude::*;
use vstd::string::StringExecFns;

verus! {

/// The character of a decimal digit.
pub open spec fn digit(d: nat) -> char
    recommends
        d < 10,
{
    if d == 0 {
        '0'
    } else if d == 1 {
        '1'
    } else if d == 2 {
        '2'
    } else if d == 3 {
        '3'
    } else if d == 4 {
        '4'
    } else if d == 5 {
        '5'
    } else if d == 6 {
        '6'
    } else if d == 7 {
        '7'
    } else if d == 8 {
        '8'
    } else {
        '9'
    }
}

/// A number written in decimal, without sign or leading zeros.
pub open spec fn decimal(n: nat) -> Seq<char>
    decreases n,
{
    if n < 10 {
        seq![digit(n)]
    } else {
        decimal(n / 10).push(digit(n % 10))
    }
}

fn digit_text(d: u32) -> (text: &'static str)
    requires
        d < 10,
    ensures
        text@ == seq![digit(d as nat)],
{
    proof {
        reveal_strlit("0");
        reveal_strlit("1");
        reveal_strlit("2");
        reveal_strlit("3");
        reveal_strlit("4");
        reveal_strlit("5");
        reveal_strlit("6");
        reveal_strlit("7");
        reveal_strlit("8");
        reveal_strlit("9");
    }
    let text = if d == 0 {
        "0"
    } else if d == 1 {
        "1"
    } else if d == 2 {
        "2"
    } else if d == 3 {
        "3"
    } else if d == 4 {
        "4"
    } else if d == 5 {
        "5"
    } else if d == 6 {
        "6"
    } else if d == 7 {
        "7"
    } else if d == 8 {
        "8"
    } else {
        "9"
    };
    assert(text@ =~= seq![digit(d as nat)]);
    text
}

/// Writes a sample rate the way the tool's rate flag takes it.
pub fn decimal_text(n: u32) -> (text: String)
    ensures
        text@ == decimal(n as nat),
    decreases n,
{
    if n < 10 {
        String::from_str(digit_text(n))
    } else {
        let mut text = decimal_text(n / 10);
        text.append(digit_text(n % 10));
        text
    }
}

/// Where a resampling stands, which is also what its driver does next.
#[derive(Clone, Copy, Debug, PartialEq, Eq, Structural)]
pub enum ResampleStep {
    /// Run the tool with the job's arguments and wait for it to exit.
    RunTool,
    /// Rename the temporary output onto the original file.
    Replace,
    /// The original file now holds the resampled audio.
    Done,
    /// The resampling was abandoned.
    Failed(PipelineError),
}

/// What the driver reports after doing what the step asked for.
#[derive(Clone, Copy, Debug, PartialEq, Eq, Structural)]
pub enum ResampleReport {
    /// The tool ran and exited with this status.
    ToolExited(i32),
    /// The tool could not be started, or ended without an exit status.
    ToolLost,
    /// The rename succeeded.
    Replaced,
    /// The rename failed.
    ReplaceFailed,
}

/// One resampling in progress. The driver performs the step named by `step`,
/// reports the result to `advance`, and repeats until the step is `Done` or
/// `Failed`.
pub struct ResampleJob {
    path: String,
    temp_path: String,
    target_rate: u32,
    step: ResampleStep,
}

/// The state of a resampling as contracts see it.
pub struct ResampleView {
    /// The file to resample, which is also where the result ends up.
    pub path: Seq<char>,
    /// Where the tool writes its output.
    pub temp_path: Seq<char>,
    /// The sample rate asked for, in hertz.
    pub target_rate: u32,
    pub step: ResampleStep,
}

impl View for ResampleJob {
    type V = ResampleView;

    closed spec fn view(&self) -> ResampleView {
        ResampleView {
            path: self.path@,
            temp_path: self.temp_path@,
            target_rate: self.target_rate,
            step: self.step,
        }
    }
}

/// The state with its step replaced.
pub open spec fn at_step(state: ResampleView, step: ResampleStep) -> ResampleView {
    ResampleView {
        path: state.path,
        temp_path: state.temp_path,
        target_rate: state.target_rate,
        step,
    }
}

/// The transition rule. Only a tool that exits with status zero leads to the
/// rename; a tool that is lost or exits otherwise fails the job with the file
/// untouched. A rename that fails is an input/output failure.
pub open spec fn resample_step(state: ResampleView, report: ResampleReport) -> ResampleView {
    match state.step {
        ResampleStep::RunTool => if report == ResampleReport::ToolExited(0) {
            at_step(state, ResampleStep::Replace)
        } else {
            at_step(state, ResampleStep::Failed(PipelineError::ExternalTool))
        },
        ResampleStep::Replace => if report == ResampleReport::Replaced {
            at_step(state, ResampleStep::Done)
        } else {
            at_step(state, ResampleStep::Failed(PipelineError::Io))
        },
        ResampleStep::Done => state,
        ResampleStep::Failed(_) => state,
    }
}

/// The tool's arguments: read the original, overwrite without asking, write
/// at the target rate to the temporary path.
pub open spec fn tool_arguments(state: ResampleView) -> Seq<Seq<char>> {
    seq![
        "-i"@,
        state.path,
        "-y"@,
        "-ar"@,
        decimal(state.target_rate as nat),
        state.temp_path,
    ]
}

impl ResampleJob {
    /// Plans the resampling of the file at `path` to `target_rate`, with the
    /// tool writing to `temp_path`. A temporary path equal to the original is
    /// refused: the tool would then write over the file it reads.
    pub fn begin(path: String, temp_path: String, target_rate: u32) -> (job: Result<
        ResampleJob,
        PipelineError,
    >)
        ensures
            path@ == temp_path@ ==> job is Err && job->Err_0 == PipelineError::Io,
            path@ != temp_path@ ==> job is Ok && job->Ok_0@ == (ResampleView {
                path: path@,
                temp_path: temp_path@,
                target_rate,
                step: ResampleStep::RunTool,
            }),
    {
        if path == temp_path {
            Err(PipelineError::Io)
        } else {
            Ok(ResampleJob { path, temp_path, target_rate, step: ResampleStep::RunTool })
        }
    }

    /// What the driver does next.
    pub fn step(&self) -> (step: ResampleStep)
        ensures
            step == self@.step,
    {
        self.step
    }

    /// The name of the tool to run.
    pub fn program(&self) -> (name: &'static str)
        ensures
            name@ == "ffmpeg"@,
    {
        "ffmpeg"
    }

    /// The arguments to run the tool with.
    pub fn arguments(&self) -> (arguments: Vec<String>)
        ensures
            arguments@.map_values(|a: String| a@) == tool_arguments(self@),
    {
        let mut arguments: Vec<String> = Vec::new();
        arguments.push(String::from_str("-i"));
        arguments.push(self.path.clone());
        arguments.push(String::from_str("-y"));
        arguments.push(String::from_str("-ar"));
        arguments.push(decimal_text(self.target_rate));
        arguments.push(self.temp_path.clone());
        assert(arguments@.map_values(|a: String| a@) =~= tool_arguments(self@));
        arguments
    }

    /// The file being resampled, and the destination of the rename.
    pub fn path(&self) -> (path: &str)
        ensures
            path@ == self@.path,
    {
        self.path.as_str()
    }

    /// The tool's output file, and the source of the rename.
    pub fn temp_path(&self) -> (path: &str)
        ensures
            path@ == self@.temp_path,
    {
        self.temp_path.as_str()
    }

    /// Takes the driver's report on the current step and moves to the next.
    pub fn advance(&mut self, report: ResampleReport)
        ensures
            final(self)@ == resample_step(old(self)@, report),
    {
        match self.step {
            ResampleStep::RunTool => {
                self.step = match report {
                    ResampleReport::ToolExited(status) => if status == 0 {
                        ResampleStep::Replace
                    } else {
                        ResampleStep::Failed(PipelineError::ExternalTool)
                    },
                    _ => ResampleStep::Failed(PipelineError::ExternalTool),
                };
            },
            ResampleStep::Replace => {
                self.step = match report {
                    ResampleReport::Replaced => ResampleStep::Done,
                    _ => ResampleStep::Failed(PipelineError::Io),
                };
            },
            ResampleStep::Done => {},
            ResampleStep::Failed(_) => {},
        }
    }

    /// How the resampling ended: success once the original has been replaced,
    /// the error of an abandoned job, and a tool error for one cut short.
    pub fn finish(self) -> (outcome: Result<(), PipelineError>)
        ensures
            outcome == match self@.step {
                ResampleStep::Done => Ok::<(), PipelineError>(()),
                ResampleStep::Failed(error) => Err::<(), PipelineError>(error),
                _ => Err::<(), PipelineError>(PipelineError::ExternalTool),
            },
    {
        match self.step {
            ResampleStep::Done => Ok(()),
            ResampleStep::Failed(error) => Err(error),
            _ => Err(PipelineError::ExternalTool),
        }
    }
}

/// The state reached from `state` after a run of reports, oldest first.
pub open spec fn resample_run(state: ResampleView, reports: Seq<ResampleReport>) -> ResampleView
    decreases reports.len(),
{
    if reports.len() == 0 {
        state
    } else {
        resample_step(resample_run(state, reports.drop_last()), reports.last())
    }
}

/// When the tool does not exit with status zero, the job fails with a tool
/// error and never asks for the rename, whatever is reported afterwards: no
/// step that touches the original file is ever reached. The paths and the
/// rate of the job stay as they were.
pub proof fn lemma_failed_tool_leaves_original(state: ResampleView, reports: Seq<ResampleReport>)
    requires
        state.step == ResampleStep::RunTool,
        reports.len() >= 1,
        reports[0] != ResampleReport::ToolExited(0),
    ensures
        resample_run(state, reports) == at_step(
            state,
            ResampleStep::Failed(PipelineError::ExternalTool),
        ),
        forall|k: int|
            0 <= k <= reports.len() ==> (#[trigger] resample_run(state, reports.take(k))).step
                != ResampleStep::Replace,
    decreases reports.len(),
{
    let failed = at_step(state, ResampleStep::Failed(PipelineError::ExternalTool));
    if reports.len() == 1 {
        assert(reports.drop_last() =~= Seq::<ResampleReport>::empty());
        assert(resample_run(state, reports.drop_last()) == state);
    } else {
        lemma_failed_tool_leaves_original(state, reports.drop_last());
    }
    assert(resample_run(state, reports) == failed);
    assert forall|k: int| 0 <= k <= reports.len() implies (#[trigger] resample_run(
        state,
        reports.take(k),
    )).step != ResampleStep::Replace by {
        if k == reports.len() {
            assert(reports.take(k) =~= reports);
        } else if k == 0 {
            assert(reports.take(0) =~= Seq::<ResampleReport>::empty());
        } else {
            assert(reports.take(k) =~= reports.drop_last().take(k));
        }
    }
}

/// The rename is asked for only after the tool has exited with status zero,
/// and a job is done only after the rename has succeeded.
pub proof fn lemma_replace_follows_success(state: ResampleView, reports: Seq<ResampleReport>)
    requires
        state.step == ResampleStep::RunTool,
    ensures
        resample_run(state, reports).step == ResampleStep::Replace ==> reports.len() == 1
            && reports[0] == ResampleReport::ToolExited(0),
        resample_run(state, reports).step == ResampleStep::Done ==> reports.len() >= 2
            && reports[0] == ResampleReport::ToolExited(0) && reports[1]
            == ResampleReport::Replaced,
        resample_run(state, reports).path == state.path,
        resample_run(state, reports).temp_path == state.temp_path,
        resample_run(state, reports).target_rate == state.target_rate,
        reports.len() >= 2 ==> resample_run(state, reports).step == ResampleStep::Done
            || resample_run(state, reports).step is Failed,
    decreases reports.len(),
{
    if reports.len() > 0 {
        lemma_replace_follows_success(state, reports.drop_last());
        if reports.len() == 1 {
            assert(reports.drop_last() =~= Seq::<ResampleReport>::empty());
        } else if reports.len() == 2 {
            assert(reports.drop_last().drop_last() =~= Seq::<ResampleReport>::empty());
            assert(reports.drop_last()[0] == reports[0]);
        } else {
            assert(reports.drop_last()[0] == reports[0]);
            assert(reports.drop_last()[1] == reports[1]);
        }
    }
}

} // verus!
