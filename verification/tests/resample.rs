use voice_prompt::error::PipelineError;
use voice_prompt::resample::{decimal_text, ResampleJob, ResampleReport, ResampleStep};

fn job() -> ResampleJob {
    ResampleJob::begin("recorded.wav".to_string(), "/tmp/rand.wav".to_string(), 16000)
        .ok()
        .unwrap()
}

#[test]
fn decimal_text_of_rates() {
    assert_eq!(decimal_text(0), "0");
    assert_eq!(decimal_text(7), "7");
    assert_eq!(decimal_text(9), "9");
    assert_eq!(decimal_text(10), "10");
    assert_eq!(decimal_text(16000), "16000");
    assert_eq!(decimal_text(44100), "44100");
    assert_eq!(decimal_text(1_234_567_890), "1234567890");
    assert_eq!(decimal_text(u32::MAX), "4294967295");
}

#[test]
fn tool_command_line() {
    let job = job();
    assert_eq!(job.program(), "ffmpeg");
    assert_eq!(
        job.arguments(),
        vec!["-i", "recorded.wav", "-y", "-ar", "16000", "/tmp/rand.wav"]
    );
    assert_eq!(job.path(), "recorded.wav");
    assert_eq!(job.temp_path(), "/tmp/rand.wav");
    assert_eq!(job.step(), ResampleStep::RunTool);
}

#[test]
fn successful_tool_leads_to_the_rename() {
    let mut job = job();
    job.advance(ResampleReport::ToolExited(0));
    assert_eq!(job.step(), ResampleStep::Replace);
    job.advance(ResampleReport::Replaced);
    assert_eq!(job.step(), ResampleStep::Done);
    assert_eq!(job.finish(), Ok(()));
}

#[test]
fn failed_tool_never_reaches_the_rename() {
    for report in [
        ResampleReport::ToolExited(1),
        ResampleReport::ToolExited(-1),
        ResampleReport::ToolExited(255),
        ResampleReport::ToolLost,
        ResampleReport::Replaced,
        ResampleReport::ReplaceFailed,
    ] {
        let mut job = job();
        job.advance(report);
        assert_eq!(job.step(), ResampleStep::Failed(PipelineError::ExternalTool));
        job.advance(ResampleReport::ToolExited(0));
        assert_eq!(job.step(), ResampleStep::Failed(PipelineError::ExternalTool));
        job.advance(ResampleReport::Replaced);
        assert_eq!(job.step(), ResampleStep::Failed(PipelineError::ExternalTool));
        assert_eq!(job.path(), "recorded.wav");
        assert_eq!(job.finish(), Err(PipelineError::ExternalTool));
    }
}

#[test]
fn failed_rename_is_an_io_error() {
    for report in [
        ResampleReport::ReplaceFailed,
        ResampleReport::ToolLost,
        ResampleReport::ToolExited(0),
    ] {
        let mut job = job();
        job.advance(ResampleReport::ToolExited(0));
        job.advance(report);
        assert_eq!(job.step(), ResampleStep::Failed(PipelineError::Io));
        assert_eq!(job.finish(), Err(PipelineError::Io));
    }
}

#[test]
fn temporary_path_must_differ_from_the_original() {
    let refused = ResampleJob::begin("a.wav".to_string(), "a.wav".to_string(), 16000);
    assert_eq!(refused.err(), Some(PipelineError::Io));
}

#[test]
fn unfinished_job_counts_as_failed() {
    assert_eq!(job().finish(), Err(PipelineError::ExternalTool));
    let mut waiting = job();
    waiting.advance(ResampleReport::ToolExited(0));
    assert_eq!(waiting.finish(), Err(PipelineError::ExternalTool));
}

#[test]
fn finished_job_ignores_later_reports() {
    let mut job = job();
    job.advance(ResampleReport::ToolExited(0));
    job.advance(ResampleReport::Replaced);
    job.advance(ResampleReport::ReplaceFailed);
    job.advance(ResampleReport::ToolLost);
    assert_eq!(job.step(), ResampleStep::Done);
}
