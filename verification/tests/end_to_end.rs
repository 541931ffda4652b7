use std::io::Cursor;

use voice_prompt::capture::{CaptureSession, CaptureStep};
use voice_prompt::device::{negotiate, DeviceReport};
use voice_prompt::format::{select_encoding, wav_spec_from_config, SampleFormat};
use voice_prompt::resample::{ResampleJob, ResampleReport, ResampleStep};
use voice_prompt::segment::assemble_prompt;
use voice_prompt::transcribe::{EngineReply, Phase, Transcriber};
use voice_prompt::writer::{write_input_data, SampleBatch, SinkState, WaveformSink};

/// One second of a 440 Hz tone at 48000 Hz, as 16-bit samples.
fn tone() -> Vec<i16> {
    (0..48000u32)
        .map(|n| {
            let phase = 2.0 * std::f64::consts::PI * 440.0 * (n as f64) / 48000.0;
            (phase.sin() * 12000.0) as i16
        })
        .collect()
}

#[test]
fn one_second_tone_becomes_the_prompt() {
    let config = negotiate(DeviceReport::Config {
        sample_format: SampleFormat::I16,
        channel_count: 1,
        sample_rate: 48000,
    })
    .unwrap();
    let spec = wav_spec_from_config(&config);
    let mut session = CaptureSession::begin(&config, 1).ok().unwrap();
    let mut sink = WaveformSink::open(spec).ok().unwrap();
    let mut file = Cursor::new(Vec::new());
    let header = hound::WavSpec {
        channels: spec.channels,
        sample_rate: spec.sample_rate,
        bits_per_sample: spec.bits_per_sample,
        sample_format: hound::SampleFormat::Int,
    };
    let mut encoder = hound::WavWriter::new(&mut file, header).unwrap();

    let samples = tone();
    let mut steps = Vec::new();
    loop {
        let step = session.step();
        steps.push(step);
        match step {
            CaptureStep::Wait(seconds) => {
                assert_eq!(seconds, 1);
                for chunk in samples.chunks(480) {
                    for code in write_input_data(&SampleBatch::Int16(chunk), Some(&mut sink)) {
                        encoder.write_sample(code).unwrap();
                    }
                }
                session.advance(true);
            }
            CaptureStep::Done | CaptureStep::Failed(_) => break,
            _ => session.advance(true),
        }
    }
    assert_eq!(
        steps,
        vec![
            CaptureStep::BuildStream(select_encoding(SampleFormat::I16).unwrap()),
            CaptureStep::StartStream,
            CaptureStep::Wait(1),
            CaptureStep::ReleaseStream,
            CaptureStep::Done,
        ]
    );
    assert_eq!(session.finish(), Ok(()));
    assert_eq!(sink.finalize(), Ok(()));
    encoder.finalize().unwrap();
    assert_eq!(sink.state(), SinkState::Finalized);
    assert_eq!(sink.len(), 48000);
    assert_eq!(sink.data_bytes(), 96000);
    let recorded = file.into_inner();
    assert_eq!(recorded.len(), 44 + 96000);

    let mut job =
        ResampleJob::begin("tone.wav".to_string(), "tone.16k.wav".to_string(), 16000).ok().unwrap();
    assert_eq!(job.arguments()[4], "16000");
    job.advance(ResampleReport::ToolExited(0));
    assert_eq!(job.step(), ResampleStep::Replace);
    job.advance(ResampleReport::Replaced);
    assert_eq!(job.finish(), Ok(()));
    let reader = hound::WavReader::new(Cursor::new(recorded)).unwrap();
    let kept: Vec<i16> = reader.into_samples::<i16>().map(|s| s.unwrap()).step_by(3).collect();
    let mut resampled = Cursor::new(Vec::new());
    let mut encoder = hound::WavWriter::new(
        &mut resampled,
        hound::WavSpec { sample_rate: 16000, ..header },
    )
    .unwrap();
    for sample in &kept {
        encoder.write_sample(*sample).unwrap();
    }
    encoder.finalize().unwrap();
    let resampled = resampled.into_inner();

    let mut transcriber = Transcriber::begin(select_encoding(SampleFormat::I16).unwrap());
    loop {
        match transcriber.phase() {
            Phase::LoadModel => transcriber.advance(EngineReply::ModelLoaded),
            Phase::ReadAudio => transcriber.advance(EngineReply::AudioRead(resampled.clone())),
            Phase::RunEngine => {
                assert_eq!(transcriber.samples().len(), 22 + 16000);
                assert_eq!(&transcriber.samples()[22..], &kept[..]);
                transcriber.advance(EngineReply::EngineFinished)
            }
            Phase::CountSegments => transcriber.advance(EngineReply::SegmentCount(1)),
            Phase::FetchSegment(index) => {
                assert_eq!(index, 0);
                transcriber.advance(EngineReply::Segment {
                    start: 0,
                    end: 100,
                    text: "test".to_string(),
                })
            }
            Phase::Done | Phase::Failed(_) => break,
        }
    }
    let segments = transcriber.finish().ok().unwrap();
    assert_eq!(assemble_prompt(&segments), "test");
}
