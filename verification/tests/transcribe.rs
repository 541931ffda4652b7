use voice_prompt::error::PipelineError;
use voice_prompt::format::SampleEncoding;
use voice_prompt::segment::{assemble_prompt, Segment};
use voice_prompt::transcribe::{decode_samples, engine_params, EngineReply, Phase, Transcriber};

fn segment(start: i64, end: i64, text: &str) -> EngineReply {
    EngineReply::Segment { start, end, text: text.to_string() }
}

fn counting(count: i32) -> Transcriber {
    let mut transcriber = Transcriber::begin(SampleEncoding::Int16);
    transcriber.advance(EngineReply::ModelLoaded);
    transcriber.advance(EngineReply::AudioRead(vec![1, 0, 2, 0]));
    transcriber.advance(EngineReply::EngineFinished);
    transcriber.advance(EngineReply::SegmentCount(count));
    transcriber
}

#[test]
fn engine_runs_greedy_single_threaded_and_quiet() {
    let params = engine_params();
    assert_eq!(params.best_of, 1);
    assert_eq!(params.n_threads, 1);
    assert!(params.translate);
    assert_eq!(params.language, "en");
    assert!(!params.print_special);
    assert!(!params.print_progress);
    assert!(!params.print_realtime);
    assert!(!params.print_timestamps);
}

#[test]
fn decode_reads_little_endian_pairs() {
    assert_eq!(decode_samples(&[0x01, 0x00]), vec![1]);
    assert_eq!(decode_samples(&[0x00, 0x01]), vec![256]);
    assert_eq!(decode_samples(&[0xff, 0x7f]), vec![32767]);
    assert_eq!(decode_samples(&[0x00, 0x80]), vec![-32768]);
    assert_eq!(decode_samples(&[0xff, 0xff]), vec![-1]);
    assert_eq!(decode_samples(&[0x34, 0x12, 0xcc, 0xed]), vec![0x1234, -4660]);
}

#[test]
fn decode_drops_a_trailing_partial_sample() {
    assert_eq!(decode_samples(&[]), Vec::<i16>::new());
    assert_eq!(decode_samples(&[0x05]), Vec::<i16>::new());
    assert_eq!(decode_samples(&[0x05, 0x00, 0x06]), vec![5]);
    assert_eq!(decode_samples(&[1, 0, 2, 0, 3, 0, 4]), vec![1, 2, 3]);
}

#[test]
fn decode_agrees_with_the_standard_library() {
    let bytes: Vec<u8> = (0..=255u8).flat_map(|b| [b, b.wrapping_mul(7).wrapping_add(3)]).collect();
    let expected: Vec<i16> =
        bytes.chunks_exact(2).map(|pair| i16::from_le_bytes([pair[0], pair[1]])).collect();
    assert_eq!(decode_samples(&bytes), expected);
}

#[test]
fn segment_needs_ordered_timestamps() {
    let segment = Segment::new(3, 9, "hello".to_string()).unwrap();
    assert_eq!(segment.start(), 3);
    assert_eq!(segment.end(), 9);
    assert_eq!(segment.text(), "hello");
    assert!(Segment::new(4, 4, String::new()).is_some());
    assert!(Segment::new(5, 4, "late".to_string()).is_none());
}

#[test]
fn segment_ordering_gives_the_prompt() {
    let mut transcriber = counting(3);
    assert_eq!(transcriber.phase(), Phase::FetchSegment(0));
    transcriber.advance(segment(0, 1, "a"));
    assert_eq!(transcriber.phase(), Phase::FetchSegment(1));
    transcriber.advance(segment(1, 2, "b"));
    assert_eq!(transcriber.phase(), Phase::FetchSegment(2));
    transcriber.advance(segment(2, 3, "c"));
    assert_eq!(transcriber.phase(), Phase::Done);
    let segments = transcriber.finish().ok().unwrap();
    assert_eq!(segments.len(), 3);
    assert_eq!(segments[0].text(), "a");
    assert_eq!(segments[1].start(), 1);
    assert_eq!(segments[2].end(), 3);
    assert_eq!(assemble_prompt(&segments), "abc");
}

#[test]
fn prompt_keeps_sequence_order_whatever_the_timestamps() {
    let segments = vec![
        Segment::new(2, 3, "c".to_string()).unwrap(),
        Segment::new(0, 1, "a".to_string()).unwrap(),
        Segment::new(1, 2, "b".to_string()).unwrap(),
    ];
    assert_eq!(assemble_prompt(&segments), "cab");
}

#[test]
fn prompt_has_no_separator() {
    let segments = vec![
        Segment::new(0, 10, " a red".to_string()).unwrap(),
        Segment::new(10, 20, "".to_string()).unwrap(),
        Segment::new(20, 30, " fox".to_string()).unwrap(),
    ];
    assert_eq!(assemble_prompt(&segments), " a red fox");
    assert_eq!(assemble_prompt(&Vec::new()), "");
}

#[test]
fn transcription_walks_its_phases() {
    let mut transcriber = Transcriber::begin(SampleEncoding::Int16);
    assert_eq!(transcriber.phase(), Phase::LoadModel);
    transcriber.advance(EngineReply::ModelLoaded);
    assert_eq!(transcriber.phase(), Phase::ReadAudio);
    transcriber.advance(EngineReply::AudioRead(vec![0x10, 0x00, 0xf0, 0xff, 0x01]));
    assert_eq!(transcriber.phase(), Phase::RunEngine);
    assert_eq!(transcriber.samples(), &vec![16, -16]);
    transcriber.advance(EngineReply::EngineFinished);
    assert_eq!(transcriber.phase(), Phase::CountSegments);
    transcriber.advance(EngineReply::SegmentCount(1));
    assert_eq!(transcriber.phase(), Phase::FetchSegment(0));
    transcriber.advance(segment(0, 100, " hi"));
    assert_eq!(transcriber.phase(), Phase::Done);
    assert_eq!(transcriber.segments().len(), 1);
    transcriber.advance(segment(100, 200, " again"));
    assert_eq!(transcriber.segments().len(), 1);
    assert_eq!(transcriber.phase(), Phase::Done);
}

#[test]
fn no_segments_is_an_empty_transcript() {
    for count in [0, -1, i32::MIN] {
        let transcriber = counting(count);
        assert_eq!(transcriber.phase(), Phase::Done);
        let segments = transcriber.finish().ok().unwrap();
        assert!(segments.is_empty());
        assert_eq!(assemble_prompt(&segments), "");
    }
}

#[test]
fn other_encodings_are_refused_before_the_model_loads() {
    for encoding in [SampleEncoding::Int8, SampleEncoding::Int32, SampleEncoding::Float32] {
        let mut transcriber = Transcriber::begin(encoding);
        assert_eq!(transcriber.phase(), Phase::Failed(PipelineError::Transcribe));
        transcriber.advance(EngineReply::ModelLoaded);
        assert_eq!(transcriber.phase(), Phase::Failed(PipelineError::Transcribe));
        assert_eq!(transcriber.finish().err(), Some(PipelineError::Transcribe));
    }
}

#[test]
fn missing_model_is_a_model_load_error() {
    let mut transcriber = Transcriber::begin(SampleEncoding::Int16);
    transcriber.advance(EngineReply::Failed);
    assert_eq!(transcriber.phase(), Phase::Failed(PipelineError::ModelLoad));
    assert_eq!(transcriber.finish().err(), Some(PipelineError::ModelLoad));
}

#[test]
fn unreadable_audio_is_an_io_error() {
    let mut transcriber = Transcriber::begin(SampleEncoding::Int16);
    transcriber.advance(EngineReply::ModelLoaded);
    transcriber.advance(EngineReply::Failed);
    assert_eq!(transcriber.phase(), Phase::Failed(PipelineError::Io));
    assert_eq!(transcriber.finish().err(), Some(PipelineError::Io));
}

#[test]
fn engine_failures_are_transcribe_errors() {
    let mut decoding = Transcriber::begin(SampleEncoding::Int16);
    decoding.advance(EngineReply::ModelLoaded);
    decoding.advance(EngineReply::AudioRead(Vec::new()));
    decoding.advance(EngineReply::Failed);
    assert_eq!(decoding.phase(), Phase::Failed(PipelineError::Transcribe));

    let mut counting_failed = Transcriber::begin(SampleEncoding::Int16);
    counting_failed.advance(EngineReply::ModelLoaded);
    counting_failed.advance(EngineReply::AudioRead(Vec::new()));
    counting_failed.advance(EngineReply::EngineFinished);
    counting_failed.advance(EngineReply::Failed);
    assert_eq!(counting_failed.phase(), Phase::Failed(PipelineError::Transcribe));

    let mut fetching = counting(2);
    fetching.advance(segment(0, 5, "kept"));
    fetching.advance(EngineReply::Failed);
    assert_eq!(fetching.phase(), Phase::Failed(PipelineError::Transcribe));
    assert_eq!(fetching.finish().err(), Some(PipelineError::Transcribe));
}

#[test]
fn segment_ending_before_it_starts_fails_the_transcription() {
    let mut transcriber = counting(1);
    transcriber.advance(segment(9, 8, "backwards"));
    assert_eq!(transcriber.phase(), Phase::Failed(PipelineError::Transcribe));
    assert!(transcriber.segments().is_empty());
}

#[test]
fn reply_of_the_wrong_kind_fails_the_phase() {
    let mut transcriber = Transcriber::begin(SampleEncoding::Int16);
    transcriber.advance(EngineReply::EngineFinished);
    assert_eq!(transcriber.phase(), Phase::Failed(PipelineError::ModelLoad));
    let mut transcriber = counting(1);
    transcriber.advance(EngineReply::SegmentCount(4));
    assert_eq!(transcriber.phase(), Phase::Failed(PipelineError::Transcribe));
}

#[test]
fn unfinished_transcription_counts_as_failed() {
    let transcriber = counting(2);
    assert_eq!(transcriber.finish().err(), Some(PipelineError::Transcribe));
}
