use whisper_server_http::documents::{
    job_document, not_completed_document, result_document, Content, Entry, Member, Value,
};
use whisper_server_http::models::{
    Progress, TranscriptionJob, TranscriptionResult, TranscriptionSegment, TranscriptionStatus,
};
use whisper_server_http::services::ranges::{build_audio_ranges, AudioRange};
use whisper_server_http::services::transcriber::{is_ng_word, Recognized, Transcriber};
use whisper_server_http::services::vad::segments::SpeechSegment;

fn range(start_sample: usize, end_sample: usize) -> AudioRange {
    AudioRange { start_sample, end_sample }
}

/// A segment that ends so many hundredths of a second after the start of its block.
fn heard(text: &str, end_offset: i64) -> Recognized {
    Recognized {
        text: text.to_string(),
        start_offset: end_offset - 1,
        end_offset,
        end_short: false,
        edge_tie: false,
    }
}

fn texts(t: &Transcriber) -> Vec<&str> {
    t.segments.iter().map(|segment| segment.text.as_str()).collect()
}

#[test]
fn everything_is_one_range_without_speech() {
    assert_eq!(build_audio_ranges(100, None), vec![range(0, 100)]);
    assert_eq!(build_audio_ranges(100, Some(&vec![])), vec![range(0, 100)]);
    assert_eq!(build_audio_ranges(100, Some(&vec![range(5, 5), range(9, 3)])), vec![range(0, 100)]);
    assert_eq!(build_audio_ranges(100, Some(&vec![range(100, 200)])), vec![range(0, 100)]);
    assert_eq!(build_audio_ranges(0, None), vec![]);
    assert_eq!(build_audio_ranges(0, Some(&vec![range(0, 10)])), vec![]);
}

#[test]
fn ranges_are_sorted_and_merged() {
    let speech = vec![range(50, 60), range(0, 10), range(10, 20), range(55, 58), range(59, 70)];
    assert_eq!(build_audio_ranges(100, Some(&speech)), vec![range(0, 20), range(50, 70)]);
    let speech = vec![range(0, 10), range(11, 20)];
    assert_eq!(build_audio_ranges(100, Some(&speech)), vec![range(0, 10), range(11, 20)]);
}

#[test]
fn ranges_end_with_the_audio() {
    let speech = vec![range(90, 300), range(20, 30)];
    assert_eq!(build_audio_ranges(100, Some(&speech)), vec![range(20, 30), range(90, 100)]);
}

#[test]
fn ranges_hold_just_the_wanted_samples() {
    let speech = vec![range(31, 40), range(7, 9), range(8, 15), range(15, 16), range(60, 99)];
    let ranges = build_audio_ranges(64, Some(&speech));
    for p in 0..64 {
        let wanted = speech.iter().any(|r| r.start_sample <= p && p < r.end_sample);
        let held = ranges.iter().any(|r| r.start_sample <= p && p < r.end_sample);
        assert_eq!(wanted, held, "{}", p);
    }
}

#[test]
fn made_up_texts_are_known() {
    assert!(is_ng_word("あ"));
    assert!(is_ng_word("ん"));
    assert!(is_ng_word("ご視聴ありがとうございました"));
    assert!(!is_ng_word("ああ"));
    assert!(!is_ng_word(""));
}

#[test]
fn long_audio_is_split_into_blocks() {
    let mut t = Transcriber::new(1000000, None);
    assert_eq!(t.next_block(), Some(range(0, 480000)));
    assert_eq!(t.accept_block(&vec![]), Progress::Samples { done: 480000, total: 1000000 });
    assert_eq!(t.next_block(), Some(range(480000, 960000)));
    assert_eq!(t.accept_block(&vec![]), Progress::Samples { done: 960000, total: 1000000 });
    assert_eq!(t.next_block(), Some(range(960000, 1000000)));
    assert_eq!(t.accept_block(&vec![]), Progress::Samples { done: 1000000, total: 1000000 });
    assert_eq!(t.next_block(), None);
}

#[test]
fn no_audio_has_no_blocks() {
    let t = Transcriber::new(0, None);
    assert_eq!(t.next_block(), None);
    let result = t.finish(Some(vec![]));
    assert_eq!(result.full_text, "");
    assert_eq!(result.vad_segments, Some(vec![]));
}

#[test]
fn blocks_stay_inside_their_range() {
    let speech = vec![range(16000, 32000), range(64000, 80000)];
    let mut t = Transcriber::new(160000, Some(&speech));
    assert_eq!(t.next_block(), Some(range(16000, 32000)));
    let progress = t.accept_block(&vec![heard("a", 50)]);
    assert_eq!(progress, Progress::Samples { done: 8000, total: 32000 });
    assert_eq!(t.next_block(), Some(range(24000, 32000)));
    assert_eq!(t.accept_block(&vec![]), Progress::Samples { done: 16000, total: 32000 });
    assert_eq!(t.next_block(), Some(range(64000, 80000)));
    assert_eq!(t.accept_block(&vec![]), Progress::Samples { done: 32000, total: 32000 });
    assert_eq!(t.next_block(), None);
}

#[test]
fn the_work_goes_on_after_the_last_segment() {
    let mut t = Transcriber::new(160000, None);
    t.accept_block(&vec![heard("a", 700), heard("b", 600)]);
    assert_eq!(t.next_block(), Some(range(112000, 160000)));
    t.accept_block(&vec![heard("c", 300)]);
    assert_eq!(t.next_block(), None);
    let mut t = Transcriber::new(160000, None);
    t.accept_block(&vec![heard("a", 1000)]);
    assert_eq!(t.next_block(), None);
    let mut t = Transcriber::new(160000, None);
    t.accept_block(&vec![heard("a", 0)]);
    assert_eq!(t.next_block(), None);
    let mut t = Transcriber::new(160000, None);
    t.accept_block(&vec![heard("a", i64::MAX)]);
    assert_eq!(t.next_block(), None);
}

#[test]
fn useless_segments_are_dropped() {
    let mut t = Transcriber::new(160000, None);
    let backwards = Recognized { start_offset: 500, ..heard("late", 100) };
    let empty = Recognized { start_offset: 500, ..heard("still", 500) };
    t.accept_block(&vec![heard(" a ", 300), heard(" \n", 800), heard(" ん ", 850), backwards, empty]);
    assert_eq!(texts(&t), vec!["a"]);
    assert_eq!(t.next_block(), Some(range(48000, 160000)));
}

#[test]
fn a_segment_at_the_edge_is_heard_again() {
    let mut t = Transcriber::new(160000, None);
    t.accept_block(&vec![heard("a", 500), heard("b", 951), heard("あ", 995)]);
    assert_eq!(texts(&t), vec!["a"]);
    assert_eq!(t.next_block(), Some(range(80000, 160000)));
    t.accept_block(&vec![heard("b", 451)]);
    assert_eq!(texts(&t), vec!["a", "b"]);
    let mut t = Transcriber::new(160000, None);
    t.accept_block(&vec![heard("a", 500), heard("b", 950)]);
    assert_eq!(texts(&t), vec!["a", "b"]);
    let mut t = Transcriber::new(160000, None);
    t.accept_block(&vec![heard("b", 990), heard("c", 400)]);
    assert_eq!(texts(&t), vec!["b", "c"]);
}

#[test]
fn an_end_in_seconds_may_fall_short() {
    assert_eq!((2.01f64 * 16000.0) as usize, 32159);
    let mut t = Transcriber::new(160000, None);
    t.accept_block(&vec![Recognized { end_short: true, ..heard("a", 201) }]);
    assert_eq!(t.next_block(), Some(range(32159, 160000)));
    let mut t = Transcriber::new(160000, None);
    t.accept_block(&vec![heard("a", 201)]);
    assert_eq!(t.next_block(), Some(range(32160, 160000)));
}

#[test]
fn a_tie_at_the_edge_is_decided_by_the_seconds() {
    let tie = || Recognized { edge_tie: true, ..heard("b", 950) };
    let mut t = Transcriber::new(160000, None);
    t.accept_block(&vec![heard("a", 500), tie()]);
    assert_eq!(texts(&t), vec!["a"]);
    let mut t = Transcriber::new(160000, None);
    t.accept_block(&vec![heard("a", 500), heard("b", 950)]);
    assert_eq!(texts(&t), vec!["a", "b"]);
    let mut t = Transcriber::new(160000, None);
    t.accept_block(&vec![heard("a", 500), Recognized { edge_tie: true, ..heard("b", 949) }]);
    assert_eq!(texts(&t), vec!["a", "b"]);
}

#[test]
fn texts_are_joined_by_spaces() {
    let mut t = Transcriber::new(160000, None);
    t.accept_block(&vec![heard("こんにちは", 400), heard("今日は", 500)]);
    assert_eq!(t.full_text, "こんにちは 今日は");
    t.accept_block(&vec![]);
    assert_eq!(t.full_text, "こんにちは 今日は");
}

#[test]
fn a_result_holds_what_was_heard() {
    let mut t = Transcriber::new(160000, None);
    t.accept_block(&vec![heard("こんにちは", 500)]);
    t.accept_block(&vec![heard(" 今日は良い天気ですね", 500)]);
    assert_eq!(t.next_block(), None);
    let result = t.finish(None);
    assert_eq!(result.full_text, "こんにちは 今日は良い天気ですね");
    assert_eq!(result.segments[0].block_start, 0);
    assert_eq!(result.segments[1].block_start, 80000);
    assert_eq!(result.segments[1].start_offset, 499);
    assert_eq!(result.segments[1].end_offset, 500);
    assert!(result.vad_segments.is_none());
}

#[test]
fn no_sample_is_skipped() {
    let speech = vec![range(10, 40), range(100, 700000)];
    let mut t = Transcriber::new(800000, Some(&speech));
    let mut reached = 10;
    let mut last = 0;
    while let Some(block) = t.next_block() {
        assert!(block.start_sample <= reached || reached == 40 && block.start_sample == 100);
        reached = block.end_sample;
        match t.accept_block(&vec![heard("x", 400)]) {
            Progress::Samples { done, total } => {
                assert!(last < done && done <= total);
                last = done;
            }
            other => panic!("{:?}", other),
        }
    }
    assert_eq!(reached, 700000);
    assert_eq!(last, 699930);
}

fn text_of(entry: &Entry) -> (&str, &str) {
    match &entry.content {
        Content::One(Value::Text(text)) => (entry.name.as_str(), text.as_str()),
        other => panic!("{:?}", other),
    }
}

fn rows_of(entry: &Entry) -> &Vec<Vec<Member>> {
    match &entry.content {
        Content::Rows(rows) => rows,
        other => panic!("{:?}", other),
    }
}

fn job(status: TranscriptionStatus, error: Option<&str>) -> TranscriptionJob {
    TranscriptionJob {
        filename: "a".to_string(),
        status,
        progress: Progress::Samples { done: 1, total: 3 },
        error: error.map(|error| error.to_string()),
    }
}

#[test]
fn a_job_is_told_without_an_error() {
    let document = job_document(&job(TranscriptionStatus::Processing, None));
    assert_eq!(document.len(), 3);
    assert_eq!(text_of(&document[0]), ("filename", "a"));
    assert_eq!(text_of(&document[1]), ("status", "processing"));
    assert_eq!(document[2].name, "progress");
    assert!(matches!(
        document[2].content,
        Content::One(Value::Percentage(Progress::Samples { done: 1, total: 3 }))
    ));
}

#[test]
fn a_failed_job_is_told_with_its_error() {
    let document = job_document(&job(TranscriptionStatus::Failed, Some("broken")));
    assert_eq!(document.len(), 4);
    assert_eq!(text_of(&document[1]), ("status", "failed"));
    assert_eq!(text_of(&document[3]), ("error", "broken"));
}

#[test]
fn an_early_request_is_told_where_the_job_stands() {
    let document = not_completed_document(TranscriptionStatus::Pending, Progress::Started);
    assert_eq!(text_of(&document[0]), ("error", "Job is not completed yet"));
    assert_eq!(text_of(&document[1]), ("status", "pending"));
    assert_eq!(document[2].name, "progress");
    assert!(matches!(document[2].content, Content::One(Value::Percentage(Progress::Started))));
    assert_eq!(document.len(), 3);
}

#[test]
fn a_result_is_told_with_speech_where_it_was_looked_for() {
    let segment = TranscriptionSegment {
        block_start: 16000,
        start_offset: 50,
        end_offset: 250,
        text: "hi".to_string(),
    };
    let mut result = TranscriptionResult {
        segments: vec![segment],
        full_text: "hi".to_string(),
        vad_segments: None,
    };
    let document = result_document(&result);
    assert_eq!(document.len(), 2);
    assert_eq!(document[0].name, "segments");
    let row = &rows_of(&document[0])[0];
    let names: Vec<&str> = row.iter().map(|member| member.name.as_str()).collect();
    assert_eq!(names, vec!["start_time", "end_time", "text"]);
    assert!(matches!(row[0].value, Value::BlockTime { block_start: 16000, offset: 50 }));
    assert!(matches!(row[1].value, Value::BlockTime { block_start: 16000, offset: 250 }));
    assert!(matches!(&row[2].value, Value::Text(text) if text == "hi"));
    assert_eq!(text_of(&document[1]), ("full_text", "hi"));
    result.vad_segments = Some(vec![SpeechSegment { start: 512, end: 1024 }]);
    let document = result_document(&result);
    assert_eq!(document.len(), 3);
    assert_eq!(document[2].name, "vad_segments");
    let row = &rows_of(&document[2])[0];
    assert_eq!((row[0].name.as_str(), row[1].name.as_str()), ("start", "end"));
    assert!(matches!(row[0].value, Value::SampleTime(512)));
    assert!(matches!(row[1].value, Value::SampleTime(1024)));
}
