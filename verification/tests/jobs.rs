use whisper_server_http::models::{
    Progress, TranscriptionResult, TranscriptionSegment, TranscriptionStatus,
};
use whisper_server_http::services::ranges::AudioRange;
use whisper_server_http::services::run::{FoundSegment, RunAction, RunEvent, RunStage};
use whisper_server_http::services::transcriber::Recognized;
use whisper_server_http::services::transcription::{
    audio_file_name, result_file_name, TranscriptionService, MAX_FINISHED_JOBS,
};
use whisper_server_http::services::vad::layout::{ElementType, TensorInput};
use whisper_server_http::services::vad::segments::SpeechSegment;
use whisper_server_http::services::vad::VadService;

fn result(text: &str) -> TranscriptionResult {
    TranscriptionResult { segments: vec![], full_text: text.to_string(), vad_segments: None }
}

fn detector() -> VadService {
    let input = TensorInput {
        name: "input".to_string(),
        element: ElementType::Float32,
        shape: vec![1, 512],
    };
    VadService::new(&vec![input]).unwrap()
}

fn heard(text: &str, start_offset: i64, end_offset: i64) -> Recognized {
    Recognized {
        text: text.to_string(),
        start_offset,
        end_offset,
        end_short: false,
        edge_tie: false,
    }
}

fn block_of(action: RunAction) -> (usize, usize) {
    match action {
        RunAction::Recognize(AudioRange { start_sample, end_sample }) => (start_sample, end_sample),
        _ => panic!("no block"),
    }
}

fn removed(action: RunAction) -> Vec<String> {
    match action {
        RunAction::Remove(names) => names,
        _ => panic!("not over"),
    }
}

#[test]
fn statuses_have_names() {
    assert_eq!(TranscriptionStatus::Pending.to_string(), "pending");
    assert_eq!(TranscriptionStatus::Processing.to_string(), "processing");
    assert_eq!(TranscriptionStatus::Completed.to_string(), "completed");
    assert_eq!(TranscriptionStatus::Failed.to_string(), "failed");
}

#[test]
fn a_name_is_used_once() {
    let mut service = TranscriptionService::new();
    assert_eq!(service.create_job("a".to_string()), Ok(()));
    assert_eq!(service.create_job("a".to_string()), Err("Job already exists".to_string()));
    assert_eq!(service.create_job("A".to_string()), Ok(()));
    service.complete_job("a", result("x"));
    assert_eq!(service.create_job("a".to_string()), Err("Job already exists".to_string()));
}

#[test]
fn unknown_jobs_are_not_found() {
    let mut service = TranscriptionService::new();
    assert!(service.get_job_status("a").is_none());
    assert!(service.get_result("a").is_none());
    service.update_job_progress("a", Progress::Finishing);
    service.begin_job("a");
    assert!(service.get_job_status("a").is_none());
}

#[test]
fn a_job_completes_with_its_result() {
    let mut service = TranscriptionService::new();
    service.create_job("a".to_string()).unwrap();
    assert_eq!(service.complete_job("a", result("hello")), Vec::<String>::new());
    let job = service.get_job_status("a").unwrap();
    assert_eq!(job.status, TranscriptionStatus::Completed);
    assert_eq!(job.progress, Progress::Finished);
    assert_eq!(service.get_result("a").unwrap().full_text, "hello");
}

#[test]
fn a_job_fails_with_its_error() {
    let mut service = TranscriptionService::new();
    service.create_job("a".to_string()).unwrap();
    service.begin_job("a");
    service.update_job_progress("a", Progress::Samples { done: 3, total: 9 });
    service.fail_job("a", "broken".to_string());
    let job = service.get_job_status("a").unwrap();
    assert_eq!(job.status, TranscriptionStatus::Failed);
    assert_eq!(job.progress, Progress::Samples { done: 3, total: 9 });
    assert_eq!(job.error, Some("broken".to_string()));
    assert!(service.get_result("a").is_none());
}

#[test]
fn the_oldest_finished_job_is_forgotten() {
    let mut service = TranscriptionService::new();
    service.create_job("open".to_string()).unwrap();
    for i in 0..MAX_FINISHED_JOBS {
        let name = format!("job{}", i);
        service.create_job(name.clone()).unwrap();
        assert_eq!(service.complete_job(&name, result(&name)), Vec::<String>::new());
    }
    service.create_job("last".to_string()).unwrap();
    assert_eq!(service.fail_job("last", "e".to_string()), vec!["job0".to_string()]);
    assert!(service.get_job_status("job0").is_none());
    assert!(service.get_result("job0").is_none());
    assert!(service.get_job_status("job1").is_some());
    assert_eq!(service.get_result("job1").unwrap().full_text, "job1");
    assert!(service.get_job_status("open").is_some());
    assert!(service.get_job_status("last").is_some());
    assert_eq!(service.finished_jobs.len(), MAX_FINISHED_JOBS);
    assert_eq!(service.create_job("job0".to_string()), Ok(()));
}

#[test]
fn files_are_named_after_the_job() {
    assert_eq!(audio_file_name("talk"), "talk.wav");
    assert_eq!(result_file_name("talk"), "talk.json");
    assert_ne!(audio_file_name("a.json"), result_file_name("a"));
}

#[test]
fn a_job_without_detection_runs_through() {
    let mut service = TranscriptionService::new();
    service.create_job("a".to_string()).unwrap();
    let (stage, action) = service.start_transcription("a", 500000);
    assert!(matches!(action, RunAction::Open));
    assert_eq!(service.get_job_status("a").unwrap().status, TranscriptionStatus::Processing);
    let (stage, action) = service.transcribe("a", stage, RunEvent::Opened);
    assert_eq!(block_of(action), (0, 480000));
    assert_eq!(service.get_job_status("a").unwrap().progress, Progress::Started);
    let segments = vec![heard(" hello ", 0, 2000)];
    let (stage, action) = service.transcribe("a", stage, RunEvent::Heard { segments });
    assert_eq!(block_of(action), (320000, 500000));
    assert_eq!(
        service.get_job_status("a").unwrap().progress,
        Progress::Samples { done: 320000, total: 500000 }
    );
    let segments = vec![heard("world", 10, 50), heard("あ", 50, 60)];
    let (stage, action) = service.transcribe("a", stage, RunEvent::Heard { segments });
    assert_eq!(block_of(action), (328000, 500000));
    let (stage, action) = service.transcribe("a", stage, RunEvent::Heard { segments: vec![] });
    assert!(matches!(action, RunAction::Store));
    assert_eq!(service.get_job_status("a").unwrap().progress, Progress::Finishing);
    assert!(service.get_result("a").is_none());
    match &stage {
        RunStage::Storing { result } => assert_eq!(result.full_text, "hello world"),
        _ => panic!("nothing to store"),
    }
    let (stage, action) = service.transcribe("a", stage, RunEvent::Stored);
    assert!(matches!(stage, RunStage::Over));
    assert_eq!(removed(action), Vec::<String>::new());
    assert_eq!(service.get_job_status("a").unwrap().status, TranscriptionStatus::Completed);
    let stored = service.get_result("a").unwrap();
    assert_eq!(stored.full_text, "hello world");
    assert!(stored.vad_segments.is_none());
    let TranscriptionSegment { block_start, start_offset, end_offset, text } = &stored.segments[1];
    assert_eq!((*block_start, *start_offset, *end_offset), (320000, 10, 50));
    assert_eq!(text, "world");
}

#[test]
fn a_job_with_detection_transcribes_speech_only() {
    let mut service = TranscriptionService::new().with_vad(detector());
    service.create_job("a".to_string()).unwrap();
    let (stage, action) = service.start_transcription("a", 16000);
    assert!(matches!(action, RunAction::Detect));
    let event = RunEvent::Detected {
        found: vec![FoundSegment {
            segment: SpeechSegment { start: 1024, end: 4096 },
            start_short: false,
            end_short: false,
        }],
    };
    let (stage, action) = service.transcribe("a", stage, event);
    assert!(matches!(action, RunAction::Open));
    let (stage, action) = service.transcribe("a", stage, RunEvent::Opened);
    assert_eq!(block_of(action), (1024, 4096));
    let (stage, _) = service.transcribe("a", stage, RunEvent::Heard { segments: vec![] });
    service.transcribe("a", stage, RunEvent::Stored);
    let stored = service.get_result("a").unwrap();
    assert_eq!(stored.full_text, "");
    assert_eq!(stored.vad_segments, Some(vec![SpeechSegment { start: 1024, end: 4096 }]));
}

#[test]
fn a_failed_detection_transcribes_everything() {
    let mut service = TranscriptionService::new().with_vad(detector());
    service.create_job("a".to_string()).unwrap();
    let (stage, _) = service.start_transcription("a", 16000);
    let (stage, action) = service.transcribe("a", stage, RunEvent::DetectionFailed);
    assert!(matches!(action, RunAction::Open));
    let (stage, action) = service.transcribe("a", stage, RunEvent::Opened);
    assert_eq!(block_of(action), (0, 16000));
    let (stage, _) = service.transcribe("a", stage, RunEvent::Heard { segments: vec![] });
    service.transcribe("a", stage, RunEvent::Stored);
    assert!(service.get_result("a").unwrap().vad_segments.is_none());
}

#[test]
fn a_job_over_no_audio_is_done_at_once() {
    let mut service = TranscriptionService::new();
    service.create_job("a".to_string()).unwrap();
    let (stage, _) = service.start_transcription("a", 0);
    let (_, action) = service.transcribe("a", stage, RunEvent::Opened);
    assert!(matches!(action, RunAction::Store));
}

#[test]
fn a_recognizer_that_does_not_open_fails_the_job() {
    let mut service = TranscriptionService::new();
    service.create_job("a".to_string()).unwrap();
    let (stage, _) = service.start_transcription("a", 16000);
    let event = RunEvent::OpenFailed { error: "no memory".to_string() };
    let (stage, action) = service.transcribe("a", stage, event);
    assert!(matches!(stage, RunStage::Over));
    assert_eq!(removed(action), Vec::<String>::new());
    let job = service.get_job_status("a").unwrap();
    assert_eq!(job.status, TranscriptionStatus::Failed);
    assert_eq!(job.error, Some("Failed to create state: no memory".to_string()));
}

#[test]
fn a_block_that_is_not_recognized_fails_the_job() {
    let mut service = TranscriptionService::new();
    service.create_job("a".to_string()).unwrap();
    let (stage, _) = service.start_transcription("a", 16000);
    let (stage, _) = service.transcribe("a", stage, RunEvent::Opened);
    let event = RunEvent::HearingFailed { error: "crash".to_string() };
    let (stage, _) = service.transcribe("a", stage, event);
    assert!(matches!(stage, RunStage::Over));
    let job = service.get_job_status("a").unwrap();
    assert_eq!(job.progress, Progress::Started);
    assert_eq!(job.error, Some("Transcription failed: crash".to_string()));
}

#[test]
fn the_end_of_a_run_names_the_forgotten_jobs() {
    let mut service = TranscriptionService::new();
    for i in 0..MAX_FINISHED_JOBS {
        let name = format!("job{}", i);
        service.create_job(name.clone()).unwrap();
        service.fail_job(&name, "e".to_string());
    }
    service.create_job("a".to_string()).unwrap();
    let (stage, _) = service.start_transcription("a", 0);
    let (stage, _) = service.transcribe("a", stage, RunEvent::Opened);
    let (_, action) = service.transcribe("a", stage, RunEvent::Stored);
    assert_eq!(removed(action), vec!["job0".to_string()]);
}

#[test]
fn a_job_only_moves_forward() {
    let mut service = TranscriptionService::new();
    service.create_job("a".to_string()).unwrap();
    let mut seen = vec![service.get_job_status("a").unwrap()];
    let (mut stage, mut action) = service.start_transcription("a", 1000000);
    loop {
        seen.push(service.get_job_status("a").unwrap());
        let event = match action {
            RunAction::Open => RunEvent::Opened,
            RunAction::Recognize(_) => RunEvent::Heard { segments: vec![heard("x", 0, 1000)] },
            RunAction::Store => RunEvent::Stored,
            _ => break,
        };
        (stage, action) = service.transcribe("a", stage, event);
    }
    assert!(matches!(stage, RunStage::Over));
    let percent = |progress: Progress| match progress {
        Progress::Started => 0.0,
        Progress::Samples { done, total } => (100.0 * done as f64 / total as f64).min(99.0),
        Progress::Finishing => 99.0,
        Progress::Finished => 100.0,
    };
    let rank = |status: TranscriptionStatus| match status {
        TranscriptionStatus::Pending => 0,
        TranscriptionStatus::Processing => 1,
        _ => 2,
    };
    for (i, later) in seen.iter().enumerate() {
        assert_eq!(
            later.progress == Progress::Finished,
            later.status == TranscriptionStatus::Completed
        );
        assert_eq!(later.error.is_some(), later.status == TranscriptionStatus::Failed);
        for earlier in &seen[..i] {
            assert!(rank(earlier.status) <= rank(later.status));
            assert!(percent(earlier.progress) <= percent(later.progress));
        }
    }
    assert_eq!(seen.last().unwrap().status, TranscriptionStatus::Completed);
}

#[test]
fn rounded_bounds_move_by_one_sample() {
    // 1001 samples in seconds and back fall short of 1001.
    let back = |sample: usize| (sample as f64 / 16000.0 * 16000.0) as usize;
    assert_eq!((back(1001), back(4096)), (1000, 4096));
    let mut service = TranscriptionService::new().with_vad(detector());
    service.create_job("a".to_string()).unwrap();
    let (stage, _) = service.start_transcription("a", 16000);
    let found = |start, end| FoundSegment {
        segment: SpeechSegment { start, end },
        start_short: back(start) < start,
        end_short: back(end) < end,
    };
    let event = RunEvent::Detected { found: vec![found(1001, 4096), found(6001, 8000)] };
    let (stage, _) = service.transcribe("a", stage, event);
    let (stage, action) = service.transcribe("a", stage, RunEvent::Opened);
    assert_eq!(block_of(action), (1000, 4096));
    let (stage, action) = service.transcribe("a", stage, RunEvent::Heard { segments: vec![] });
    assert_eq!(block_of(action), (back(6001), 8000));
    let (stage, _) = service.transcribe("a", stage, RunEvent::Heard { segments: vec![] });
    service.transcribe("a", stage, RunEvent::Stored);
    assert_eq!(
        service.get_result("a").unwrap().vad_segments,
        Some(vec![SpeechSegment { start: 1001, end: 4096 }, SpeechSegment { start: 6001, end: 8000 }])
    );
}
