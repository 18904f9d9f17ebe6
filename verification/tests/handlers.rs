use whisper_server_http::handlers::finish::{finish_handler, FinishReply};
use whisper_server_http::handlers::reply::{json_response, refuse, started, Reply};
use whisper_server_http::handlers::status::{status_handler, StatusReply};
use whisper_server_http::handlers::upload::{
    field_kind, upload_handler, FieldKind, UploadAction, UploadAudio, UploadEvent, UploadForm,
    UploadStage,
};
use whisper_server_http::handlers::{health_check, validate_filename};
use whisper_server_http::models::{
    ErrorResponse, Progress, TranscriptionResult, TranscriptionStatus,
};
use whisper_server_http::services::transcription::TranscriptionService;

fn error_text(error: &str) -> String {
    format!("{{\n  \"error\": \"{}\"\n}}", error)
}

fn step(
    service: &mut TranscriptionService,
    stage: UploadStage,
    event: UploadEvent,
) -> (UploadStage, UploadAction) {
    upload_handler(service, 1000, stage, event)
}

fn reading() -> UploadStage {
    UploadStage::Reading(UploadForm::new())
}

fn form_of(stage: &UploadStage) -> &UploadForm {
    match stage {
        UploadStage::Reading(form) => form,
        other => panic!("{:?}", other),
    }
}

fn answer_of(r: (UploadStage, UploadAction)) -> (u16, String) {
    assert!(matches!(r.0, UploadStage::Over));
    match r.1 {
        UploadAction::Answer(Reply { status, body }) => (status, body),
        other => panic!("{:?}", other),
    }
}

fn audio(file_name: Option<&str>, data: &[u8]) -> UploadEvent {
    UploadEvent::Audio { file_name: file_name.map(|name| name.to_string()), data: data.to_vec() }
}

fn wav(sample_rate: u32, bits_per_sample: u16, samples: &[i32]) -> Vec<u8> {
    let spec = hound::WavSpec {
        channels: 1,
        sample_rate,
        bits_per_sample,
        sample_format: hound::SampleFormat::Int,
    };
    let mut cursor = std::io::Cursor::new(Vec::new());
    let mut writer = hound::WavWriter::new(&mut cursor, spec).unwrap();
    for &sample in samples {
        writer.write_sample(sample).unwrap();
    }
    writer.finalize().unwrap();
    cursor.into_inner()
}

#[test]
fn health_is_told() {
    assert_eq!(health_check(), "Whisper HTTP Server is running");
}

#[test]
fn filenames_are_trimmed_and_checked() {
    assert_eq!(validate_filename(" a-B_9.wav\n"), Ok("a-B_9.wav".to_string()));
    assert_eq!(validate_filename("..."), Ok("...".to_string()));
    assert_eq!(validate_filename("   "), Err("filename must not be empty".to_string()));
    assert_eq!(validate_filename("."), Err("filename is invalid".to_string()));
    assert_eq!(validate_filename(" .. "), Err("filename is invalid".to_string()));
    let invalid = Err("filename contains invalid characters".to_string());
    assert_eq!(validate_filename("a/b"), invalid);
    assert_eq!(validate_filename("a\\b"), invalid);
    assert_eq!(validate_filename("../etc"), invalid);
    assert_eq!(validate_filename("a b"), invalid);
    assert_eq!(validate_filename("音声"), invalid);
}

#[test]
fn filenames_are_limited_in_bytes() {
    let too_long = Err("filename is too long (max 128 characters)".to_string());
    let longest = "x".repeat(128);
    assert_eq!(validate_filename(&longest), Ok(longest.clone()));
    assert_eq!(validate_filename(&"x".repeat(129)), too_long);
    assert_eq!(validate_filename(&"あ".repeat(43)), too_long);
    let other = Err("filename contains invalid characters".to_string());
    assert_eq!(validate_filename(&"あ".repeat(42)), other);
}

#[test]
fn errors_are_written_as_json() {
    let reply = refuse(404, "a \"b\" \\ \n\r\t\u{8}\u{c}\u{1}\u{1f}\u{7f}/あ");
    assert_eq!(reply.status, 404);
    assert_eq!(
        reply.body,
        "{\n  \"error\": \"a \\\"b\\\" \\\\ \\n\\r\\t\\b\\f\\u0001\\u001f\u{7f}/あ\"\n}"
    );
    let reply = json_response(500, &ErrorResponse { error: "".to_string() });
    assert_eq!(reply.body, "{\n  \"error\": \"\"\n}");
}

#[test]
fn starts_are_written_as_json() {
    let reply = started("a.wav");
    assert_eq!(reply.status, 202);
    assert_eq!(reply.body, "{\"filename\":\"a.wav\",\"message\":\"Transcription started\"}");
}

#[test]
fn status_of_a_job() {
    let mut service = TranscriptionService::new();
    match status_handler(&service, None) {
        StatusReply::Refused(reply) => {
            assert_eq!(reply.status, 400);
            assert_eq!(reply.body, error_text("Missing 'filename' query parameter"));
        }
        other => panic!("{:?}", other),
    }
    match status_handler(&service, Some("a")) {
        StatusReply::Refused(reply) => {
            assert_eq!(reply.status, 404);
            assert_eq!(reply.body, error_text("Job not found: a"));
        }
        other => panic!("{:?}", other),
    }
    assert_eq!(status_handler(&service, Some("a")).status_code(), 404);
    service.create_job("a".to_string()).unwrap();
    assert_eq!(status_handler(&service, Some("a")).status_code(), 200);
    match status_handler(&service, Some("a")) {
        StatusReply::Job(job) => {
            assert_eq!(job.filename, "a");
            assert_eq!(job.status, TranscriptionStatus::Pending);
            assert_eq!(job.progress, Progress::Started);
            assert_eq!(job.error, None);
        }
        other => panic!("{:?}", other),
    }
    assert!(matches!(status_handler(&service, Some(" a")), StatusReply::Refused(_)));
}

#[test]
fn finish_refuses_what_is_not_there() {
    let service = TranscriptionService::new();
    let refused = |filename| match finish_handler(&service, filename) {
        FinishReply::Refused(reply) => (reply.status, reply.body),
        other => panic!("{:?}", other),
    };
    assert_eq!(refused(None), (400, error_text("Missing 'filename' query parameter")));
    assert_eq!(
        refused(Some(" ")),
        (400, error_text("Invalid 'filename' query parameter: filename must not be empty"))
    );
    assert_eq!(refused(Some(" b ")), (404, error_text("Job not found: b")));
}

#[test]
fn finish_waits_for_the_result() {
    let mut service = TranscriptionService::new();
    service.create_job("a".to_string()).unwrap();
    service.begin_job("a");
    service.update_job_progress("a", Progress::Samples { done: 1, total: 2 });
    assert_eq!(finish_handler(&service, Some("a")).status_code(), 400);
    match finish_handler(&service, Some("a")) {
        FinishReply::NotCompleted { status, progress } => {
            assert_eq!(status, TranscriptionStatus::Processing);
            assert_eq!(progress, Progress::Samples { done: 1, total: 2 });
        }
        other => panic!("{:?}", other),
    }
    let result = TranscriptionResult {
        segments: vec![],
        full_text: "text".to_string(),
        vad_segments: None,
    };
    service.complete_job("a", result);
    assert_eq!(finish_handler(&service, Some("a")).status_code(), 200);
    match finish_handler(&service, Some(" a ")) {
        FinishReply::Finished(result) => assert_eq!(result.full_text, "text"),
        other => panic!("{:?}", other),
    }
}

#[test]
fn finish_of_a_failed_job_is_not_completed() {
    let mut service = TranscriptionService::new();
    service.create_job("a".to_string()).unwrap();
    service.fail_job("a", "broken".to_string());
    assert!(matches!(
        finish_handler(&service, Some("a")),
        FinishReply::NotCompleted { status: TranscriptionStatus::Failed, .. }
    ));
}

#[test]
fn a_lost_result_is_an_internal_error() {
    let mut service = TranscriptionService::new();
    service.create_job("a".to_string()).unwrap();
    let result =
        TranscriptionResult { segments: vec![], full_text: String::new(), vad_segments: None };
    service.complete_job("a", result);
    service.results.remove("a");
    match finish_handler(&service, Some("a")) {
        FinishReply::Refused(reply) => {
            assert_eq!(reply.status, 500);
            assert_eq!(reply.body, error_text("Result not found (this should not happen)"));
        }
        other => panic!("{:?}", other),
    }
}

#[test]
fn fields_are_told_apart() {
    assert_eq!(field_kind("audio"), FieldKind::Audio);
    assert_eq!(field_kind("sample_rate"), FieldKind::SampleRate);
    assert_eq!(field_kind("filename"), FieldKind::Filename);
    assert_eq!(field_kind("Audio"), FieldKind::Other);
    assert_eq!(field_kind(""), FieldKind::Other);
}

#[test]
fn an_upload_starts_a_job() {
    let mut service = TranscriptionService::new();
    let s = &mut service;
    let (stage, action) = step(s, reading(), audio(Some("disk.wav"), &wav(16000, 16, &[1, 2, 3])));
    assert!(matches!(action, UploadAction::ReadOn));
    let (stage, _) = step(s, stage, UploadEvent::Filename { text: " talk ".to_string() });
    assert_eq!(form_of(&stage).filename, Some(" talk ".to_string()));
    let (stage, action) = step(s, stage, UploadEvent::EndOfForm);
    match action {
        UploadAction::Decode(UploadAudio::Pcm(audio)) => {
            assert_eq!(audio.samples, vec![1, 2, 3]);
            assert_eq!(audio.full_scale, 32768);
        }
        other => panic!("{:?}", other),
    }
    let (stage, action) = step(s, stage, UploadEvent::Decoded { samples: 3, now: 5 });
    assert!(matches!(action, UploadAction::Save { filename } if filename == "talk"));
    assert!(s.get_job_status("talk").is_none());
    let (stage, action) = step(s, stage, UploadEvent::Saved);
    assert!(matches!(stage, UploadStage::Over));
    match action {
        UploadAction::Start { filename, reply } => {
            assert_eq!(filename, "talk");
            assert_eq!(reply.status, 202);
            assert_eq!(
                reply.body,
                "{\"filename\":\"talk\",\"message\":\"Transcription started\"}"
            );
        }
        other => panic!("{:?}", other),
    }
    assert_eq!(s.get_job_status("talk").unwrap().status, TranscriptionStatus::Pending);
    assert!(matches!(
        finish_handler(s, Some("talk")),
        FinishReply::NotCompleted { status: TranscriptionStatus::Pending, progress: Progress::Started }
    ));
}

#[test]
fn an_upload_takes_the_name_of_its_file() {
    let mut service = TranscriptionService::new();
    let (stage, _) = step(&mut service, reading(), audio(Some("disk.wav"), &[1, 0]));
    assert_eq!(form_of(&stage).file_name, Some("disk.wav".to_string()));
    assert_eq!(form_of(&stage).filename, None);
    let (stage, _) = step(&mut service, stage, audio(None, &[1, 0, 2, 0]));
    assert_eq!(form_of(&stage).file_name, Some("disk.wav".to_string()));
    match &form_of(&stage).audio {
        Some(UploadAudio::Pcm(audio)) => assert_eq!(audio.samples, vec![1, 2]),
        other => panic!("{:?}", other),
    }
    let (stage, _) = step(&mut service, stage, UploadEvent::EndOfForm);
    assert!(matches!(
        stage,
        UploadStage::Decoding { sample_rate: 16000, filename: Some(name), samples: Some(2) }
            if name == "disk.wav"
    ));
}

#[test]
fn the_filename_field_names_the_job_wherever_it_stands() {
    let field = || UploadEvent::Filename { text: "abc".to_string() };
    let part = || audio(Some("x.wav"), &[0x00, 0x40]);
    for events in [vec![field(), part()], vec![part(), field()]] {
        let mut service = TranscriptionService::new();
        let mut stage = reading();
        for event in events {
            stage = step(&mut service, stage, event).0;
        }
        let (stage, _) = step(&mut service, stage, UploadEvent::EndOfForm);
        let (stage, _) = step(&mut service, stage, UploadEvent::Decoded { samples: 1, now: 0 });
        match step(&mut service, stage, UploadEvent::Saved).1 {
            UploadAction::Start { filename, reply } => {
                assert_eq!(filename, "abc");
                assert_eq!(reply.status, 202);
                assert_eq!(
                    reply.body,
                    "{\"filename\":\"abc\",\"message\":\"Transcription started\"}"
                );
            }
            other => panic!("{:?}", other),
        }
        assert!(service.get_job_status("abc").is_some());
        assert!(service.get_job_status("x.wav").is_none());
    }
}

#[test]
fn an_upload_without_a_name_gets_one() {
    let mut service = TranscriptionService::new();
    let stage = UploadStage::Decoding { sample_rate: 16000, filename: None, samples: None };
    let event = UploadEvent::Decoded { samples: 1, now: 1234567890 };
    let (_, action) = step(&mut service, stage, event);
    assert!(matches!(action, UploadAction::Save { filename } if filename == "audio_1234567890"));
}

#[test]
fn a_taken_name_is_a_conflict() {
    let mut service = TranscriptionService::new();
    service.create_job("talk".to_string()).unwrap();
    service.begin_job("talk");
    let stage = UploadStage::Saving { filename: "talk".to_string() };
    let answer = answer_of(step(&mut service, stage, UploadEvent::Saved));
    assert_eq!(answer, (409, error_text("Failed to create job: Job already exists")));
    assert_eq!(service.get_job_status("talk").unwrap().status, TranscriptionStatus::Processing);
}

#[test]
fn broken_audio_is_refused() {
    let mut service = TranscriptionService::new();
    let event = UploadEvent::AudioFailed { error: "gone".to_string() };
    let answer = answer_of(step(&mut service, reading(), event));
    assert_eq!(answer, (400, error_text("Failed to read audio data: gone")));
}

#[test]
fn a_sample_rate_is_checked() {
    let mut service = TranscriptionService::new();
    let mut rate = |text: &str| {
        step(&mut service, reading(), UploadEvent::SampleRate { text: text.to_string() })
    };
    assert_eq!(form_of(&rate("8000").0).sample_rate, 8000);
    assert_eq!(form_of(&rate("+192000").0).sample_rate, 192000);
    let range = (400, error_text("sample_rate must be between 8000 and 192000"));
    assert_eq!(answer_of(rate("7999")), range);
    assert_eq!(answer_of(rate("192001")), range);
    let number = (400, error_text("sample_rate must be a valid integer"));
    assert_eq!(answer_of(rate("fast")), number);
    assert_eq!(answer_of(rate(" 8000")), number);
    assert_eq!(answer_of(rate("4294967296")), number);
}

#[test]
fn a_wav_file_tells_its_sample_rate() {
    let mut service = TranscriptionService::new();
    let event = UploadEvent::SampleRate { text: "8000".to_string() };
    let (stage, _) = step(&mut service, reading(), event);
    let (stage, _) = step(&mut service, stage, audio(None, &[0, 1, 2]));
    assert_eq!(form_of(&stage).sample_rate, 8000);
    let (stage, _) = step(&mut service, stage, audio(None, &wav(44100, 16, &[1])));
    assert_eq!(form_of(&stage).sample_rate, 44100);
    let event = UploadEvent::SampleRate { text: "48000".to_string() };
    let (stage, _) = step(&mut service, stage, event);
    assert_eq!(form_of(&stage).sample_rate, 48000);
}

#[test]
fn a_deep_file_is_taken() {
    let mut service = TranscriptionService::new();
    let (stage, _) = step(&mut service, reading(), audio(None, &wav(16000, 32, &[-5])));
    match &form_of(&stage).audio {
        Some(UploadAudio::Pcm(audio)) => {
            assert_eq!(audio.samples, vec![-5]);
            assert_eq!(audio.full_scale, 2147483648);
        }
        other => panic!("{:?}", other),
    }
}

#[test]
fn a_file_that_is_too_deep_is_empty() {
    let mut service = TranscriptionService::new();
    let mut file = wav(16000, 32, &[1, 2]);
    file[38] = 40;
    let (stage, _) = step(&mut service, reading(), audio(None, &file));
    let (stage, _) = step(&mut service, stage, UploadEvent::EndOfForm);
    assert!(matches!(stage, UploadStage::Decoding { samples: Some(0), .. }));
    let answer = answer_of(step(&mut service, stage, UploadEvent::Decoded { samples: 0, now: 0 }));
    assert_eq!(answer, (400, error_text("Audio data is empty")));
}

#[test]
fn a_float_file_is_left_to_decode() {
    let spec = hound::WavSpec {
        channels: 1,
        sample_rate: 32000,
        bits_per_sample: 32,
        sample_format: hound::SampleFormat::Float,
    };
    let mut cursor = std::io::Cursor::new(Vec::new());
    let mut writer = hound::WavWriter::new(&mut cursor, spec).unwrap();
    writer.write_sample(0.25f32).unwrap();
    writer.finalize().unwrap();
    let file = cursor.into_inner();
    let mut service = TranscriptionService::new();
    let (stage, _) = step(&mut service, reading(), audio(None, &file));
    assert_eq!(form_of(&stage).sample_rate, 32000);
    let (_, action) = step(&mut service, stage, UploadEvent::EndOfForm);
    assert!(matches!(action, UploadAction::Decode(UploadAudio::FloatWav(data)) if data == file));
}

#[test]
fn an_upload_needs_audio() {
    let mut service = TranscriptionService::new();
    let answer = answer_of(step(&mut service, reading(), UploadEvent::EndOfForm));
    assert_eq!(answer, (400, error_text("No audio data provided")));
    let stage = UploadStage::Decoding { sample_rate: 8000, filename: Some("/".to_string()), samples: None };
    let event = UploadEvent::Decoded { samples: 0, now: 0 };
    let answer = answer_of(step(&mut service, stage, event));
    assert_eq!(answer, (400, error_text("Audio data is empty")));
}

#[test]
fn an_upload_needs_a_valid_name() {
    let mut service = TranscriptionService::new();
    let stage = UploadStage::Decoding { sample_rate: 16000, filename: Some("a/b".to_string()), samples: None };
    let event = UploadEvent::Decoded { samples: 1, now: 0 };
    let answer = answer_of(step(&mut service, stage, event));
    assert_eq!(
        answer,
        (400, error_text("Invalid filename: filename contains invalid characters"))
    );
}

#[test]
fn other_rates_are_resampled() {
    let mut service = TranscriptionService::new();
    let stage = UploadStage::Decoding { sample_rate: 48000, filename: Some("a".to_string()), samples: None };
    let event = UploadEvent::Decoded { samples: 5000, now: 0 };
    let (stage, action) = step(&mut service, stage, event);
    assert!(matches!(action, UploadAction::Resample { from: 48000 }));
    let (stage, action) = step(&mut service, stage, UploadEvent::Resampled { samples: 1000 });
    assert!(matches!(action, UploadAction::Save { filename } if filename == "a"));
    assert!(matches!(stage, UploadStage::Saving { filename } if filename == "a"));
}

#[test]
fn lengths_are_limited() {
    let mut service = TranscriptionService::new();
    let resampling = || UploadStage::Resampling { filename: "a".to_string() };
    let event = UploadEvent::Resampled { samples: 0 };
    let answer = answer_of(step(&mut service, resampling(), event));
    assert_eq!(answer, (400, error_text("Audio data is empty after preprocessing")));
    let event = UploadEvent::Resampled { samples: 1001 };
    let answer = answer_of(step(&mut service, resampling(), event));
    assert_eq!(answer, (413, error_text("Audio is too long (max 1000 samples at 16kHz)")));
    let stage = UploadStage::Decoding { sample_rate: 16000, filename: Some("a".to_string()), samples: None };
    let event = UploadEvent::Decoded { samples: 1001, now: 0 };
    assert_eq!(answer_of(step(&mut service, stage, event)).0, 413);
}

#[test]
fn audio_that_cannot_be_stored_is_an_internal_error() {
    let mut service = TranscriptionService::new();
    let stage = UploadStage::Saving { filename: "a".to_string() };
    let event = UploadEvent::SaveFailed { error: "disk full".to_string() };
    let answer = answer_of(step(&mut service, stage, event));
    assert_eq!(answer, (500, error_text("Failed to save audio file: disk full")));
    assert!(service.get_job_status("a").is_none());
}
