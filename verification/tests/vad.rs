use whisper_server_http::services::vad::layout::{
    infer_input_layout, normalize_shape, ElementType, TensorInput,
};
use whisper_server_http::services::vad::segments::{segments_of_windows, SpeechSegment};
use whisper_server_http::services::vad::windows::{fit, sizes_for, VadRun};
use whisper_server_http::services::vad::VadService;

fn input(name: &str, element: ElementType, shape: &[i64]) -> TensorInput {
    TensorInput { name: name.to_string(), element, shape: shape.to_vec() }
}

fn silero() -> Vec<TensorInput> {
    vec![
        input("input", ElementType::Float32, &[-1, 576]),
        input("h", ElementType::Float32, &[2, -1, 128]),
        input("c", ElementType::Float32, &[2, -1, 128]),
        input("sr", ElementType::Int64, &[]),
    ]
}

fn windows(runs: &[(bool, usize)]) -> Vec<bool> {
    let mut r = Vec::new();
    for &(speech, count) in runs {
        for _ in 0..count {
            r.push(speech);
        }
    }
    r
}

fn found(runs: &[(bool, usize)]) -> Vec<(usize, usize)> {
    segments_of_windows(&windows(runs), 16000, 512)
        .iter()
        .map(|segment| (segment.start, segment.end))
        .collect()
}

#[test]
fn shapes_are_made_concrete() {
    assert_eq!(normalize_shape(&vec![]), vec![1]);
    assert_eq!(normalize_shape(&vec![2, -1, 0, 128]), vec![2, 1, 1, 128]);
}

#[test]
fn layout_of_a_recurrent_model() {
    let layout = infer_input_layout(&silero()).unwrap();
    assert_eq!(layout.audio_input, "input");
    assert_eq!(layout.audio_input_samples, Some(576));
    assert_eq!(layout.sample_rate_input, Some("sr".to_string()));
    assert_eq!(layout.state_inputs.len(), 2);
    assert_eq!(layout.state_inputs[0].name, "h");
    assert_eq!(layout.state_inputs[0].shape, vec![2, 1, 128]);
    assert_eq!(layout.state_inputs[0].len, 256);
    assert_eq!(layout.state_inputs[1].name, "c");
}

#[test]
fn audio_input_is_the_first_flat_one() {
    let layout = infer_input_layout(&vec![
        input("state", ElementType::Float32, &[2, 1, 64]),
        input("mask", ElementType::Other, &[1]),
        input("audio", ElementType::Float32, &[512]),
        input("extra", ElementType::Float32, &[4]),
    ])
    .unwrap();
    assert_eq!(layout.audio_input, "audio");
    assert_eq!(layout.audio_input_samples, Some(512));
    assert_eq!(layout.sample_rate_input, None);
    let names: Vec<&str> = layout.state_inputs.iter().map(|s| s.name.as_str()).collect();
    assert_eq!(names, vec!["state", "extra"]);
}

#[test]
fn audio_input_may_be_deep_where_nothing_else_is_there() {
    let layout = infer_input_layout(&vec![
        input("a", ElementType::Float32, &[1, 1, 512]),
        input("b", ElementType::Float32, &[i64::MAX, i64::MAX, 4]),
    ])
    .unwrap();
    assert_eq!(layout.audio_input, "a");
    assert_eq!(layout.audio_input_samples, Some(1));
    assert_eq!(layout.state_inputs[0].len, usize::MAX);
}

#[test]
fn open_lengths_are_unknown() {
    let layout = infer_input_layout(&vec![input("a", ElementType::Float32, &[-1, -1])]).unwrap();
    assert_eq!(layout.audio_input_samples, None);
    let layout = infer_input_layout(&vec![input("a", ElementType::Float32, &[])]).unwrap();
    assert_eq!(layout.audio_input_samples, None);
}

#[test]
fn models_without_float_inputs_are_refused() {
    let error = VadService::new(&vec![input("sr", ElementType::Int64, &[1])]).unwrap_err();
    assert_eq!(error, "VAD model has no float32 input tensor");
    assert!(VadService::new(&vec![]).is_err());
}

#[test]
fn window_and_context_follow_the_input_length() {
    assert_eq!(sizes_for(Some(576)), (512, 64));
    assert_eq!(sizes_for(Some(512)), (512, 0));
    assert_eq!(sizes_for(Some(256)), (256, 0));
    assert_eq!(sizes_for(Some(0)), (512, 0));
    assert_eq!(sizes_for(None), (512, 0));
}

#[test]
fn context_continues_from_window_to_window() {
    let audio: Vec<u32> = (1..=10).collect();
    let mut run = VadRun::new(4, 2, vec![], 0u32);
    let mut seen = Vec::new();
    while let Some(input) = run.next_input(&audio, 0) {
        run.accept(&input, false, &vec![], 0);
        seen.push(input);
    }
    assert_eq!(
        seen,
        vec![vec![0, 0, 1, 2, 3, 4], vec![3, 4, 5, 6, 7, 8], vec![7, 8, 9, 10, 0, 0]]
    );
    assert_eq!(run.speech.len(), 3);
}

#[test]
fn no_audio_has_no_windows() {
    let run = VadRun::new(512, 64, vec![3], 0u8);
    assert_eq!(run.next_input(&[], 0), None);
    assert_eq!(run.states, vec![vec![0, 0, 0]]);
}

#[test]
fn states_are_carried_on() {
    let audio = [1i32; 8];
    let mut run = VadRun::new(2, 0, vec![3, 2], 0i32);
    let first = run.next_input(&audio, 0).unwrap();
    run.accept(&first, true, &vec![vec![7, 8, 9], vec![5, 6]], 0);
    assert_eq!(run.states, vec![vec![7, 8, 9], vec![5, 6]]);
    let second = run.next_input(&audio, 0).unwrap();
    run.accept(&second, false, &vec![vec![1]], 0);
    assert_eq!(run.states, vec![vec![1, 0, 0], vec![5, 6]]);
    let third = run.next_input(&audio, 0).unwrap();
    run.accept(&third, true, &vec![vec![1, 2, 3, 4], vec![], vec![9]], 0);
    assert_eq!(run.states, vec![vec![1, 2, 3], vec![0, 0]]);
    assert_eq!(run.speech, vec![true, false, true]);
}

#[test]
fn rows_are_fitted() {
    assert_eq!(fit(&vec![1, 2, 3], 2, 0), vec![1, 2]);
    assert_eq!(fit(&vec![1], 3, 0), vec![1, 0, 0]);
}

#[test]
fn a_detector_starts_with_the_sizes_of_its_model() {
    let vad = VadService::new(&silero()).unwrap();
    let run = vad.process_audio(0.0f32);
    assert_eq!(run.window_size, 512);
    assert_eq!(run.context, vec![0.0f32; 64]);
    assert_eq!(run.state_lens, vec![256, 256]);
    assert_eq!(run.states[1], vec![0.0f32; 256]);
}

#[test]
fn silence_has_no_segments() {
    assert_eq!(found(&[]), vec![]);
    assert_eq!(found(&[(false, 50)]), vec![]);
}

#[test]
fn a_segment_covers_its_run_and_the_padding() {
    let segments = found(&[(false, 10), (true, 20), (false, 10)]);
    assert_eq!(segments, vec![(10 * 512 - 480, 30 * 512 + 480)]);
    let seconds = (segments[0].0 as f64 / 16000.0, segments[0].1 as f64 / 16000.0);
    assert!(seconds.0 <= 0.29 + 1e-9 && seconds.1 >= 0.99 - 1e-9);
}

#[test]
fn short_speech_is_dropped() {
    assert_eq!(found(&[(false, 3), (true, 7)]), vec![]);
    assert_eq!(found(&[(false, 3), (true, 7), (false, 10)]), vec![]);
    assert_eq!(found(&[(false, 3), (true, 8)]), vec![(3 * 512 - 480, 11 * 512)]);
    assert_eq!(found(&[(false, 3), (true, 8), (false, 10)]), vec![(1056, 6112)]);
    let exact = segments_of_windows(&windows(&[(true, 25), (false, 25)]), 16000, 160);
    assert_eq!(exact, vec![SpeechSegment { start: 0, end: 4480 }]);
    assert_eq!(segments_of_windows(&windows(&[(true, 24), (false, 25)]), 16000, 160), vec![]);
}

#[test]
fn speech_lasts_to_the_end_of_the_audio() {
    assert_eq!(found(&[(true, 8)]), vec![(0, 8 * 512)]);
    assert_eq!(found(&[(true, 8), (false, 3)]), vec![(0, 11 * 512)]);
    assert_eq!(found(&[(true, 8), (false, 4)]), vec![(0, 8 * 512 + 480)]);
}

#[test]
fn short_gaps_are_bridged() {
    let segments = found(&[(true, 10), (false, 3), (true, 10)]);
    assert_eq!(segments, vec![(0, 11776)]);
    assert_eq!(segments[0].1 as f64 / 16000.0, 0.736);
    assert_eq!(
        found(&[(true, 10), (false, 4), (true, 10)]),
        vec![(0, 10 * 512 + 480), (14 * 512 - 480, 24 * 512)]
    );
    let exact = segments_of_windows(&windows(&[(true, 30), (false, 10), (true, 30)]), 16000, 160);
    assert_eq!(exact, vec![SpeechSegment { start: 0, end: 70 * 160 }]);
    let longer = segments_of_windows(&windows(&[(true, 30), (false, 11), (true, 30)]), 16000, 160);
    assert_eq!(longer.len(), 2);
    let exact = segments_of_windows(&windows(&[(true, 10), (false, 4), (true, 10)]), 16000, 400);
    assert_eq!(exact, vec![SpeechSegment { start: 0, end: 24 * 400 }]);
}

#[test]
fn padding_ends_with_the_audio() {
    let speech = windows(&[(false, 1), (true, 40), (false, 11)]);
    let segments = segments_of_windows(&speech, 16000, 160);
    assert_eq!(segments, vec![SpeechSegment { start: 0, end: 44 * 160 }]);
    let segments = segments_of_windows(&windows(&[(true, 1), (false, 1)]), 16000, 6000);
    assert_eq!(segments, vec![SpeechSegment { start: 0, end: 6480 }]);
    let segments = segments_of_windows(&windows(&[(true, 20), (false, 1)]), 1000, 101);
    assert_eq!(segments, vec![SpeechSegment { start: 0, end: 2050 }]);
}

fn noise(share: u32) -> Vec<bool> {
    let mut speech = Vec::new();
    let mut seed: u32 = 7;
    for i in 0..4000u32 {
        seed = seed.wrapping_mul(1664525).wrapping_add(1013904223);
        speech.push((seed >> 24) % 16 < share + (i / 100) % 3);
    }
    speech
}

#[test]
fn segments_come_in_order_and_apart() {
    for window in [8, 160, 512, 4000] {
        let speech = noise(5);
        let segments = segments_of_windows(&speech, 16000, window);
        for (i, segment) in segments.iter().enumerate() {
            assert!(segment.start <= segment.end && segment.end <= speech.len() * window);
            assert!((segment.end - segment.start) * 1000 >= 250 * 16000);
            if i > 0 {
                assert!(segments[i - 1].end <= segment.start);
            }
        }
    }
    assert!(segments_of_windows(&noise(5), 16000, 512).len() > 1);
}

#[test]
fn more_speech_finds_no_less() {
    for window in [160, 512, 4000] {
        let less = segments_of_windows(&noise(4), 16000, window);
        let more = segments_of_windows(&noise(7), 16000, window);
        for segment in less {
            assert!(more.iter().any(|m| m.start <= segment.start && segment.end <= m.end));
        }
    }
}

#[test]
fn long_speech_is_always_covered() {
    let speech = noise(6);
    let segments = segments_of_windows(&speech, 16000, 1600);
    let mut start = 0;
    for i in 0..=speech.len() {
        if i == speech.len() || !speech[i] {
            if i >= start + 3 {
                assert!(segments.iter().any(|s| s.start <= start * 1600 && i * 1600 <= s.end));
            }
            start = i + 1;
        }
    }
}

fn loud(input: &Vec<i32>, _: &Vec<Vec<i32>>) -> Result<(bool, Vec<Vec<i32>>), String> {
    Ok((input.iter().any(|&sample| sample > 5), vec![]))
}

fn unchanged(audio: &[i32], _: usize) -> Vec<i32> {
    audio.to_vec()
}

#[test]
fn a_detector_uses_the_window_of_its_model() {
    let vad = VadService::new(&silero()).unwrap();
    let mut audio = vec![0; 93 * 512];
    for i in 10 * 512..88 * 512 {
        audio[i] = 9;
    }
    let segments = vad.detect_speech_segments(&audio, 16000, 0, unchanged, loud).unwrap();
    // The context carries the speech into one more window.
    assert_eq!(segments, vec![SpeechSegment { start: 4640, end: 89 * 512 + 480 }]);
    let again = vad.detect_speech_segments(&audio, 16000, 0, unchanged, loud).unwrap();
    assert_eq!(again, segments);
}

#[test]
fn a_detector_resamples_first() {
    let vad = VadService::new(&silero()).unwrap();
    let twice = |audio: &[i32], rate: usize| {
        assert_eq!(rate, 8000);
        audio.iter().flat_map(|&sample| [sample, sample]).collect::<Vec<i32>>()
    };
    let mut audio = vec![0; 10000];
    for i in 2000..8000 {
        audio[i] = 9;
    }
    let segments = vad.detect_speech_segments(&audio, 8000, 0, twice, loud).unwrap();
    let at_16k = twice(&audio, 8000);
    assert_eq!(
        vad.detect_speech_segments(&at_16k, 16000, 0, unchanged, loud).unwrap(),
        segments
    );
    assert_eq!(segments.len(), 1);
}

#[test]
fn no_audio_holds_no_speech() {
    let vad = VadService::new(&silero()).unwrap();
    assert_eq!(vad.detect_speech_segments(&[], 16000, 0, unchanged, loud), Ok(vec![]));
    let never = |_: &Vec<i32>, _: &Vec<Vec<i32>>| Err("asked".to_string());
    assert_eq!(vad.detect_speech_segments(&[], 16000, 0, unchanged, never), Ok(vec![]));
    let none = |_: &[i32], _: usize| Vec::new();
    assert_eq!(vad.detect_speech_segments(&[9; 9000], 8000, 0, none, loud), Ok(vec![]));
}

#[test]
fn a_failing_model_finds_nothing() {
    let vad = VadService::new(&silero()).unwrap();
    let failing = |input: &Vec<i32>, states: &Vec<Vec<i32>>| {
        if states[0][0] == 20 {
            Err("window 20".to_string())
        } else {
            let next = vec![states[0][0] + 1];
            loud(input, states).map(|(speech, _)| (speech, vec![next]))
        }
    };
    let audio = vec![9; 40 * 512];
    let r = vad.detect_speech_segments(&audio, 16000, 0, unchanged, failing);
    assert_eq!(r, Err("window 20".to_string()));
    let short = vec![9; 20 * 512];
    let r = vad.detect_speech_segments(&short, 16000, 0, unchanged, failing);
    assert_eq!(r, Ok(vec![SpeechSegment { start: 0, end: 20 * 512 }]));
}

#[test]
fn only_speech_is_extracted() {
    let audio: Vec<u8> = (0..20).collect();
    let segments = vec![
        SpeechSegment { start: 2, end: 5 },
        SpeechSegment { start: 9, end: 9 },
        SpeechSegment { start: 18, end: 30 },
        SpeechSegment { start: 25, end: 30 },
    ];
    let speech = VadService::extract_speech_audio(&audio, &segments, 16000);
    assert_eq!(speech, vec![2, 3, 4, 18, 19]);
    let speech = VadService::extract_speech_audio(&audio, &segments, 8000);
    assert_eq!(speech, vec![1, 9, 10, 11, 12, 13, 14, 12, 13, 14]);
    assert_eq!(VadService::extract_speech_audio(&audio, &vec![], 16000), Vec::<u8>::new());
}
