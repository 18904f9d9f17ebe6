use whisper_server_http::config::{
    max_audio_samples, server_port, vad_model_path, whisper_model_path, SampleLimit,
};
use whisper_server_http::text::{chars_of, decimal_text, parse_decimal, same_text, trim};

#[test]
fn trim_matches_std_for_every_character() {
    for code in 0..0x110000u32 {
        if let Some(c) = char::from_u32(code) {
            let text = format!("{}x{}", c, c);
            assert_eq!(trim(&text), text.trim(), "{:x}", code);
        }
    }
}

#[test]
fn trim_keeps_white_space_inside() {
    assert_eq!(trim(" \t\n a b \u{3000}"), "a b");
    assert_eq!(trim(""), "");
    assert_eq!(trim(" \r\n "), "");
}

#[test]
fn parse_decimal_matches_std() {
    let texts = [
        "", "0", "7", "007", "+8", "++8", "-1", "-0", "+", "-", " 1", "1 ", "1_000", "4294967295",
        "4294967296", "18446744073709551615", "18446744073709551616", "0x10", "１", "16000",
        "00000000000000000000000000000000012",
    ];
    for text in texts {
        let narrow = text.parse::<u32>().ok().map(|n| n as u64);
        assert_eq!(parse_decimal(text, u32::MAX as u64), narrow, "{}", text);
        assert_eq!(parse_decimal(text, u64::MAX), text.parse::<u64>().ok(), "{}", text);
        let port = text.parse::<u16>().ok().map(|n| n as u64);
        assert_eq!(parse_decimal(text, u16::MAX as u64), port, "{}", text);
    }
}

#[test]
fn decimal_text_reads_back() {
    for n in [0, 9, 10, 128, 28800000, u64::MAX] {
        assert_eq!(decimal_text(n), n.to_string());
        assert_eq!(parse_decimal(&decimal_text(n), u64::MAX), Some(n));
    }
}

#[test]
fn texts_are_told_apart() {
    assert!(same_text("あ", "あ"));
    assert!(!same_text("あ", "い"));
    assert!(!same_text("a", "ab"));
    assert_eq!(chars_of("aあ"), vec!['a', 'あ']);
}

#[test]
fn port_comes_from_the_environment() {
    assert_eq!(server_port(None), 3000);
    assert_eq!(server_port(Some("8080")), 8080);
    assert_eq!(server_port(Some("0")), 0);
    assert_eq!(server_port(Some("65536")), 3000);
    assert_eq!(server_port(Some(" 8080")), 3000);
    assert_eq!(server_port(Some("http")), 3000);
}

#[test]
fn sample_limit_comes_from_the_environment() {
    assert_eq!(max_audio_samples(None), 28800000);
    assert_eq!(max_audio_samples(Some("57600000")), 57600000);
    assert_eq!(max_audio_samples(Some(" 57600000\n")), 57600000);
    assert_eq!(max_audio_samples(Some("0")), 28800000);
    assert_eq!(max_audio_samples(Some("-5")), 28800000);
    assert_eq!(max_audio_samples(Some("many")), 28800000);
    assert_eq!(max_audio_samples(Some("1")), 1);
}

#[test]
fn model_paths_have_defaults() {
    assert_eq!(whisper_model_path(None), "./models/ggml-base.bin");
    assert_eq!(whisper_model_path(Some("m.bin".to_string())), "m.bin");
    assert_eq!(vad_model_path(None), "./models/silero_vad.onnx");
    assert_eq!(vad_model_path(Some("".to_string())), "");
}

#[test]
fn sample_limit_is_read_once() {
    let mut limit = SampleLimit::new();
    assert_eq!(limit.get(Some(" 5 ")), 5);
    assert_eq!(limit.get(Some("6")), 5);
    assert_eq!(limit.get(None), 5);
    let mut limit = SampleLimit::new();
    assert_eq!(limit.get(None), 28800000);
    assert_eq!(limit.get(Some("6")), 28800000);
}
