//! Requests for synthesized speech and their responses.

use openab_core::tts::{
    append_bounded, check_content_length, normalized_base_url, speech_request, validate_wav,
    TtsConfig, TtsError, MAX_TTS_AUDIO_BYTES,
};

fn enabled_config(base_url: String) -> TtsConfig {
    TtsConfig {
        enabled: true,
        api_key: "test-secret".into(),
        base_url,
        instructions: Some(" Speak briefly. ".into()),
        ..TtsConfig::default()
    }
}

#[test]
fn posts_explicit_wav_request_and_returns_audio() {
    let wav = b"RIFF\x04\x00\x00\x00WAVEdata";
    let cfg = enabled_config("http://127.0.0.1:8080/v1".into());

    let request = speech_request(&cfg, "確認嗎？", MAX_TTS_AUDIO_BYTES).unwrap();
    assert_eq!(request.url, "http://127.0.0.1:8080/v1/audio/speech");
    assert_eq!(request.bearer_token, "test-secret");
    assert_eq!(request.model, "gpt-4o-mini-tts");
    assert_eq!(request.voice, "marin");
    assert_eq!(request.input, "確認嗎？");
    assert_eq!(request.response_format, "wav");
    assert_eq!(request.instructions.as_deref(), Some("Speak briefly."));

    let mut body = Vec::new();
    append_bounded(&mut body, &wav[..7], MAX_TTS_AUDIO_BYTES).unwrap();
    append_bounded(&mut body, &wav[7..], MAX_TTS_AUDIO_BYTES).unwrap();
    validate_wav(&body).unwrap();
    assert_eq!(body, wav);
}

#[test]
fn rejects_non_wav_response() {
    let error = validate_wav(b"not audio data").unwrap_err();
    assert!(error.message().contains("RIFF/WAVE"));
}

#[test]
fn rejects_response_over_limit() {
    let wav = b"RIFF\x04\x00\x00\x00WAVEdata";
    let error = check_content_length(Some(wav.len() as u64), 12).unwrap_err();
    assert!(error.message().contains("exceeds 12 byte limit"));
    let mut body = Vec::new();
    let error = append_bounded(&mut body, wav, 12).unwrap_err();
    assert!(error.message().contains("exceeds 12 byte limit"));
    assert!(body.is_empty());
}

#[test]
fn rejects_disabled_configuration_before_request() {
    let error = speech_request(&TtsConfig::default(), "hello", MAX_TTS_AUDIO_BYTES).unwrap_err();
    assert_eq!(error.message(), "TTS is disabled");
}

#[test]
fn incomplete_configurations_are_named() {
    let cfg = || enabled_config("http://host/v1".into());
    let refused = |cfg: TtsConfig, input: &str, limit: usize| {
        speech_request(&cfg, input, limit).unwrap_err()
    };
    assert_eq!(
        refused(TtsConfig { api_key: " ".into(), ..cfg() }, "hi", 100),
        TtsError::EmptyApiKey
    );
    assert_eq!(
        refused(TtsConfig { model: "".into(), ..cfg() }, "hi", 100),
        TtsError::EmptyModel
    );
    assert_eq!(
        refused(TtsConfig { voice: "".into(), ..cfg() }, "hi", 100),
        TtsError::EmptyVoice
    );
    assert_eq!(refused(cfg(), " \n", 100), TtsError::EmptyInput);
    assert_eq!(
        refused(TtsConfig { request_timeout_seconds: 0, ..cfg() }, "hi", 100),
        TtsError::ZeroTimeout
    );
    assert_eq!(refused(cfg(), "hi", 11), TtsError::LimitTooSmall);
    assert_eq!(
        refused(TtsConfig { base_url: " // ".into(), ..cfg() }, "hi", 100),
        TtsError::EmptyBaseUrl
    );
    assert!(cfg().is_available());
    assert!(!TtsConfig::default().is_available());
    assert_eq!(normalized_base_url(" http://host/v1// "), "http://host/v1");
    assert_eq!(check_content_length(None, 12), Ok(()));
}
