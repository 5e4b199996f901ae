use std::collections::HashMap;

use screenpipe_audio::engines::{
    join_segments, mel_filter_bank, parse_api_headers, plan_engines, rest_payload_field,
    rest_resample_rate, EnginePlan,
    MelFilterBank, UploadFormat, DEEPGRAM_LISTEN_URL,
};
use screenpipe_audio::json::{
    deepgram_transcript, rest_json_transcript, rest_response_body, Json, ResponseBody,
};
use screenpipe_audio::stt::SampleFormat;
use screenpipe_audio::{AudioTranscriptionEngine, CandleWhisperModel, DeepgramEngine, RestPipeEngine, SttError};

fn obj(members: Vec<(&str, Json)>) -> Json {
    Json::Object(members.into_iter().map(|(k, v)| (k.to_string(), v)).collect())
}

fn s(t: &str) -> Json {
    Json::Str(t.to_string())
}

#[test]
fn deepgram_engine_headers() {
    let e = DeepgramEngine::new("abc123".to_string());
    assert_eq!(e.api_key(), "abc123");
    assert_eq!(e.authorization(), "Token abc123");
    assert_eq!(e.wav_format(), SampleFormat::F32);
    assert_eq!(
        DEEPGRAM_LISTEN_URL,
        "https://api.deepgram.com/v1/listen?model=nova-2&smart_format=true"
    );
}

#[test]
fn deepgram_answers() {
    let answer = obj(vec![(
        "results",
        obj(vec![(
            "channels",
            Json::Array(vec![obj(vec![(
                "alternatives",
                Json::Array(vec![obj(vec![
                    ("confidence", Json::Number("0.9".to_string())),
                    ("transcript", s("hello there")),
                ])]),
            )])]),
        )]),
    )]);
    assert_eq!(deepgram_transcript(&answer), Ok("hello there".to_string()));
    let failed = obj(vec![("err_code", s("INVALID_AUTH")), ("err_msg", s("bad key"))]);
    assert_eq!(deepgram_transcript(&failed), Err(SttError::ServiceError));
    assert_eq!(deepgram_transcript(&obj(vec![])), Ok(String::new()));
    assert_eq!(deepgram_transcript(&Json::Null), Ok(String::new()));
}

#[test]
fn rest_answers() {
    assert_eq!(rest_response_body(200, Some("application/json; charset=utf-8")), Ok(ResponseBody::Json));
    assert_eq!(rest_response_body(200, Some("text/plain")), Ok(ResponseBody::PlainText));
    assert_eq!(rest_response_body(200, None), Ok(ResponseBody::PlainText));
    assert_eq!(rest_response_body(500, Some("application/json")), Err(SttError::HttpStatus(500)));
    assert_eq!(rest_json_transcript(&obj(vec![("text", s(" hi "))])), Ok(" hi ".to_string()));
    assert_eq!(rest_json_transcript(&obj(vec![("result", s("hi"))])), Err(SttError::MissingText));
    assert_eq!(rest_json_transcript(&obj(vec![("text", Json::Bool(true))])), Err(SttError::MissingText));
}

#[test]
fn rest_engine_upload() {
    let mut headers = HashMap::new();
    headers.insert("X-Key".to_string(), "v".to_string());
    let e = RestPipeEngine::new(
        "http://localhost:5000/inference".to_string(),
        headers.clone(),
        Some(rest_payload_field()),
        Some(16000),
    );
    assert_eq!(e.url(), "http://localhost:5000/inference");
    assert_eq!(e.headers(), &headers);
    assert_eq!(e.payload_field().as_deref(), Some("file"));
    assert_eq!(e.wav_format(), SampleFormat::I16);
    assert_eq!(
        e.upload_format(44100, 2),
        UploadFormat { resample_to: Some(16000), sample_rate: 16000, channels: 1 }
    );
    assert_eq!(
        e.upload_format(16000, 2),
        UploadFormat { resample_to: None, sample_rate: 16000, channels: 2 }
    );
    let raw = RestPipeEngine::new("u".to_string(), HashMap::new(), None, None);
    assert_eq!(
        raw.upload_format(48000, 2),
        UploadFormat { resample_to: None, sample_rate: 48000, channels: 2 }
    );
}

#[test]
fn api_header_list() {
    let h = parse_api_headers("Authorization: Bearer x; X-Id :  42 ;bad; a:b:c; ;K:");
    assert_eq!(
        h,
        vec![
            ("Authorization".to_string(), "Bearer x".to_string()),
            ("X-Id".to_string(), "42".to_string()),
            ("K".to_string(), "".to_string()),
        ]
    );
    assert_eq!(parse_api_headers(""), vec![]);
}

#[test]
fn engine_choice() {
    assert_eq!(
        plan_engines(None, false, false),
        EnginePlan { primary: AudioTranscriptionEngine::WhisperTiny, fallback: None }
    );
    assert_eq!(
        plan_engines(Some(CandleWhisperModel::DistillLarge), false, false),
        EnginePlan { primary: AudioTranscriptionEngine::WhisperDistilLargeV3, fallback: None }
    );
    assert_eq!(
        plan_engines(Some(CandleWhisperModel::Tiny), true, true),
        EnginePlan {
            primary: AudioTranscriptionEngine::Deepgram,
            fallback: Some(AudioTranscriptionEngine::WhisperTiny)
        }
    );
    assert_eq!(
        plan_engines(None, true, false),
        EnginePlan { primary: AudioTranscriptionEngine::RestPipe, fallback: None }
    );
}

#[test]
fn engine_names_and_models() {
    assert_eq!(AudioTranscriptionEngine::default(), AudioTranscriptionEngine::WhisperTiny);
    assert_eq!(AudioTranscriptionEngine::WhisperDistilLargeV3.name(), "WhisperLarge");
    assert_eq!(AudioTranscriptionEngine::RestPipe.name(), "RestPipe");
    assert_eq!(AudioTranscriptionEngine::Deepgram.local_model(), None);
    assert_eq!(
        AudioTranscriptionEngine::WhisperDistilLargeV3.local_model(),
        Some(CandleWhisperModel::DistillLarge)
    );
    assert_eq!(
        AudioTranscriptionEngine::WhisperDistilLargeV3.model_repo(),
        ("distil-whisper/distil-large-v3", "main")
    );
    assert_eq!(AudioTranscriptionEngine::Deepgram.model_repo(), ("openai/whisper-tiny", "main"));
    assert_eq!(CandleWhisperModel::Tiny.engine(), AudioTranscriptionEngine::WhisperTiny);
}

#[test]
fn mel_banks() {
    assert_eq!(mel_filter_bank(80), Ok(MelFilterBank::Bins80));
    assert_eq!(mel_filter_bank(128), Ok(MelFilterBank::Bins128));
    assert_eq!(mel_filter_bank(64), Err(SttError::UnexpectedMelBins(64)));
}

#[test]
fn rest_target_rate_is_speech_rate() {
    assert_eq!(rest_resample_rate(), Some(16000));
}

#[test]
fn whisper_segments_join_with_newlines() {
    assert_eq!(join_segments(&vec![]), "");
    assert_eq!(join_segments(&vec!["one".to_string()]), "one");
    assert_eq!(
        join_segments(&vec!["one".to_string(), "".to_string(), "three".to_string()]),
        "one\n\nthree"
    );
}
