use screenpipe_audio::control::{
    drain_budget_ms, drain_continues, recorder_action, transcription_payload, LoopControl,
    RecorderAction, TranscriptCollector,
};
use screenpipe_audio::stt::{
    fallback_outcome, get_wav_format, no_speech_message, primary_outcome, recording_file_name,
    recording_file_name_at, sanitize_device_name, stt_format, transcription_result, SampleFormat,
    WavEncoding, WavSampleKind,
};
use screenpipe_audio::vad::{frame_count_of, speech_only};
use screenpipe_audio::{
    chunk_sample_count, AudioDevice, AudioInput, ChunkBuffer, ChunkQueue, DeviceType,
    RecordingState, StateBus, SttError, SttOutcome,
};

fn frame_verdicts(samples: &[f32], voiced: impl Fn(&[f32]) -> bool) -> Vec<Option<bool>> {
    samples.chunks(160).map(|f| Some(voiced(f))).collect()
}

#[test]
fn chunk_size_is_rate_times_channels_times_seconds() {
    assert_eq!(chunk_sample_count(5, 44100, 2), Some(441000));
    assert_eq!(chunk_sample_count(1, 16000, 1), Some(16000));
    assert_eq!(chunk_sample_count(0, 16000, 1), None);
    assert_eq!(chunk_sample_count(5, 44100, 0), None);
    assert_eq!(chunk_sample_count(u64::MAX, u32::MAX, 2), None);
}

#[test]
fn chunks_are_exact_and_in_order() {
    let mut buf: ChunkBuffer<i32> = ChunkBuffer::new(4).unwrap();
    assert!(ChunkBuffer::<i32>::new(0).is_none());
    assert!(buf.push(&[1, 2, 3]).is_empty());
    assert_eq!(buf.pending_len(), 3);
    let out = buf.push(&[4, 5, 6, 7, 8, 9, 10]);
    assert_eq!(out, vec![vec![1, 2, 3, 4], vec![5, 6, 7, 8]]);
    assert_eq!(buf.pending_len(), 2);
    let out = buf.push(&[11, 12]);
    assert_eq!(out, vec![vec![9, 10, 11, 12]]);
    assert_eq!(buf.pending_len(), 0);
    assert_eq!(buf.chunk_len(), 4);
}

#[test]
fn float_chunks_of_one_second_stereo() {
    let len = chunk_sample_count(1, 8, 2).unwrap();
    let mut buf: ChunkBuffer<f32> = ChunkBuffer::new(len).unwrap();
    let samples: Vec<f32> = (0..40).map(|i| i as f32 / 40.0).collect();
    let out = buf.push(&samples);
    assert_eq!(out.len(), 2);
    assert!(out.iter().all(|c| c.len() == 16));
    assert_eq!(buf.pending_len(), 8);
}

#[test]
fn queue_drops_oldest_when_full() {
    let mut q: ChunkQueue<u8> = ChunkQueue::new(2).unwrap();
    assert!(ChunkQueue::<u8>::new(0).is_none());
    assert!(q.is_empty());
    assert_eq!(q.push(1), None);
    assert_eq!(q.push(2), None);
    assert_eq!(q.push(3), Some(1));
    assert_eq!(q.len(), 2);
    assert_eq!(q.pop(), Some(2));
    assert_eq!(q.pop(), Some(3));
    assert_eq!(q.pop(), None);
}

#[test]
fn pause_resume_scenario() {
    // One chunk of captured audio per second; the recorder reacts to the
    // bus at each second and the capture side keeps at most one chunk.
    let mut bus = StateBus::new();
    assert!(bus.publish(RecordingState::Recording));
    let mut queue: ChunkQueue<u32> = ChunkQueue::new(1).unwrap();
    let mut sent: Vec<u32> = Vec::new();
    let plan = [
        (1u32, Some(RecordingState::RecordingPaused)),
        (2, Some(RecordingState::Recording)),
        (3, Some(RecordingState::RecordingFinished)),
    ];
    let mut sent_while_paused = 0;
    for (second, next) in plan {
        queue.push(second);
        let before = sent.len();
        let paused = bus.current() == RecordingState::RecordingPaused;
        match recorder_action(bus.current()) {
            RecorderAction::Forward => {
                while let Some(c) = queue.pop() {
                    sent.push(c);
                }
            }
            RecorderAction::Hold => {}
            RecorderAction::Exit => break,
        }
        if paused {
            sent_while_paused += sent.len() - before;
        }
        if let Some(s) = next {
            assert!(bus.publish(s));
        }
    }
    assert_eq!(sent_while_paused, 0);
    assert_eq!(sent, vec![1, 3]);
    assert_eq!(recorder_action(bus.current()), RecorderAction::Exit);
}

#[test]
fn frames_are_ten_milliseconds() {
    assert_eq!(frame_count_of(0), 0);
    assert_eq!(frame_count_of(160), 1);
    assert_eq!(frame_count_of(161), 2);
    assert_eq!(frame_count_of(48000), 300);
}

#[test]
fn vad_keeps_voiced_frames_only() {
    let samples: Vec<u16> = (0..400).collect();
    let verdicts = vec![Some(false), Some(true), None];
    let speech = speech_only(&samples, &verdicts).unwrap();
    assert_eq!(speech, (160..320).collect::<Vec<u16>>());
    let verdicts = vec![Some(true), Some(false), Some(true)];
    let speech = speech_only(&samples, &verdicts).unwrap();
    assert_eq!(speech.len(), 160 + 80);
    assert_eq!(speech[160], 320);
}

#[test]
fn silence_scenario() {
    let samples = vec![0.0f32; 3 * 16000];
    let fmt = stt_format(16000, 1);
    assert!(!fmt.resample);
    let verdicts = frame_verdicts(&samples, |f| f.iter().any(|x| x.abs() > 0.01));
    assert_eq!(verdicts.len(), 300);
    assert_eq!(speech_only(&samples, &verdicts), Err(SttError::NoSpeech));

    let mut bus = StateBus::new();
    assert!(bus.publish(RecordingState::Recording));
    let input = AudioInput::new(samples, 16000, 1, "Mic 1 (input)".to_string());
    let (result, publish) = transcription_result(input, SttOutcome::NoSpeech, None, 1700000000);
    assert_eq!(result.transcription, None);
    assert!(result.error.as_ref().unwrap().contains("no speech"));
    assert_eq!(result.input.device, "Mic 1 (input)");
    assert_eq!(result.timestamp, 1700000000);
    assert_eq!(publish, Some(RecordingState::RecordingFinished));
    assert!(bus.publish(publish.unwrap()));
    assert_eq!(bus.current(), RecordingState::RecordingFinished);
}

#[test]
fn happy_path_scenario() {
    let device = AudioDevice::new("Mic 1".to_string(), DeviceType::Input);
    let samples: Vec<f32> = (0..5 * 44100 * 2).map(|i| ((i % 100) as f32 - 50.0) / 100.0).collect();
    let input = AudioInput::from_chunk(samples, &device, 44100, 2);
    let fmt = stt_format(input.sample_rate, input.channels);
    assert!(fmt.resample);
    assert_eq!(fmt.channels, 1);
    assert_eq!(fmt.sample_rate, 16000);

    let outcome = primary_outcome(Ok("hello world".to_string()), false).unwrap();
    let (result, publish) = transcription_result(input, outcome, None, 42);
    assert_eq!(result.transcription.as_deref(), Some("hello world"));
    assert_eq!(result.error, None);
    assert_eq!(result.input.device, "Mic 1 (input)");
    assert_eq!(result.path, "");
    assert_eq!(publish, None);

    let mut collector = TranscriptCollector::new();
    assert_eq!(
        collector.on_result(result.transcription.clone(), RecordingState::RecordingFinished),
        LoopControl::Finish
    );
    let payload = transcription_payload(&collector.transcript());
    assert!(payload.contains("<|transcription|>hello world</|transcription|>"));
}

#[test]
fn fallback_scenario() {
    assert!(primary_outcome(Err("primary down".to_string()), true).is_none());
    let outcome = fallback_outcome(Ok("fallback ok".to_string()));
    let input = AudioInput::new(vec![0.5f32; 160], 16000, 1, "Mic (input)".to_string());
    let (result, _) = transcription_result(input, outcome, Some("/tmp/x.mp4".to_string()), 7);
    assert_eq!(result.transcription.as_deref(), Some("fallback ok"));
    assert_eq!(result.error, None);
    assert_eq!(result.path, "/tmp/x.mp4");
}

#[test]
fn primary_failure_without_fallback_is_reported() {
    match primary_outcome(Err("timeout".to_string()), false) {
        Some(SttOutcome::Failed(m)) => {
            assert_eq!(m, "primary engine failed and no fallback is configured: timeout")
        }
        other => panic!("unexpected {:?}", other),
    }
    let input = AudioInput::new(vec![1i16], 16000, 1, "d".to_string());
    let (result, publish) =
        transcription_result(input, fallback_outcome(Err("bad".to_string())), None, 1);
    assert_eq!(result.transcription, None);
    assert_eq!(result.error.as_deref(), Some("bad"));
    assert_eq!(publish, None);
}

#[test]
fn every_input_gets_one_result_with_its_device() {
    let devices = ["A (input)", "B (output)", "A (input)"];
    let outcomes = vec![
        SttOutcome::Transcribed("one".to_string()),
        SttOutcome::NoSpeech,
        SttOutcome::Failed("x".to_string()),
    ];
    let mut results = Vec::new();
    for (d, o) in devices.iter().zip(outcomes) {
        let input = AudioInput::new(vec![0.1f32; 10], 48000, 2, d.to_string());
        results.push(transcription_result(input, o, None, 0).0);
    }
    assert_eq!(results.len(), 3);
    for (r, d) in results.iter().zip(devices.iter()) {
        assert_eq!(r.input.device, *d);
    }
}

#[test]
fn transcript_joins_with_spaces_and_trims() {
    let mut c = TranscriptCollector::new();
    assert_eq!(c.on_result(Some("hello".to_string()), RecordingState::Recording), LoopControl::Continue);
    assert_eq!(c.on_result(None, RecordingState::Recording), LoopControl::Continue);
    assert_eq!(c.on_result(Some("world ".to_string()), RecordingState::Recording), LoopControl::Continue);
    assert_eq!(c.transcript(), "hello world");
    assert_eq!(c.on_state(RecordingState::Stopping), LoopControl::Finish);
    assert_eq!(c.on_state(RecordingState::Recording), LoopControl::Continue);
    assert_eq!(c.on_idle(), LoopControl::Continue);
    assert_eq!(c.on_idle(), LoopControl::Continue);
    assert_eq!(c.on_idle(), LoopControl::Finish);
}

#[test]
fn drain_is_bounded_by_ten_seconds() {
    assert_eq!(drain_budget_ms(0), 10000);
    assert_eq!(drain_budget_ms(2500), 7500);
    assert_eq!(drain_budget_ms(10000), 0);
    assert_eq!(drain_budget_ms(u64::MAX), 0);
    assert!(drain_continues(9999));
    assert!(!drain_continues(10000));
}

#[test]
fn wav_formats() {
    assert_eq!(
        get_wav_format(SampleFormat::I16),
        Ok(WavEncoding { bits_per_sample: 16, kind: WavSampleKind::Int })
    );
    assert_eq!(
        get_wav_format(SampleFormat::F32),
        Ok(WavEncoding { bits_per_sample: 32, kind: WavSampleKind::Float })
    );
    assert_eq!(get_wav_format(SampleFormat::I8), Err(SttError::UnsupportedSampleFormat));
    assert!(SampleFormat::I8.is_capture_supported());
    assert!(SampleFormat::F32.is_capture_supported());
    assert!(!SampleFormat::U16.is_capture_supported());
    assert!(!SampleFormat::F64.is_capture_supported());
}

#[test]
fn recording_file_names() {
    assert_eq!(sanitize_device_name("Mic 1: a/b\\c"), "Mic_1__a_b_c");
    assert_eq!(
        recording_file_name_at("Display 1 (output)", "2024-01-02_03-04-05"),
        "Display_1_(output)_2024-01-02_03-04-05.mp4"
    );
    assert_eq!(
        recording_file_name("Mic 1 (input)", 0).as_deref(),
        Some("Mic_1_(input)_1970-01-01_00-00-00.mp4")
    );
    assert_eq!(
        recording_file_name("Mic", 1700000000).as_deref(),
        Some("Mic_2023-11-14_22-13-20.mp4")
    );
    assert_eq!(
        recording_file_name("Mic", 253402300799).as_deref(),
        Some("Mic_9999-12-31_23-59-59.mp4")
    );
    assert_eq!(recording_file_name("Mic", u64::MAX), None);
    assert_eq!(no_speech_message(), "no speech detected in the audio");
}
