use vstd::prelude::*;
use vstd::string::*;
use crate::device::{display_of, AudioDevice};
use crate::state::RecordingState;

verus! {

/// The sample rate, in Hz, that voice-activity detection and the speech
/// engines work at.
pub const STT_SAMPLE_RATE: u32 = 16000;

/// Samples per voice-activity frame: 10 ms at 16 kHz.
pub const FRAME_SIZE: usize = 160;

/// One captured chunk: interleaved samples with their rate, channel count
/// and the human form of the device they came from.
#[derive(Clone, Debug)]
pub struct AudioInput<S> {
    pub data: Vec<S>,
    pub sample_rate: u32,
    pub channels: u16,
    pub device: String,
}

/// The outcome of one `AudioInput`.
#[derive(Clone, Debug)]
pub struct TranscriptionResult<S> {
    /// Where the chunk was saved, empty when it was not.
    pub path: String,
    pub input: AudioInput<S>,
    pub transcription: Option<String>,
    /// Unix seconds at processing time.
    pub timestamp: u64,
    pub error: Option<String>,
}

/// Failures of the speech-to-text stage that the library decides itself.
#[derive(Clone, Copy, Debug, PartialEq, Eq, Structural)]
pub enum SttError {
    /// No frame of the chunk holds voice.
    NoSpeech,
    /// The sample format cannot be packaged as WAV.
    UnsupportedSampleFormat,
    /// A Whisper model with a mel-bin count other than 80 or 128.
    UnexpectedMelBins(usize),
    /// The hosted service reported an error code.
    ServiceError,
    /// The REST service answered with a status other than 200.
    HttpStatus(u16),
    /// A JSON answer of the REST service without a `text` string.
    MissingText,
}

/// The sample formats an audio host can deliver.
#[derive(Clone, Copy, Debug, PartialEq, Eq, Structural)]
pub enum SampleFormat {
    I8,
    I16,
    I32,
    I64,
    U8,
    U16,
    U32,
    U64,
    F32,
    F64,
}

/// How WAV samples are stored.
#[derive(Clone, Copy, Debug, PartialEq, Eq, Structural)]
pub enum WavSampleKind {
    Int,
    Float,
}

/// The sample layout of a WAV file.
#[derive(Clone, Copy, Debug, PartialEq, Eq, Structural)]
pub struct WavEncoding {
    pub bits_per_sample: u16,
    pub kind: WavSampleKind,
}

impl SampleFormat {
    /// Capture accepts 8, 16 and 32-bit integers and 32-bit floats.
    pub fn is_capture_supported(&self) -> (r: bool)
        ensures
            r == (*self == SampleFormat::I8 || *self == SampleFormat::I16 || *self
                == SampleFormat::I32 || *self == SampleFormat::F32),
    {
        match *self {
            SampleFormat::I8 | SampleFormat::I16 | SampleFormat::I32 | SampleFormat::F32 => true,
            _ => false,
        }
    }
}

/// The WAV layout for a packaging format: 16-bit integers or 32-bit floats;
/// other formats are refused.
pub fn get_wav_format(format: SampleFormat) -> (r: Result<WavEncoding, SttError>)
    ensures
        format == SampleFormat::I16 ==> r == Ok::<WavEncoding, SttError>(
            WavEncoding { bits_per_sample: 16, kind: WavSampleKind::Int },
        ),
        format == SampleFormat::F32 ==> r == Ok::<WavEncoding, SttError>(
            WavEncoding { bits_per_sample: 32, kind: WavSampleKind::Float },
        ),
        format != SampleFormat::I16 && format != SampleFormat::F32 ==> r == Err::<
            WavEncoding,
            SttError,
        >(SttError::UnsupportedSampleFormat),
{
    match format {
        SampleFormat::I16 => Ok(WavEncoding { bits_per_sample: 16, kind: WavSampleKind::Int }),
        SampleFormat::F32 => Ok(WavEncoding { bits_per_sample: 32, kind: WavSampleKind::Float }),
        _ => Err(SttError::UnsupportedSampleFormat),
    }
}

/// What the speech stage works on: samples at `sample_rate` with
/// `channels` per frame, resampled first when `resample` is set.
#[derive(Clone, Copy, Debug, PartialEq, Eq, Structural)]
pub struct SttFormat {
    pub resample: bool,
    pub sample_rate: u32,
    pub channels: u16,
}

/// The format a chunk is brought to before voice-activity detection: any
/// chunk not already at 16 kHz is resampled, and resampling mixes down to
/// mono.
pub fn stt_format(sample_rate: u32, channels: u16) -> (r: SttFormat)
    ensures
        r.sample_rate == STT_SAMPLE_RATE,
        r.resample == (sample_rate != STT_SAMPLE_RATE),
        r.resample ==> r.channels == 1,
        !r.resample ==> r.channels == channels,
{
    if sample_rate != STT_SAMPLE_RATE {
        SttFormat { resample: true, sample_rate: STT_SAMPLE_RATE, channels: 1 }
    } else {
        SttFormat { resample: false, sample_rate, channels }
    }
}

impl<S> AudioInput<S> {
    pub fn new(data: Vec<S>, sample_rate: u32, channels: u16, device: String) -> (r: AudioInput<S>)
        ensures
            r.data == data,
            r.sample_rate == sample_rate,
            r.channels == channels,
            r.device == device,
    {
        AudioInput { data, sample_rate, channels, device }
    }

    /// A chunk captured from `device`, labelled with the device's human form.
    pub fn from_chunk(data: Vec<S>, device: &AudioDevice, sample_rate: u32, channels: u16) -> (r:
        AudioInput<S>)
        ensures
            r.data == data,
            r.sample_rate == sample_rate,
            r.channels == channels,
            r.device@ == display_of(device.name@, device.device_type),
    {
        AudioInput { data, sample_rate, channels, device: device.to_string() }
    }
}


/// How the speech stage ended for one chunk.
#[derive(Clone, Debug)]
pub enum SttOutcome {
    Transcribed(String),
    NoSpeech,
    Failed(String),
}

pub open spec fn no_speech_text() -> Seq<char> {
    seq![
        'n', 'o', ' ', 's', 'p', 'e', 'e', 'c', 'h', ' ', 'd', 'e', 't', 'e', 'c', 't', 'e', 'd',
        ' ', 'i', 'n', ' ', 't', 'h', 'e', ' ', 'a', 'u', 'd', 'i', 'o'
    ]
}

pub open spec fn no_fallback_text() -> Seq<char> {
    seq![
        'p', 'r', 'i', 'm', 'a', 'r', 'y', ' ', 'e', 'n', 'g', 'i', 'n', 'e', ' ', 'f', 'a', 'i',
        'l', 'e', 'd', ' ', 'a', 'n', 'd', ' ', 'n', 'o', ' ', 'f', 'a', 'l', 'l', 'b', 'a', 'c',
        'k', ' ', 'i', 's', ' ', 'c', 'o', 'n', 'f', 'i', 'g', 'u', 'r', 'e', 'd', ':', ' '
    ]
}

/// The error text of a chunk without speech.
pub fn no_speech_message() -> (r: String)
    ensures
        r@ == no_speech_text(),
{
    proof {
        reveal_strlit("no speech detected in the audio");
    }
    let r = String::from_str("no speech detected in the audio");
    assert(r@ =~= no_speech_text());
    r
}

/// Decides what follows the primary engine's answer: its text ends the
/// stage; its error hands over to the fallback when there is one, and
/// otherwise fails the chunk with the error behind an explanation. `None`
/// means: call the fallback.
pub fn primary_outcome(primary: Result<String, String>, has_fallback: bool) -> (r: Option<
    SttOutcome,
>)
    ensures
        match primary {
            Ok(t) => r matches Some(SttOutcome::Transcribed(u)) && u == t,
            Err(e) => if has_fallback {
                r is None
            } else {
                r matches Some(SttOutcome::Failed(m)) && m@ == no_fallback_text() + e@
            },
        },
{
    match primary {
        Ok(t) => Some(SttOutcome::Transcribed(t)),
        Err(e) => {
            if has_fallback {
                None
            } else {
                proof {
                    reveal_strlit("primary engine failed and no fallback is configured: ");
                }
                let prefix = String::from_str(
                    "primary engine failed and no fallback is configured: ",
                );
                assert(prefix@ =~= no_fallback_text());
                Some(SttOutcome::Failed(prefix.concat(e.as_str())))
            }
        },
    }
}

/// The fallback engine's answer is final.
pub fn fallback_outcome(fallback: Result<String, String>) -> (r: SttOutcome)
    ensures
        match fallback {
            Ok(t) => r matches SttOutcome::Transcribed(u) && u == t,
            Err(e) => r matches SttOutcome::Failed(m) && m == e,
        },
{
    match fallback {
        Ok(t) => SttOutcome::Transcribed(t),
        Err(e) => SttOutcome::Failed(e),
    }
}

/// Builds the one result of `input`, and says which state to publish:
/// a chunk without speech ends the recording (`RecordingFinished`).
pub fn transcription_result<S>(
    input: AudioInput<S>,
    outcome: SttOutcome,
    path: Option<String>,
    timestamp: u64,
) -> (r: (TranscriptionResult<S>, Option<RecordingState>))
    ensures
        r.0.input == input,
        r.0.timestamp == timestamp,
        match outcome {
            SttOutcome::Transcribed(t) => {
                &&& r.0.transcription == Some(t)
                &&& r.0.error is None
                &&& r.0.path@ == (match path {
                    Some(p) => p@,
                    None => Seq::<char>::empty(),
                })
                &&& r.1 is None
            },
            SttOutcome::NoSpeech => {
                &&& r.0.transcription is None
                &&& r.0.error matches Some(m) && m@ == no_speech_text()
                &&& r.0.path@ == Seq::<char>::empty()
                &&& r.1 == Some(RecordingState::RecordingFinished)
            },
            SttOutcome::Failed(e) => {
                &&& r.0.transcription is None
                &&& r.0.error == Some(e)
                &&& r.0.path@ == Seq::<char>::empty()
                &&& r.1 is None
            },
        },
{
    match outcome {
        SttOutcome::Transcribed(t) => {
            let path = match path {
                Some(p) => p,
                None => String::new(),
            };
            (
                TranscriptionResult { path, input, transcription: Some(t), timestamp, error: None },
                None,
            )
        },
        SttOutcome::NoSpeech => (
            TranscriptionResult {
                path: String::new(),
                input,
                transcription: None,
                timestamp,
                error: Some(no_speech_message()),
            },
            Some(RecordingState::RecordingFinished),
        ),
        SttOutcome::Failed(e) => (
            TranscriptionResult {
                path: String::new(),
                input,
                transcription: None,
                timestamp,
                error: Some(e),
            },
            None,
        ),
    }
}


/// The characters a device label cannot keep in a file name.
pub open spec fn is_path_unsafe(c: char) -> bool {
    c == ' ' || c == ':' || c == '/' || c == '\\'
}

/// `s` with each of ` `, `:`, `/` and `\` replaced by `_`.
pub open spec fn sanitized(s: Seq<char>) -> Seq<char> {
    s.map_values(|c: char| if is_path_unsafe(c) { '_' } else { c })
}

/// A device label made safe for a file name: each of ` `, `:`, `/`, `\`
/// becomes `_`.
pub fn sanitize_device_name(s: &str) -> (r: String)
    ensures
        r@ == sanitized(s@),
{
    proof {
        reveal_strlit("_");
    }
    let n = s.unicode_len();
    let mut out = String::new();
    let mut seg: usize = 0;
    let mut i: usize = 0;
    while i < n
        invariant
            n == s@.len(),
            seg <= i <= n,
            "_"@ == seq!['_'],
            out@ == sanitized(s@.subrange(0, seg as int)),
            forall|j: int| seg <= j < i ==> !is_path_unsafe(#[trigger] s@[j]),
        decreases n - i,
    {
        let c = s.get_char(i);
        if c == ' ' || c == ':' || c == '/' || c == '\\' {
            let piece = s.substring_char(seg, i);
            out.append(piece);
            out.append("_");
            assert(sanitized(s@.subrange(0, i + 1)) =~= sanitized(s@.subrange(0, seg as int))
                + s@.subrange(seg as int, i as int) + seq!['_']);
            seg = i + 1;
        }
        i = i + 1;
    }
    let tail = s.substring_char(seg, n);
    out.append(tail);
    assert(sanitized(s@.subrange(0, n as int)) =~= sanitized(s@.subrange(0, seg as int))
        + s@.subrange(seg as int, n as int));
    assert(s@.subrange(0, n as int) =~= s@);
    out
}

/// What chrono writes for the UTC time `secs` seconds after the Unix epoch
/// with the pattern `%Y-%m-%d_%H-%M-%S`.
pub uninterp spec fn utc_stamp_of(secs: i64) -> Seq<char>;

/// Relies on chrono's `DateTime::<Utc>::from_timestamp` and `format`: the
/// UTC date and time of `secs` as `yyyy-MM-dd_HH-mm-ss`, or `None` where
/// chrono cannot represent that instant. `from_timestamp` gives `None` only
/// out of its range (beyond the year 262143), so every instant from the
/// epoch to the end of the year 9999 has a stamp.
#[verifier::external_body]
fn utc_file_stamp(secs: i64) -> (r: Option<String>)
    ensures
        0 <= secs <= MAX_STAMPED_SECS ==> r is Some,
        r matches Some(s) ==> s@ == utc_stamp_of(secs),
{
    match chrono::DateTime::from_timestamp(secs, 0) {
        Some(t) => Some(t.format("%Y-%m-%d_%H-%M-%S").to_string()),
        None => None,
    }
}

/// 9999-12-31 23:59:59 UTC in Unix seconds.
pub const MAX_STAMPED_SECS: i64 = 253402300799;

pub open spec fn mp4_extension() -> Seq<char> {
    seq!['.', 'm', 'p', '4']
}

/// The file name of a chunk from `device`, given chrono's stamp for the
/// instant it was saved at: `<sanitized device>_<stamp>.mp4`.
pub fn recording_file_name_at(device: &str, stamp: &str) -> (r: String)
    ensures
        r@ == sanitized(device@) + seq!['_'] + stamp@ + mp4_extension(),
{
    proof {
        reveal_strlit("_");
        reveal_strlit(".mp4");
    }
    let mut name = sanitize_device_name(device);
    name.append("_");
    name.append(stamp);
    name.append(".mp4");
    assert(".mp4"@ =~= mp4_extension());
    name
}

/// The file name of a chunk from `device` saved at Unix time `secs`;
/// `None` where the instant has no UTC stamp. Every instant up to the end of
/// the year 9999 has one.
pub fn recording_file_name(device: &str, secs: u64) -> (r: Option<String>)
    ensures
        secs <= MAX_STAMPED_SECS ==> r is Some,
        secs > i64::MAX ==> r is None,
        r matches Some(n) ==> secs <= i64::MAX && n@ == sanitized(device@) + seq!['_']
            + utc_stamp_of(secs as i64) + mp4_extension(),
{
    if secs > i64::MAX as u64 {
        return None;
    }
    match utc_file_stamp(secs as i64) {
        Some(stamp) => Some(recording_file_name_at(device, stamp.as_str())),
        None => None,
    }
}

} // verus!
