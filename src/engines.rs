use vstd::prelude::*;
use vstd::string::*;
use std::collections::HashMap;
use crate::stt::{SampleFormat, SttError, STT_SAMPLE_RATE};
use crate::text::{trim, trim_str};

verus! {

/// The speech-to-text backends.
#[derive(Clone, Copy, Debug, PartialEq, Eq, Structural)]
pub enum AudioTranscriptionEngine {
    RestPipe,
    Deepgram,
    WhisperTiny,
    WhisperDistilLargeV3,
}

impl Default for AudioTranscriptionEngine {
    fn default() -> (r: AudioTranscriptionEngine)
        ensures
            r == AudioTranscriptionEngine::WhisperTiny,
    {
        AudioTranscriptionEngine::WhisperTiny
    }
}

impl AudioTranscriptionEngine {
    /// The engine's display name.
    pub fn name(&self) -> (r: &'static str)
        ensures
            *self == AudioTranscriptionEngine::RestPipe ==> r@ == "RestPipe"@,
            *self == AudioTranscriptionEngine::Deepgram ==> r@ == "Deepgram"@,
            *self == AudioTranscriptionEngine::WhisperTiny ==> r@ == "WhisperTiny"@,
            *self == AudioTranscriptionEngine::WhisperDistilLargeV3 ==> r@ == "WhisperLarge"@,
    {
        match *self {
            AudioTranscriptionEngine::RestPipe => "RestPipe",
            AudioTranscriptionEngine::Deepgram => "Deepgram",
            AudioTranscriptionEngine::WhisperTiny => "WhisperTiny",
            AudioTranscriptionEngine::WhisperDistilLargeV3 => "WhisperLarge",
        }
    }

    /// The local Whisper model behind an engine, if it is a local one.
    pub fn local_model(&self) -> (r: Option<CandleWhisperModel>)
        ensures
            *self == AudioTranscriptionEngine::WhisperTiny ==> r == Some(CandleWhisperModel::Tiny),
            *self == AudioTranscriptionEngine::WhisperDistilLargeV3 ==> r == Some(
                CandleWhisperModel::DistillLarge,
            ),
            *self == AudioTranscriptionEngine::RestPipe || *self
                == AudioTranscriptionEngine::Deepgram ==> r is None,
    {
        match *self {
            AudioTranscriptionEngine::WhisperTiny => Some(CandleWhisperModel::Tiny),
            AudioTranscriptionEngine::WhisperDistilLargeV3 => Some(CandleWhisperModel::DistillLarge),
            _ => None,
        }
    }

    /// The model repository and revision a local engine loads its weights
    /// from; engines that are not local fall back to Whisper tiny.
    pub fn model_repo(&self) -> (r: (&'static str, &'static str))
        ensures
            *self == AudioTranscriptionEngine::WhisperDistilLargeV3 ==> r.0@
                == "distil-whisper/distil-large-v3"@,
            *self != AudioTranscriptionEngine::WhisperDistilLargeV3 ==> r.0@ == "openai/whisper-tiny"@,
            r.1@ == "main"@,
    {
        match *self {
            AudioTranscriptionEngine::WhisperDistilLargeV3 => (
                "distil-whisper/distil-large-v3",
                "main",
            ),
            _ => ("openai/whisper-tiny", "main"),
        }
    }
}

/// The local Whisper models.
#[derive(Clone, Copy, Debug, PartialEq, Eq, Structural)]
pub enum CandleWhisperModel {
    Tiny,
    DistillLarge,
}

impl CandleWhisperModel {
    pub fn engine(&self) -> (r: AudioTranscriptionEngine)
        ensures
            *self == CandleWhisperModel::Tiny ==> r == AudioTranscriptionEngine::WhisperTiny,
            *self == CandleWhisperModel::DistillLarge ==> r
                == AudioTranscriptionEngine::WhisperDistilLargeV3,
    {
        match *self {
            CandleWhisperModel::Tiny => AudioTranscriptionEngine::WhisperTiny,
            CandleWhisperModel::DistillLarge => AudioTranscriptionEngine::WhisperDistilLargeV3,
        }
    }
}

/// The mel filter bank a Whisper model needs.
#[derive(Clone, Copy, Debug, PartialEq, Eq, Structural)]
pub enum MelFilterBank {
    Bins80,
    Bins128,
}

/// Models with 80 or 128 mel bins have a filter bank; any other count is
/// refused.
pub fn mel_filter_bank(num_mel_bins: usize) -> (r: Result<MelFilterBank, SttError>)
    ensures
        num_mel_bins == 80 ==> r == Ok::<MelFilterBank, SttError>(MelFilterBank::Bins80),
        num_mel_bins == 128 ==> r == Ok::<MelFilterBank, SttError>(MelFilterBank::Bins128),
        num_mel_bins != 80 && num_mel_bins != 128 ==> r == Err::<MelFilterBank, SttError>(
            SttError::UnexpectedMelBins(num_mel_bins),
        ),
{
    if num_mel_bins == 80 {
        Ok(MelFilterBank::Bins80)
    } else if num_mel_bins == 128 {
        Ok(MelFilterBank::Bins128)
    } else {
        Err(SttError::UnexpectedMelBins(num_mel_bins))
    }
}

/// The hosted endpoint the Deepgram engine posts to.
pub const DEEPGRAM_LISTEN_URL: &'static str = "https://api.deepgram.com/v1/listen?model=nova-2&smart_format=true";

/// The Deepgram engine: WAV bytes posted to the hosted service.
pub struct DeepgramEngine {
    api_key: String,
}

impl DeepgramEngine {
    pub fn new(api_key: String) -> (r: DeepgramEngine)
        ensures
            r.key() == api_key,
    {
        DeepgramEngine { api_key }
    }

    pub closed spec fn key(&self) -> String {
        self.api_key
    }

    pub fn api_key(&self) -> (r: &String)
        ensures
            *r == self.key(),
    {
        &self.api_key
    }

    /// The value of the `Authorization` header: `Token <key>`.
    pub fn authorization(&self) -> (r: String)
        ensures
            r@ == "Token "@ + self.key()@,
    {
        String::from_str("Token ").concat(self.api_key.as_str())
    }

    /// Deepgram takes 32-bit float WAV.
    pub fn wav_format(&self) -> (r: SampleFormat)
        ensures
            r == SampleFormat::F32,
    {
        SampleFormat::F32
    }
}

/// The REST engine: WAV bytes posted to a configured URL.
pub struct RestPipeEngine {
    url: String,
    headers: HashMap<String, String>,
    payload_field: Option<String>,
    resample_to_rate: Option<u32>,
}

/// The audio a REST upload carries.
#[derive(Clone, Copy, Debug, PartialEq, Eq, Structural)]
pub struct UploadFormat {
    /// Resample to this rate (mixing down to mono) before packaging.
    pub resample_to: Option<u32>,
    pub sample_rate: u32,
    pub channels: u16,
}

impl RestPipeEngine {
    pub fn new(
        url: String,
        headers: HashMap<String, String>,
        payload_field: Option<String>,
        resample_to_rate: Option<u32>,
    ) -> (r: RestPipeEngine)
        ensures
            r.url_spec() == url,
            r.headers_spec() == headers,
            r.payload_field_spec() == payload_field,
            r.resample_to_rate_spec() == resample_to_rate,
    {
        RestPipeEngine { url, headers, payload_field, resample_to_rate }
    }

    pub closed spec fn url_spec(&self) -> String {
        self.url
    }

    pub closed spec fn headers_spec(&self) -> HashMap<String, String> {
        self.headers
    }

    pub closed spec fn payload_field_spec(&self) -> Option<String> {
        self.payload_field
    }

    pub closed spec fn resample_to_rate_spec(&self) -> Option<u32> {
        self.resample_to_rate
    }

    pub fn url(&self) -> (r: &String)
        ensures
            *r == self.url_spec(),
    {
        &self.url
    }

    /// The extra request headers, added verbatim.
    pub fn headers(&self) -> (r: &HashMap<String, String>)
        ensures
            *r == self.headers_spec(),
    {
        &self.headers
    }

    /// The multipart field that carries `file.wav`; without one the WAV is
    /// the raw request body.
    pub fn payload_field(&self) -> (r: &Option<String>)
        ensures
            *r == self.payload_field_spec(),
    {
        &self.payload_field
    }

    /// The service takes 16-bit integer WAV.
    pub fn wav_format(&self) -> (r: SampleFormat)
        ensures
            r == SampleFormat::I16,
    {
        SampleFormat::I16
    }

    /// What is uploaded for audio at `sample_rate` with `channels`: when a
    /// target rate is configured and differs, the audio is resampled to it
    /// and becomes mono; the WAV then states the target rate.
    pub fn upload_format(&self, sample_rate: u32, channels: u16) -> (r: UploadFormat)
        ensures
            match self.resample_to_rate_spec() {
                Some(target) => if target != sample_rate {
                    r == UploadFormat { resample_to: Some(target), sample_rate: target, channels: 1 }
                } else {
                    r == UploadFormat { resample_to: None, sample_rate, channels }
                },
                None => r == UploadFormat { resample_to: None, sample_rate, channels },
            },
    {
        match self.resample_to_rate {
            Some(target) => {
                if target != sample_rate {
                    UploadFormat { resample_to: Some(target), sample_rate: target, channels: 1 }
                } else {
                    UploadFormat { resample_to: None, sample_rate, channels }
                }
            },
            None => UploadFormat { resample_to: None, sample_rate, channels },
        }
    }
}


/// The pieces of `s` between the occurrences of `c`, as `str::split` with a
/// character pattern gives them.
pub open spec fn split_on(s: Seq<char>, c: char) -> Seq<Seq<char>>
    decreases s.len(),
{
    if s.len() == 0 {
        seq![Seq::empty()]
    } else {
        let rest = split_on(s.drop_first(), c);
        if s[0] == c {
            seq![Seq::empty()] + rest
        } else {
            rest.update(0, seq![s[0]] + rest[0])
        }
    }
}

pub proof fn lemma_split_on_nonempty(s: Seq<char>, c: char)
    ensures
        split_on(s, c).len() >= 1,
    decreases s.len(),
{
    if s.len() > 0 {
        lemma_split_on_nonempty(s.drop_first(), c);
    }
}

/// `str::split(c)`: the pieces of `s` between the occurrences of `c`.
pub fn split_char(s: &str, c: char) -> (r: Vec<String>)
    ensures
        r@.len() == split_on(s@, c).len(),
        forall|k: int| 0 <= k < r@.len() ==> #[trigger] r@[k]@ == split_on(s@, c)[k],
{
    let n = s.unicode_len();
    let mut pieces: Vec<String> = Vec::new();
    let ghost mut views: Seq<Seq<char>> = Seq::empty();
    let mut seg: usize = 0;
    let mut i: usize = 0;
    assert(s@.subrange(0, n as int) =~= s@);
    proof {
        lemma_split_on_nonempty(s@, c);
        assert(split_on(s@, c).update(0, Seq::<char>::empty() + split_on(s@, c)[0]) =~= split_on(
            s@,
            c,
        ));
    }
    while i < n
        invariant
            n == s@.len(),
            seg <= i <= n,
            pieces@.len() == views.len(),
            forall|k: int| 0 <= k < views.len() ==> #[trigger] pieces@[k]@ == views[k],
            ({
                let rest = split_on(s@.subrange(i as int, n as int), c);
                views + rest.update(0, s@.subrange(seg as int, i as int) + rest[0]) == split_on(
                    s@,
                    c,
                )
            }),
        decreases n - i,
    {
        let ghost tail = s@.subrange(i as int, n as int);
        let ghost next = s@.subrange(i + 1, n as int);
        assert(tail.drop_first() =~= next);
        proof {
            lemma_split_on_nonempty(next, c);
        }
        let ch = s.get_char(i);
        if ch == c {
            let piece = String::from_str(s.substring_char(seg, i));
            let ghost old_views = views;
            pieces.push(piece);
            proof {
                views = views.push(piece@);
                let rest = split_on(next, c);
                assert(split_on(tail, c) == seq![Seq::<char>::empty()] + rest);
                assert(old_views + split_on(tail, c).update(
                    0,
                    s@.subrange(seg as int, i as int) + split_on(tail, c)[0],
                ) =~= views + rest.update(0, s@.subrange(i + 1, i + 1) + rest[0]));
            }
            seg = i + 1;
        } else {
            proof {
                let rest = split_on(next, c);
                assert(split_on(tail, c) == rest.update(0, seq![ch] + rest[0]));
                assert(s@.subrange(seg as int, i + 1) =~= s@.subrange(seg as int, i as int) + seq![
                    ch,
                ]);
                assert(split_on(tail, c)[0] == seq![ch] + rest[0]);
                assert(s@.subrange(seg as int, i as int) + (seq![ch] + rest[0]) =~= s@.subrange(
                    seg as int,
                    i + 1,
                ) + rest[0]);
                assert(split_on(tail, c).update(
                    0,
                    s@.subrange(seg as int, i as int) + split_on(tail, c)[0],
                ) =~= rest.update(0, s@.subrange(seg as int, i + 1) + rest[0]));
            }
        }
        i = i + 1;
    }
    let last = String::from_str(s.substring_char(seg, n));
    pieces.push(last);
    proof {
        let ghost old_views = views;
        views = views.push(last@);
        assert(s@.subrange(n as int, n as int) =~= Seq::<char>::empty());
        assert(split_on(s@.subrange(n as int, n as int), c) == seq![Seq::<char>::empty()]);
        assert(old_views + seq![Seq::<char>::empty()].update(
            0,
            s@.subrange(seg as int, n as int) + Seq::<char>::empty(),
        ) =~= views);
    }
    pieces
}

/// The header `name: value` held by one piece of the header list, when the
/// piece splits at `:` into exactly two parts; both parts are trimmed.
pub open spec fn header_of(piece: Seq<char>) -> Option<(Seq<char>, Seq<char>)> {
    let parts = split_on(piece, ':');
    if parts.len() == 2 {
        Some((trim(parts[0]), trim(parts[1])))
    } else {
        None
    }
}

pub open spec fn headers_of(pieces: Seq<Seq<char>>) -> Seq<(Seq<char>, Seq<char>)>
    decreases pieces.len(),
{
    if pieces.len() == 0 {
        Seq::empty()
    } else {
        let rest = headers_of(pieces.drop_last());
        match header_of(pieces.last()) {
            Some(h) => rest.push(h),
            None => rest,
        }
    }
}

/// The headers of a `"Name: Value; Name: Value"` list, in order; pieces
/// that are not one `name: value` pair are skipped.
pub open spec fn api_headers(s: Seq<char>) -> Seq<(Seq<char>, Seq<char>)> {
    headers_of(split_on(s, ';'))
}

/// Reads a `"Name: Value; Name: Value"` header list.
pub fn parse_api_headers(s: &str) -> (r: Vec<(String, String)>)
    ensures
        r@.len() == api_headers(s@).len(),
        forall|k: int|
            0 <= k < r@.len() ==> (#[trigger] r@[k].0@, r@[k].1@) == api_headers(s@)[k],
{
    let pieces = split_char(s, ';');
    let ghost pv = split_on(s@, ';');
    let mut out: Vec<(String, String)> = Vec::new();
    let mut i: usize = 0;
    while i < pieces.len()
        invariant
            i <= pieces@.len() == pv.len(),
            pv == split_on(s@, ';'),
            forall|k: int| 0 <= k < pieces@.len() ==> #[trigger] pieces@[k]@ == pv[k],
            out@.len() == headers_of(pv.subrange(0, i as int)).len(),
            forall|k: int|
                0 <= k < out@.len() ==> (#[trigger] out@[k].0@, out@[k].1@) == headers_of(
                    pv.subrange(0, i as int),
                )[k],
        decreases pieces@.len() - i,
    {
        let ghost before = out@;
        let parts = split_char(pieces[i].as_str(), ':');
        assert(pv.subrange(0, i + 1).drop_last() =~= pv.subrange(0, i as int));
        assert(pv.subrange(0, i + 1).last() == pieces@[i as int]@);
        if parts.len() == 2 {
            let name = trim_str(parts[0].as_str());
            let value = trim_str(parts[1].as_str());
            out.push((name, value));
            assert forall|k: int| 0 <= k < out@.len() implies (#[trigger] out@[k].0@, out@[k].1@)
                == headers_of(pv.subrange(0, i + 1))[k] by {
                if k < before.len() {
                    assert(out@[k] == before[k]);
                }
            }
        }
        i = i + 1;
    }
    assert(pv.subrange(0, pv.len() as int) =~= pv);
    out
}

/// Which engines serve a run.
#[derive(Clone, Copy, Debug, PartialEq, Eq, Structural)]
pub struct EnginePlan {
    pub primary: AudioTranscriptionEngine,
    pub fallback: Option<AudioTranscriptionEngine>,
}

/// Chooses the engines: a Deepgram key makes Deepgram primary, else an API
/// URL makes the REST engine primary, else the local model (Whisper tiny
/// when none is named) is. A local model named beside a remote primary
/// becomes its fallback.
pub fn plan_engines(
    local_model: Option<CandleWhisperModel>,
    has_api_url: bool,
    has_deepgram_key: bool,
) -> (r: EnginePlan)
    ensures
        has_deepgram_key ==> r.primary == AudioTranscriptionEngine::Deepgram,
        !has_deepgram_key && has_api_url ==> r.primary == AudioTranscriptionEngine::RestPipe,
        !has_deepgram_key && !has_api_url ==> r.primary == (match local_model {
            Some(CandleWhisperModel::DistillLarge) => AudioTranscriptionEngine::WhisperDistilLargeV3,
            _ => AudioTranscriptionEngine::WhisperTiny,
        }),
        r.fallback == (if has_deepgram_key || has_api_url {
            match local_model {
                Some(CandleWhisperModel::Tiny) => Some(AudioTranscriptionEngine::WhisperTiny),
                Some(CandleWhisperModel::DistillLarge) => Some(
                    AudioTranscriptionEngine::WhisperDistilLargeV3,
                ),
                None => None,
            }
        } else {
            None
        }),
{
    let local = match local_model {
        Some(m) => m.engine(),
        None => AudioTranscriptionEngine::WhisperTiny,
    };
    let primary = if has_deepgram_key {
        AudioTranscriptionEngine::Deepgram
    } else if has_api_url {
        AudioTranscriptionEngine::RestPipe
    } else {
        local
    };
    let fallback = if has_deepgram_key || has_api_url {
        match local_model {
            Some(m) => Some(m.engine()),
            None => None,
        }
    } else {
        None
    };
    EnginePlan { primary, fallback }
}

/// The multipart field the REST engine sends its WAV under.
pub fn rest_payload_field() -> (r: String)
    ensures
        r@ == "file"@,
{
    String::from_str("file")
}


/// The rate the REST engine resamples uploads to: the speech rate, 16 kHz.
pub fn rest_resample_rate() -> (r: Option<u32>)
    ensures
        r == Some(STT_SAMPLE_RATE),
{
    Some(STT_SAMPLE_RATE)
}

/// The texts of `segments`, each after the first preceded by a newline.
pub open spec fn joined_lines(segments: Seq<Seq<char>>) -> Seq<char>
    decreases segments.len(),
{
    if segments.len() == 0 {
        Seq::empty()
    } else if segments.len() == 1 {
        segments[0]
    } else {
        joined_lines(segments.drop_last()) + seq!['\n'] + segments.last()
    }
}

/// The transcript of a Whisper decoding: the segment texts joined by
/// newlines.
pub fn join_segments(segments: &Vec<String>) -> (r: String)
    ensures
        r@ == joined_lines(segments@.map_values(|t: String| t@)),
{
    proof {
        reveal_strlit("\n");
    }
    let ghost views = segments@.map_values(|t: String| t@);
    let mut out = String::new();
    let mut i: usize = 0;
    while i < segments.len()
        invariant
            i <= segments@.len(),
            views == segments@.map_values(|t: String| t@),
            "\n"@ == seq!['\n'],
            out@ == joined_lines(views.subrange(0, i as int)),
        decreases segments@.len() - i,
    {
        let ghost prefix = views.subrange(0, i + 1);
        assert(prefix.drop_last() =~= views.subrange(0, i as int));
        assert(prefix.last() == segments@[i as int]@);
        if i > 0 {
            out.append("\n");
        }
        out.append(segments[i].as_str());
        assert(i == 0 ==> out@ =~= prefix[0]);
        i = i + 1;
    }
    assert(views.subrange(0, segments@.len() as int) =~= views);
    out
}

} // verus!
