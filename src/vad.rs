use vstd::prelude::*;
use crate::stt::{SttError, FRAME_SIZE};

verus! {

/// The number of voice-activity frames of a chunk of `len` samples: every
/// full frame, and the shorter last one if any.
pub open spec fn frame_count(len: nat) -> nat {
    (len + 159) / 160
}

/// Frame `k` of `s`: samples `160 k` to `160 k + 160`, cut short at the end.
pub open spec fn frame_of<T>(s: Seq<T>, k: int) -> Seq<T> {
    let start = k * 160;
    let end = if start + 160 <= s.len() {
        start + 160
    } else {
        s.len() as int
    };
    s.subrange(start, end)
}

/// The frames among the first `k` of `s` whose verdict is voice, in order.
/// A verdict is `Some(true)` for voice, `Some(false)` for silence and `None`
/// where the detector failed, which counts as silence.
pub open spec fn voiced_frames<T>(s: Seq<T>, verdicts: Seq<Option<bool>>, k: nat) -> Seq<T>
    decreases k,
{
    if k == 0 {
        Seq::empty()
    } else {
        voiced_frames(s, verdicts, (k - 1) as nat) + if verdicts[k - 1] == Some(true) {
            frame_of(s, k - 1)
        } else {
            Seq::empty()
        }
    }
}

/// The speech-only samples of `s`: its voiced frames, concatenated.
pub open spec fn speech_of<T>(s: Seq<T>, verdicts: Seq<Option<bool>>) -> Seq<T> {
    voiced_frames(s, verdicts, frame_count(s.len()))
}

pub fn frame_count_of(len: usize) -> (r: usize)
    ensures
        r == frame_count(len as nat),
{
    let whole = len / FRAME_SIZE;
    if len % FRAME_SIZE == 0 {
        whole
    } else {
        whole + 1
    }
}

/// Keeps the voiced frames of `samples`, given the detector's verdict on
/// each frame; fails with `NoSpeech` when nothing is kept.
pub fn speech_only<T: Copy>(samples: &Vec<T>, verdicts: &Vec<Option<bool>>) -> (r: Result<
    Vec<T>,
    SttError,
>)
    requires
        verdicts@.len() == frame_count(samples@.len()),
    ensures
        speech_of(samples@, verdicts@).len() == 0 ==> r == Err::<Vec<T>, SttError>(
            SttError::NoSpeech,
        ),
        speech_of(samples@, verdicts@).len() > 0 ==> (r matches Ok(v) && v@ == speech_of(
            samples@,
            verdicts@,
        )),
{
    let n = samples.len();
    let frames = frame_count_of(n);
    let mut out: Vec<T> = Vec::new();
    let mut k: usize = 0;
    let mut start: usize = 0;
    while k < frames
        invariant
            n == samples@.len(),
            frames == frame_count(n as nat) == verdicts@.len(),
            k <= frames,
            k < frames ==> start == k * 160 && start < n,
            out@ == voiced_frames(samples@, verdicts@, k as nat),
        decreases frames - k,
    {
        let end = if n - start >= FRAME_SIZE {
            start + FRAME_SIZE
        } else {
            n
        };
        if verdicts[k] == Some(true) {
            let ghost before = out@;
            let mut i = start;
            while i < end
                invariant
                    start <= i <= end <= n == samples@.len(),
                    out@ == before + samples@.subrange(start as int, i as int),
                decreases end - i,
            {
                out.push(samples[i]);
                assert(samples@.subrange(start as int, i + 1) =~= samples@.subrange(
                    start as int,
                    i as int,
                ).push(samples@[i as int]));
                i = i + 1;
            }
            assert(samples@.subrange(start as int, end as int) =~= frame_of(samples@, k as int));
        } else {
            assert(out@ =~= voiced_frames(samples@, verdicts@, k as nat) + Seq::<T>::empty());
        }
        k = k + 1;
        if k < frames {
            start = start + FRAME_SIZE;
        }
    }
    if out.len() == 0 {
        Err(SttError::NoSpeech)
    } else {
        Ok(out)
    }
}

} // verus!
