use vstd::prelude::*;
use std::collections::VecDeque;

verus! {

/// The number of interleaved samples in one chunk of `seconds` seconds at
/// `rate` frames per second and `channels` samples per frame; `None` when it
/// is zero or does not fit in `usize`.
pub fn chunk_sample_count(seconds: u64, rate: u32, channels: u16) -> (r: Option<usize>)
    ensures
        match r {
            Some(n) => n as int == seconds * rate * channels && n > 0,
            None => seconds * rate * channels == 0 || seconds * rate * channels > usize::MAX,
        },
{
    if seconds == 0 || rate == 0 || channels == 0 {
        assert(seconds * rate * channels == 0) by (nonlinear_arith)
            requires
                seconds == 0 || rate == 0 || channels == 0,
        ;
        return None;
    }
    let frames = match seconds.checked_mul(rate as u64) {
        Some(f) => f,
        None => {
            assert(seconds * rate * channels > usize::MAX) by (nonlinear_arith)
                requires
                    seconds * rate > u64::MAX,
                    channels >= 1,
                    u64::MAX >= usize::MAX,
            ;
            return None;
        },
    };
    match frames.checked_mul(channels as u64) {
        Some(total) => {
            if total > usize::MAX as u64 {
                None
            } else {
                assert(total > 0) by (nonlinear_arith)
                    requires
                        total == frames * channels,
                        frames == seconds * rate,
                        seconds >= 1,
                        rate >= 1,
                        channels >= 1,
                ;
                Some(total as usize)
            }
        },
        None => None,
    }
}

/// Cuts a stream of samples into chunks of exactly `chunk_len` samples,
/// keeping the samples of the unfinished chunk until more arrive.
pub struct ChunkBuffer<T> {
    pending: Vec<T>,
    chunk_len: usize,
}

impl<T: Copy> ChunkBuffer<T> {
    /// The samples received since the last full chunk.
    pub closed spec fn pending(&self) -> Seq<T> {
        self.pending@
    }

    pub closed spec fn size(&self) -> nat {
        self.chunk_len as nat
    }

    pub closed spec fn wf(&self) -> bool {
        self.chunk_len > 0 && self.pending@.len() < self.chunk_len
    }

    /// An empty buffer for chunks of `chunk_len` samples; `None` when
    /// `chunk_len` is zero.
    pub fn new(chunk_len: usize) -> (r: Option<ChunkBuffer<T>>)
        ensures
            r is Some <==> chunk_len > 0,
            r matches Some(b) ==> b.wf() && b.size() == chunk_len && b.pending() == Seq::<T>::empty(),
    {
        if chunk_len == 0 {
            None
        } else {
            Some(ChunkBuffer { pending: Vec::new(), chunk_len })
        }
    }

    pub fn chunk_len(&self) -> (r: usize)
        ensures
            r == self.size(),
    {
        self.chunk_len
    }

    pub fn pending_len(&self) -> (r: usize)
        ensures
            r == self.pending().len(),
    {
        self.pending.len()
    }

    /// Appends `samples` and hands out every chunk that is now complete, in
    /// arrival order. Each chunk holds exactly `size()` samples; the chunks
    /// followed by what stays pending are the old pending samples followed
    /// by `samples`.
    pub fn push(&mut self, samples: &[T]) -> (chunks: Vec<Vec<T>>)
        requires
            old(self).wf(),
        ensures
            final(self).wf(),
            final(self).size() == old(self).size(),
            final(self).pending().len() < final(self).size(),
            ({
                let whole = old(self).pending() + samples@;
                let n = old(self).size() as int;
                &&& whole.len() == chunks.len() * n + final(self).pending().len()
                &&& forall|k: int|
                    0 <= k < chunks.len() ==> #[trigger] chunks@[k]@ == whole.subrange(
                        k * n,
                        k * n + n,
                    )
                &&& final(self).pending() == whole.subrange(chunks.len() * n, whole.len() as int)
            }),
    {
        let ghost whole = self.pending@ + samples@;
        let ghost start = self.pending@.len();
        let ghost n = self.chunk_len as int;
        let mut chunks: Vec<Vec<T>> = Vec::new();
        let ghost mut done: int = 0;
        let mut i: usize = 0;
        assert(self.pending@ =~= whole.subrange(0, start as int));
        assert(chunks.len() * n == 0) by (nonlinear_arith)
            requires
                chunks.len() == 0,
        ;
        while i < samples.len()
            invariant
                self.chunk_len == n > 0,
                whole == old(self).pending() + samples@,
                start == old(self).pending().len(),
                i <= samples@.len(),
                done == chunks.len() * n,
                self.pending@.len() < n,
                done + self.pending@.len() == start + i,
                self.pending@ == whole.subrange(done, start + i),
                forall|k: int|
                    0 <= k < chunks.len() ==> #[trigger] chunks@[k]@ == whole.subrange(
                        k * n,
                        k * n + n,
                    ),
            decreases samples@.len() - i,
        {
            let x = samples[i];
            self.pending.push(x);
            assert(whole[start + i] == x);
            assert(self.pending@ =~= whole.subrange(done, start + i + 1));
            i = i + 1;
            if self.pending.len() == self.chunk_len {
                let mut full: Vec<T> = Vec::new();
                core::mem::swap(&mut full, &mut self.pending);
                let ghost c = chunks.len() as int;
                assert((c + 1) * n == c * n + n) by (nonlinear_arith);
                let ghost before = chunks@;
                chunks.push(full);
                proof {
                    done = done + n;
                }
                assert forall|k: int| 0 <= k < chunks.len() implies #[trigger] chunks@[k]@
                    == whole.subrange(k * n, k * n + n) by {
                    if k < c {
                        assert(chunks@[k] == before[k]);
                    }
                }
                assert(self.pending@ =~= whole.subrange(done, start + i));
            }
        }
        assert(whole =~= old(self).pending() + samples@);
        chunks
    }
}


/// A bounded first-in first-out queue of chunks that, when full, makes room
/// for a new chunk by dropping the oldest one: for live audio lateness is
/// worse than loss.
pub struct ChunkQueue<T> {
    items: VecDeque<T>,
    capacity: usize,
}

impl<T> ChunkQueue<T> {
    /// The queued items, oldest first.
    pub closed spec fn items(&self) -> Seq<T> {
        self.items@
    }

    pub closed spec fn bound(&self) -> nat {
        self.capacity as nat
    }

    pub closed spec fn wf(&self) -> bool {
        0 < self.capacity && self.items@.len() <= self.capacity
    }

    /// An empty queue that holds at most `capacity` items; `None` when
    /// `capacity` is zero.
    pub fn new(capacity: usize) -> (r: Option<ChunkQueue<T>>)
        ensures
            r is Some <==> capacity > 0,
            r matches Some(q) ==> q.wf() && q.bound() == capacity && q.items() == Seq::<T>::empty(),
    {
        if capacity == 0 {
            None
        } else {
            Some(ChunkQueue { items: VecDeque::new(), capacity })
        }
    }

    pub fn len(&self) -> (r: usize)
        ensures
            r == self.items().len(),
    {
        self.items.len()
    }

    pub fn is_empty(&self) -> (r: bool)
        ensures
            r == (self.items().len() == 0),
    {
        self.items.len() == 0
    }

    /// Queues `item` last. When the queue is full the oldest item is taken
    /// out first and handed back.
    pub fn push(&mut self, item: T) -> (dropped: Option<T>)
        requires
            old(self).wf(),
        ensures
            final(self).wf(),
            final(self).bound() == old(self).bound(),
            if old(self).items().len() < old(self).bound() {
                &&& dropped is None
                &&& final(self).items() == old(self).items().push(item)
            } else {
                &&& dropped == Some(old(self).items()[0])
                &&& final(self).items() == old(self).items().drop_first().push(item)
            },
    {
        let dropped = if self.items.len() < self.capacity {
            None
        } else {
            self.items.pop_front()
        };
        self.items.push_back(item);
        dropped
    }

    /// Takes out the oldest item, if any.
    pub fn pop(&mut self) -> (r: Option<T>)
        requires
            old(self).wf(),
        ensures
            final(self).wf(),
            final(self).bound() == old(self).bound(),
            if old(self).items().len() == 0 {
                r is None && final(self).items() == old(self).items()
            } else {
                r == Some(old(self).items()[0]) && final(self).items() == old(
                    self,
                ).items().drop_first()
            },
    {
        self.items.pop_front()
    }
}

} // verus!
