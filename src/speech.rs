//! The speech buffer: the most recent thirty seconds of normalized audio.
//!
//! Samples are carried as the bit patterns of 32-bit floats; the all-zero
//! pattern is silence.

use crate::ring::{
    pushed, ring_capacity, ring_clear, ring_items, ring_len, ring_new, ring_push, ring_to_vec,
};
use ringbuffer::AllocRingBuffer;
use vstd::prelude::*;

verus! {

/// Samples per millisecond at the 16 kHz target rate.
pub const SAMPLES_PER_MS: u64 = 16;

/// Capacity of the speech buffer: thirty seconds at the target rate.
pub const CAPACITY: usize = 480000;

/// Fewest samples worth transcribing: one second at the target rate.
pub const MIN_SAMPLES: usize = 16000;

/// The bit pattern of a silent (zero-valued) sample.
pub const SILENCE: u32 = 0;

/// The last `c` items of `s`, or all of `s` when it is shorter.
pub open spec fn keep_last(s: Seq<u32>, c: nat) -> Seq<u32> {
    if s.len() > c {
        s.subrange(s.len() - c, s.len() as int)
    } else {
        s
    }
}

/// What a snapshot of a buffer holding `held` returns.
pub open spec fn snapshot_of(held: Seq<u32>) -> Seq<u32> {
    held
}

/// What a buffer holding `held` holds after a snapshot.
pub open spec fn after_snapshot(held: Seq<u32>) -> Seq<u32> {
    Seq::empty()
}

/// `n` silent samples.
pub open spec fn zeros(n: nat) -> Seq<u32> {
    Seq::new(n, |i: int| SILENCE)
}

/// Number of silent samples that stand for a gap of `ms` milliseconds.
pub open spec fn silence_len(ms: nat) -> nat {
    SAMPLES_PER_MS as nat * ms
}

/// Pushing onto the last `c` items and keeping the last `c` again is the
/// same as keeping the last `c` of the extended sequence.
pub proof fn lemma_keep_last_push(s: Seq<u32>, c: nat, x: u32)
    requires
        c > 0,
    ensures
        pushed(keep_last(s, c), c, x) == keep_last(s.push(x), c),
{
    assert(pushed(keep_last(s, c), c, x) =~= keep_last(s.push(x), c));
}

/// Keeping the last `c` items twice, around an append, is keeping them once.
pub proof fn lemma_keep_last_concat(a: Seq<u32>, b: Seq<u32>, c: nat)
    ensures
        keep_last(keep_last(a, c) + b, c) == keep_last(a + b, c),
{
    assert(keep_last(keep_last(a, c) + b, c) =~= keep_last(a + b, c));
}

/// A bounded, overwrite-on-full store of the most recent samples.
pub struct SpeechBuffer {
    ring: AllocRingBuffer<u32>,
}

impl SpeechBuffer {
    /// The samples held, oldest first.
    pub closed spec fn view(&self) -> Seq<u32> {
        ring_items(self.ring)
    }

    /// The ring has the fixed capacity and never holds more than it.
    pub closed spec fn inv(&self) -> bool {
        &&& ring_capacity(self.ring) == CAPACITY as nat
        &&& ring_items(self.ring).len() <= CAPACITY
    }

    /// An empty buffer.
    pub fn new() -> (b: SpeechBuffer)
        ensures
            b.inv(),
            b@ == Seq::<u32>::empty(),
    {
        SpeechBuffer { ring: ring_new(CAPACITY) }
    }

    /// Number of samples held.
    pub fn len(&self) -> (n: usize)
        requires
            self.inv(),
        ensures
            n as int == self@.len(),
            n <= CAPACITY,
    {
        ring_len(&self.ring)
    }

    /// Adds `samples` at the tail; once full, the oldest samples are
    /// overwritten, so that exactly the last `CAPACITY` samples of what was
    /// held followed by `samples` remain.
    pub fn append(&mut self, samples: &Vec<u32>)
        requires
            old(self).inv(),
        ensures
            final(self).inv(),
            final(self)@ == keep_last(old(self)@ + samples@, CAPACITY as nat),
    {
        let ghost start = self@;
        proof {
            assert(start + samples@.take(0) =~= start);
        }
        let mut i: usize = 0;
        while i < samples.len()
            invariant
                self.inv(),
                i <= samples@.len(),
                start == old(self)@,
                self@ == keep_last(start + samples@.take(i as int), CAPACITY as nat),
            decreases samples@.len() - i,
        {
            let x = samples[i];
            proof {
                lemma_keep_last_push(start + samples@.take(i as int), CAPACITY as nat, x);
                assert((start + samples@.take(i as int)).push(x) =~= start + samples@.take(
                    i + 1,
                ));
            }
            ring_push(&mut self.ring, x);
            i = i + 1;
        }
        proof {
            assert(samples@.take(i as int) =~= samples@);
        }
    }

    /// Copies out everything held and empties the buffer.
    pub fn snapshot_and_clear(&mut self) -> (r: Vec<u32>)
        requires
            old(self).inv(),
        ensures
            final(self).inv(),
            r@ == snapshot_of(old(self)@),
            final(self)@ == after_snapshot(old(self)@),
            final(self)@ == Seq::<u32>::empty(),
    {
        let r = ring_to_vec(&self.ring);
        ring_clear(&mut self.ring);
        r
    }
}

/// Silence that stands for a gap of `elapsed_ms` milliseconds: exactly
/// sixteen zero samples per millisecond.
pub fn silence_run(elapsed_ms: u64) -> (r: Vec<u32>)
    requires
        SAMPLES_PER_MS * elapsed_ms <= usize::MAX,
    ensures
        r@ == zeros(silence_len(elapsed_ms as nat)),
{
    let n: usize = (SAMPLES_PER_MS * elapsed_ms) as usize;
    let mut r: Vec<u32> = Vec::new();
    while r.len() < n
        invariant
            r@.len() <= n,
            r@ == zeros(r@.len()),
            n as nat == silence_len(elapsed_ms as nat),
        decreases n - r@.len(),
    {
        r.push(SILENCE);
        proof {
            assert(r@ =~= zeros(r@.len()));
        }
    }
    r
}

/// What draining leaves for the transcription engine: the whole snapshot
/// when it holds at least `MIN_SAMPLES`, nothing otherwise.
pub open spec fn worth_transcribing(s: Seq<u32>) -> Option<Seq<u32>> {
    if s.len() >= MIN_SAMPLES {
        Some(s)
    } else {
        None
    }
}

impl SpeechBuffer {
    /// Takes in one frame that arrived `elapsed_ms` after the previous
    /// reaction point: first the silence for that gap, then the frame's
    /// converted samples.
    pub fn ingest(&mut self, elapsed_ms: u64, converted: &Vec<u32>)
        requires
            old(self).inv(),
            SAMPLES_PER_MS * elapsed_ms <= usize::MAX,
        ensures
            final(self).inv(),
            final(self)@ == keep_last(
                old(self)@ + zeros(silence_len(elapsed_ms as nat)) + converted@,
                CAPACITY as nat,
            ),
    {
        let ghost start = self@;
        let silence = silence_run(elapsed_ms);
        self.append(&silence);
        self.append(converted);
        proof {
            lemma_keep_last_concat(start + silence@, converted@, CAPACITY as nat);
        }
    }

    /// Drains the buffer on an idle timeout. It is emptied whatever the
    /// outcome; the snapshot is handed on only when it is worth transcribing.
    pub fn drain_for_transcription(&mut self) -> (r: Option<Vec<u32>>)
        requires
            old(self).inv(),
        ensures
            final(self).inv(),
            final(self)@ == after_snapshot(old(self)@),
            final(self)@ == Seq::<u32>::empty(),
            r.is_some() <==> worth_transcribing(old(self)@).is_some(),
            r.is_some() ==> Some(r.unwrap()@) == worth_transcribing(old(self)@),
    {
        let samples = self.snapshot_and_clear();
        if samples.len() >= MIN_SAMPLES {
            Some(samples)
        } else {
            None
        }
    }
}

/// Once the buffer has overflowed it holds exactly `CAPACITY` samples: the
/// most recently appended ones, in order.
pub proof fn lemma_overflow_keeps_latest(held: Seq<u32>, samples: Seq<u32>)
    requires
        held.len() + samples.len() > CAPACITY,
    ensures
        keep_last(held + samples, CAPACITY as nat).len() == CAPACITY,
        forall|i: int|
            0 <= i < CAPACITY ==> #[trigger] keep_last(held + samples, CAPACITY as nat)[i] == (held
                + samples)[held.len() + samples.len() - CAPACITY + i],
{
}

/// A snapshot taken right after another one is empty.
pub proof fn lemma_snapshot_twice(held: Seq<u32>)
    ensures
        snapshot_of(held) == held,
        snapshot_of(after_snapshot(held)) == Seq::<u32>::empty(),
{
}

/// An idle drain always empties the buffer, and one that comes right after
/// another never reaches the engine.
pub proof fn lemma_drain_after_drain(held: Seq<u32>)
    ensures
        after_snapshot(held) == Seq::<u32>::empty(),
        worth_transcribing(after_snapshot(held)) is None,
{
}

/// Idle drains of an empty buffer leave it empty and never reach the engine,
/// however many come in a row.
pub proof fn lemma_idle_drains_of_empty(n: nat)
    ensures
        forall|k: nat|
            k < n ==> #[trigger] drained_n_times(Seq::<u32>::empty(), k) == Seq::<u32>::empty()
                && worth_transcribing(drained_n_times(Seq::<u32>::empty(), k)) is None,
{
    assert forall|k: nat| k < n implies #[trigger] drained_n_times(Seq::<u32>::empty(), k)
        == Seq::<u32>::empty() && worth_transcribing(drained_n_times(Seq::<u32>::empty(), k))
        is None by {
        lemma_drained_n_times(k);
    }
}

/// What the buffer holds after `k` idle drains in a row, starting from `held`.
pub open spec fn drained_n_times(held: Seq<u32>, k: nat) -> Seq<u32>
    decreases k,
{
    if k == 0 {
        held
    } else {
        after_snapshot(drained_n_times(held, (k - 1) as nat))
    }
}

proof fn lemma_drained_n_times(k: nat)
    ensures
        drained_n_times(Seq::<u32>::empty(), k) == Seq::<u32>::empty(),
    decreases k,
{
    if k > 0 {
        lemma_drained_n_times((k - 1) as nat);
    }
}

} // verus!
