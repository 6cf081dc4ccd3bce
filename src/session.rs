//! The decisions of one connection's session: what to do when a frame
//! arrives, when the idle window passes without one, and when the channel
//! ends. The caller races the idle timer against the next frame, performs the
//! reaction, and hands back the next event.

use crate::pcm::{decode_pcm16, decoded};
use vstd::prelude::*;

verus! {

/// Milliseconds without an inbound frame after which buffered audio is
/// handed to transcription.
pub const IDLE_WINDOW_MS: u64 = 1500;

/// The textual acknowledgment sent after each processed binary frame.
pub fn acknowledgment() -> (r: &'static str)
    ensures
        r@ == seq!['o', 'k'],
{
    let r = "ok";
    proof {
        reveal_strlit("ok");
        assert(r@ =~= seq!['o', 'k']);
    }
    r
}

/// What the channel delivered, or that the idle window passed first.
pub enum Inbound {
    /// A binary frame of PCM16 audio.
    Binary(Vec<u8>),
    /// A frame that is not binary.
    NonBinary,
    /// No frame arrived within the idle window.
    IdleTimeout,
    /// The peer closed the connection or the protocol ended it.
    Closed,
    /// Any other channel error.
    Failed,
}

/// What the session asks its caller to do.
pub enum Reaction {
    /// Append silence for `elapsed_ms`, then the converted `pcm`, to the
    /// speech buffer, and acknowledge the frame.
    Ingest { elapsed_ms: u64, pcm: Vec<i16> },
    /// Log a warning and leave the buffer alone.
    Ignore,
    /// Start the idle drain in the background.
    Dispatch,
    /// End the session cleanly.
    Stop,
    /// End the session and log the error.
    Fail,
}

/// Milliseconds from `last` to `now`, clamped at zero.
pub open spec fn elapsed(last: u64, now: u64) -> u64 {
    if now >= last {
        (now - last) as u64
    } else {
        0
    }
}

/// One connection's session state.
pub struct Session {
    /// Time of the previous reaction point, in milliseconds.
    pub last_ms: u64,
    /// False once the channel has ended.
    pub open: bool,
}

impl Session {
    /// A session that starts at `now_ms`.
    pub fn new(now_ms: u64) -> (s: Session)
        ensures
            s.last_ms == now_ms,
            s.open,
    {
        Session { last_ms: now_ms, open: true }
    }

    /// Reacts to `event`, observed at `now_ms`. Every event while open is a
    /// new reaction point; a frame's silence covers the time since the last
    /// one. Once the channel has ended every event stops the session.
    pub fn step(&mut self, event: Inbound, now_ms: u64) -> (r: Reaction)
        ensures
            !old(self).open ==> r is Stop && *final(self) == *old(self),
            old(self).open ==> match event {
                Inbound::Binary(bytes) => (match r {
                    Reaction::Ingest { elapsed_ms, pcm } => elapsed_ms == elapsed(
                        old(self).last_ms,
                        now_ms,
                    ) && pcm@ == decoded(bytes@),
                    _ => false,
                }) && final(self).open && final(self).last_ms == now_ms,
                Inbound::NonBinary => r is Ignore && final(self).open && final(self).last_ms
                    == now_ms,
                Inbound::IdleTimeout => r is Dispatch && final(self).open && final(self).last_ms
                    == now_ms,
                Inbound::Closed => r is Stop && !final(self).open,
                Inbound::Failed => r is Fail && !final(self).open,
            },
            r is Dispatch <==> (old(self).open && event is IdleTimeout),
    {
        if !self.open {
            return Reaction::Stop;
        }
        match event {
            Inbound::Binary(bytes) => {
                let elapsed_ms: u64 = if now_ms >= self.last_ms {
                    now_ms - self.last_ms
                } else {
                    0
                };
                self.last_ms = now_ms;
                Reaction::Ingest { elapsed_ms, pcm: decode_pcm16(&bytes) }
            },
            Inbound::NonBinary => {
                self.last_ms = now_ms;
                Reaction::Ignore
            },
            Inbound::IdleTimeout => {
                self.last_ms = now_ms;
                Reaction::Dispatch
            },
            Inbound::Closed => {
                self.open = false;
                Reaction::Stop
            },
            Inbound::Failed => {
                self.open = false;
                Reaction::Fail
            },
        }
    }
}

} // verus!
