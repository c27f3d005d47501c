//! The per-bit timing state machine of the decoder: each poll consumes the
//! current levels of the two lines and whether the armed countdown expired,
//! advances by at most one detectable transition, and never blocks.

use vstd::prelude::*;

use crate::codec::decode_spec;
use crate::codec::Error;
use crate::codec::WiegandData;
use crate::decoder::extend_word;
use crate::decoder::shift_in;
use crate::decoder::word_of;

verus! {

/// Where the reader stands between polls.
///
/// In `AwaitingFrameStart` the wait for a first pulse is unbounded; in
/// `AwaitingBitHigh` a pulse is in progress and must end within the
/// pulse-end budget; in `AwaitingBitLow` the next pulse must begin within
/// the inter-bit budget.
#[derive(Debug, Copy, Clone, PartialEq, Eq, Structural)]
pub enum Phase {
    AwaitingFrameStart,
    AwaitingBitHigh,
    AwaitingBitLow,
}

/// What one poll reports: `Pending` is "no new frame yet, try again"; the
/// other two are terminal, and the reader is idle again after them.
#[derive(Debug, Copy, Clone, PartialEq, Eq, Structural)]
pub enum PollOutcome {
    Pending,
    Complete(WiegandData),
    Failed(Error),
}

/// The decoder state driven by polling: the frame in progress and the
/// transition currently awaited.
#[derive(Debug, Copy, Clone, PartialEq, Eq, Structural)]
pub struct FrameReader {
    pub phase: Phase,
    pub bits: u8,
    pub word: u32,
}

/// The reader at rest: no frame in progress.
pub open spec fn idle_reader() -> FrameReader {
    FrameReader { phase: Phase::AwaitingFrameStart, bits: 0, word: 0 }
}

/// The bit count after one more sampled bit, capped so the step is total.
pub open spec fn inc_bits(b: u8) -> u8 {
    if b >= 26 {
        b
    } else {
        (b + 1) as u8
    }
}

/// The state after sampling one bit at the start of a pulse: a pulse on the
/// second line encodes 1, a pulse on the first line encodes 0.
pub open spec fn sampled(r: FrameReader, d1: bool) -> FrameReader {
    FrameReader { phase: Phase::AwaitingBitHigh, bits: inc_bits(r.bits), word: shift_in(r.word, d1) }
}

/// The terminal outcome of a fully assembled word.
pub open spec fn frame_outcome(w: u32) -> PollOutcome {
    match decode_spec(w) {
        Ok(d) => PollOutcome::Complete(d),
        Err(e) => PollOutcome::Failed(e),
    }
}

/// One poll of the reader: the next state and what the poll reports, as a
/// function of the two line levels (true = electrically active) and of
/// whether the armed countdown has expired.
pub open spec fn reader_step(r: FrameReader, d0: bool, d1: bool, expired: bool) -> (
    FrameReader,
    PollOutcome,
) {
    match r.phase {
        Phase::AwaitingFrameStart => if d0 || d1 {
            (sampled(r, d1), PollOutcome::Pending)
        } else {
            (r, PollOutcome::Pending)
        },
        Phase::AwaitingBitLow => if d0 || d1 {
            (sampled(r, d1), PollOutcome::Pending)
        } else if expired {
            (idle_reader(), PollOutcome::Failed(Error::TimedOutUp(r.word)))
        } else {
            (r, PollOutcome::Pending)
        },
        Phase::AwaitingBitHigh => if d0 || d1 {
            if expired {
                (idle_reader(), PollOutcome::Failed(Error::TimedOutDown(r.word)))
            } else {
                (r, PollOutcome::Pending)
            }
        } else if r.bits >= 26 {
            (idle_reader(), frame_outcome(r.word))
        } else {
            (FrameReader { phase: Phase::AwaitingBitLow, bits: r.bits, word: r.word },
            PollOutcome::Pending)
        },
    }
}

impl FrameReader {
    /// At most one frame's worth of bits is pending, and the word holds no
    /// more bits than have been sampled.
    pub open spec fn wf(self) -> bool {
        match self.phase {
            Phase::AwaitingFrameStart => self.bits == 0 && self.word == 0,
            Phase::AwaitingBitHigh => 1 <= self.bits <= 26 && self.word >> self.bits == 0,
            Phase::AwaitingBitLow => 1 <= self.bits <= 25 && self.word >> self.bits == 0,
        }
    }

    /// A fresh reader, at rest.
    pub fn new() -> (r: FrameReader)
        ensures
            r == idle_reader(),
    {
        FrameReader { phase: Phase::AwaitingFrameStart, bits: 0, word: 0 }
    }

    /// Abandons the frame in progress: the reader is at rest again. Safe at
    /// any time; there is nothing else to release.
    pub fn reset(&mut self)
        ensures
            *final(self) == idle_reader(),
    {
        self.phase = Phase::AwaitingFrameStart;
        self.bits = 0;
        self.word = 0;
    }

    /// Advances the reader by at most one detectable transition and reports
    /// `Pending`, a completed frame, or a terminal failure. `d0_active` and
    /// `d1_active` are the current levels of the two lines (true when
    /// electrically active); `timeout_expired` says whether the countdown
    /// armed for the awaited transition has run out. The caller arms the
    /// pulse-end budget when the phase becomes `AwaitingBitHigh` and the
    /// inter-bit budget when it becomes `AwaitingBitLow`; no countdown
    /// bounds the wait in `AwaitingFrameStart`.
    pub fn poll(&mut self, d0_active: bool, d1_active: bool, timeout_expired: bool) -> (out:
        PollOutcome)
        ensures
            (*final(self), out) == reader_step(*old(self), d0_active, d1_active, timeout_expired),
            old(self).wf() ==> final(self).wf(),
    {
        proof {
            let w: u32 = old(self).word;
            let n: u8 = old(self).bits;
            let b: u32 = if d1_active {
                1u32
            } else {
                0u32
            };
            assert(w >> n == 0 && n <= 25 && (b == 0 || b == 1) ==> ((w << 1) | b) >> (
            (n + 1) as u8) == 0) by (bit_vector);
            assert(0u32 >> 0u8 == 0u32) by (bit_vector);
        }
        match self.phase {
            Phase::AwaitingFrameStart => {
                if d0_active || d1_active {
                    self.sample(d1_active);
                }
                PollOutcome::Pending
            },
            Phase::AwaitingBitLow => {
                if d0_active || d1_active {
                    self.sample(d1_active);
                    PollOutcome::Pending
                } else if timeout_expired {
                    let partial: u32 = self.word;
                    self.reset();
                    PollOutcome::Failed(Error::TimedOutUp(partial))
                } else {
                    PollOutcome::Pending
                }
            },
            Phase::AwaitingBitHigh => {
                if d0_active || d1_active {
                    if timeout_expired {
                        let partial: u32 = self.word;
                        self.reset();
                        PollOutcome::Failed(Error::TimedOutDown(partial))
                    } else {
                        PollOutcome::Pending
                    }
                } else if self.bits >= 26 {
                    let word: u32 = self.word;
                    self.reset();
                    match WiegandData::try_from(word) {
                        Ok(d) => PollOutcome::Complete(d),
                        Err(e) => PollOutcome::Failed(e),
                    }
                } else {
                    self.phase = Phase::AwaitingBitLow;
                    PollOutcome::Pending
                }
            },
        }
    }

    /// Shifts the bit sampled at the start of a pulse into the frame in
    /// progress and begins awaiting the end of the pulse.
    fn sample(&mut self, d1_active: bool)
        ensures
            *final(self) == sampled(*old(self), d1_active),
    {
        self.phase = Phase::AwaitingBitHigh;
        if self.bits < 26 {
            self.bits = self.bits + 1;
        }
        self.word = (self.word << 1) | (if d1_active {
            1u32
        } else {
            0u32
        });
    }
}

/// Every terminal outcome — a completed frame or any failure — leaves the
/// reader at rest: a malformed or interrupted frame never wedges the
/// decoder, and the next pulse starts a fresh frame.
pub proof fn lemma_terminal_resets(r: FrameReader, d0: bool, d1: bool, expired: bool)
    ensures
        reader_step(r, d0, d1, expired).1 != PollOutcome::Pending ==> reader_step(
            r,
            d0,
            d1,
            expired,
        ).0 == idle_reader(),
{
}

/// The poll outcomes a caller sees from one step: none while `Pending`, the
/// one terminal outcome otherwise.
pub open spec fn emitted_poll(o: PollOutcome) -> Seq<PollOutcome> {
    if o == PollOutcome::Pending {
        Seq::empty()
    } else {
        seq![o]
    }
}

/// The reader state and the non-`Pending` outcomes after feeding each bit of
/// `s` as one well-formed bit event: a poll that sees the pulse (on the
/// second line for a 1, on the first line for a 0), then a poll that sees
/// both lines back at rest, with no countdown expiring.
pub open spec fn feed_frame(r: FrameReader, s: Seq<bool>) -> (FrameReader, Seq<PollOutcome>)
    decreases s.len(),
{
    if s.len() == 0 {
        (r, Seq::empty())
    } else {
        let t1 = reader_step(r, !s[0], s[0], false);
        let t2 = reader_step(t1.0, false, false, false);
        let rest = feed_frame(t2.0, s.drop_first());
        (rest.0, emitted_poll(t1.1) + emitted_poll(t2.1) + rest.1)
    }
}

/// Feeding the well-formed bit events that complete the current frame, with
/// no gaps, emits exactly the decode of the assembled word and leaves the
/// reader at rest.
pub proof fn lemma_polled_frame_segment(r: FrameReader, s: Seq<bool>)
    requires
        r.bits + s.len() == 26,
        s.len() >= 1,
        r.phase == Phase::AwaitingFrameStart || r.phase == Phase::AwaitingBitLow,
    ensures
        feed_frame(r, s) == (idle_reader(), seq![frame_outcome(extend_word(r.word, s))]),
    decreases s.len(),
{
    let t1 = reader_step(r, !s[0], s[0], false);
    let t2 = reader_step(t1.0, false, false, false);
    if s.len() == 1 {
        assert(s.drop_first().len() == 0);
        assert(extend_word(shift_in(r.word, s[0]), s.drop_first()) == shift_in(r.word, s[0]));
        assert(feed_frame(t2.0, s.drop_first()) == (t2.0, Seq::<PollOutcome>::empty()));
        assert(feed_frame(r, s).1 =~= seq![frame_outcome(extend_word(r.word, s))]);
    } else {
        lemma_polled_frame_segment(t2.0, s.drop_first());
        assert(extend_word(r.word, s) == extend_word(t2.0.word, s.drop_first()));
        assert(feed_frame(r, s).1 =~= seq![frame_outcome(extend_word(r.word, s))]);
    }
}

/// From an idle reader, 26 well-formed bit events with no gaps produce
/// exactly one outcome — the decode of the word those bits form — and the
/// reader is at rest again, ready for the next frame.
pub proof fn lemma_polled_frame(s: Seq<bool>)
    requires
        s.len() == 26,
    ensures
        feed_frame(idle_reader(), s) == (idle_reader(), seq![frame_outcome(word_of(s))]),
{
    lemma_polled_frame_segment(idle_reader(), s);
}

} // verus!
