//! The bit-accumulation core shared by all decoding modes: one transition
//! per observed bit value, a terminal result every 26 bits, and a reset to
//! empty after each terminal result.

use vstd::prelude::*;

use crate::codec::decode_spec;
use crate::codec::Error;
use crate::codec::WiegandData;

verus! {

/// The in-progress state of one frame attempt: how many bits have been
/// collected and the word they form, most significant bit first.
#[derive(Debug, Copy, Clone, PartialEq, Eq, Structural)]
pub struct Accumulator {
    pub bits: u8,
    pub word: u32,
}

/// The word with one more bit shifted in at the least significant end.
pub open spec fn shift_in(w: u32, bit: bool) -> u32 {
    (w << 1) | (if bit {
        1u32
    } else {
        0u32
    })
}

/// The empty accumulator: no bits collected.
pub open spec fn empty_acc() -> Accumulator {
    Accumulator { bits: 0, word: 0 }
}

/// One transition of the accumulation state machine: shift the bit in; the
/// 26th bit completes the frame, whose decode is emitted while the state
/// resets to empty.
pub open spec fn acc_step(a: Accumulator, bit: bool) -> (Accumulator, Option<
    Result<WiegandData, Error>,
>) {
    let w = shift_in(a.word, bit);
    if a.bits >= 25 {
        (empty_acc(), Some(decode_spec(w)))
    } else {
        (Accumulator { bits: (a.bits + 1) as u8, word: w }, None)
    }
}

/// The terminal results emitted by one transition: none while the frame is
/// still being assembled, one when it completes.
pub open spec fn emitted(o: Option<Result<WiegandData, Error>>) -> Seq<
    Result<WiegandData, Error>,
> {
    match o {
        Some(r) => seq![r],
        None => Seq::empty(),
    }
}

/// The state and the terminal results after feeding each bit of `s`, in
/// order, through the accumulation state machine.
pub open spec fn run(a: Accumulator, s: Seq<bool>) -> (Accumulator, Seq<
    Result<WiegandData, Error>,
>)
    decreases s.len(),
{
    if s.len() == 0 {
        (a, Seq::empty())
    } else {
        let t = acc_step(a, s[0]);
        let rest = run(t.0, s.drop_first());
        (rest.0, emitted(t.1) + rest.1)
    }
}

/// The word formed by shifting each bit of `s` into `w`, in order.
pub open spec fn extend_word(w: u32, s: Seq<bool>) -> u32
    decreases s.len(),
{
    if s.len() == 0 {
        w
    } else {
        extend_word(shift_in(w, s[0]), s.drop_first())
    }
}

/// The word formed by the bits of `s`, most significant first.
pub open spec fn word_of(s: Seq<bool>) -> u32 {
    extend_word(0, s)
}

impl Accumulator {
    /// At most 25 bits are pending and the word holds no more bits than
    /// have been collected.
    pub open spec fn wf(self) -> bool {
        self.bits <= 25 && self.word >> self.bits == 0
    }

    /// A fresh, empty accumulator.
    pub fn new() -> (a: Accumulator)
        ensures
            a == empty_acc(),
    {
        Accumulator { bits: 0, word: 0 }
    }

    /// Abandons the frame in progress: the next bit starts a fresh frame.
    pub fn reset(&mut self)
        ensures
            *final(self) == empty_acc(),
    {
        self.bits = 0;
        self.word = 0;
    }

    /// Feeds one observed bit value into the accumulator. Returns `None`
    /// while the frame is still being assembled; the 26th bit completes the
    /// frame and returns its decode, after which the accumulator is empty.
    pub fn push_bit(&mut self, bit: bool) -> (r: Option<Result<WiegandData, Error>>)
        ensures
            (*final(self), r) == acc_step(*old(self), bit),
            old(self).wf() ==> final(self).wf(),
    {
        proof {
            let w: u32 = old(self).word;
            let n: u8 = old(self).bits;
            let b: u32 = if bit {
                1u32
            } else {
                0u32
            };
            assert(w >> n == 0 && n <= 24 && (b == 0 || b == 1) ==> ((w << 1) | b) >> (
            (n + 1) as u8) == 0) by (bit_vector);
            assert(0u32 >> 0u8 == 0u32) by (bit_vector);
        }
        let w: u32 = (self.word << 1) | (if bit {
            1u32
        } else {
            0u32
        });
        if self.bits >= 25 {
            self.bits = 0;
            self.word = 0;
            Some(WiegandData::try_from(w))
        } else {
            self.bits = self.bits + 1;
            self.word = w;
            None
        }
    }
}

/// Feeding the bits that complete the current frame emits exactly the decode
/// of the assembled word and leaves the accumulator empty.
pub proof fn lemma_frame_segment(a: Accumulator, s: Seq<bool>)
    requires
        a.bits + s.len() == 26,
        s.len() >= 1,
    ensures
        run(a, s) == (empty_acc(), seq![decode_spec(extend_word(a.word, s))]),
    decreases s.len(),
{
    let t = acc_step(a, s[0]);
    if s.len() == 1 {
        assert(s.drop_first().len() == 0);
        assert(extend_word(shift_in(a.word, s[0]), s.drop_first()) == shift_in(a.word, s[0]));
        assert(extend_word(a.word, s) == shift_in(a.word, s[0]));
        assert(run(t.0, s.drop_first()) == (t.0, Seq::<Result<WiegandData, Error>>::empty()));
        assert(run(a, s).1 =~= seq![decode_spec(extend_word(a.word, s))]);
    } else {
        lemma_frame_segment(t.0, s.drop_first());
        assert(extend_word(a.word, s) == extend_word(t.0.word, s.drop_first()));
        assert(run(a, s).1 =~= seq![decode_spec(extend_word(a.word, s))]);
    }
}

/// Twenty-six bits fed to an empty accumulator emit exactly the decode of
/// the word they form, and the accumulator is empty again.
pub proof fn lemma_frame_from_empty(s: Seq<bool>)
    requires
        s.len() == 26,
    ensures
        run(empty_acc(), s) == (empty_acc(), seq![decode_spec(word_of(s))]),
{
    lemma_frame_segment(empty_acc(), s);
}

/// Feeding two batches of bits one after the other, order kept, is the same
/// as feeding their concatenation at once: bits are applied strictly in the
/// order they arrive, whatever the batching.
pub proof fn lemma_run_append(a: Accumulator, s1: Seq<bool>, s2: Seq<bool>)
    ensures
        run(a, s1 + s2).0 == run(run(a, s1).0, s2).0,
        run(a, s1 + s2).1 == run(a, s1).1 + run(run(a, s1).0, s2).1,
    decreases s1.len(),
{
    if s1.len() == 0 {
        assert(s1 + s2 =~= s2);
        assert(run(a, s1).1 + run(run(a, s1).0, s2).1 =~= run(a, s2).1);
    } else {
        let t = acc_step(a, s1[0]);
        lemma_run_append(t.0, s1.drop_first(), s2);
        assert((s1 + s2).drop_first() =~= s1.drop_first() + s2);
        assert((s1 + s2)[0] == s1[0]);
        assert(run(a, s1 + s2).1 =~= run(a, s1).1 + run(run(a, s1).0, s2).1);
    }
}

/// After a terminal outcome the accumulator is empty, so the next 26 bits
/// decode on their own, independently of anything fed before.
pub proof fn lemma_reset_independent(a: Accumulator, bit: bool, s: Seq<bool>)
    requires
        acc_step(a, bit).1 is Some,
        s.len() == 26,
    ensures
        run(acc_step(a, bit).0, s) == run(empty_acc(), s),
        run(empty_acc(), s) == (empty_acc(), seq![decode_spec(word_of(s))]),
{
    lemma_frame_from_empty(s);
}

} // verus!
