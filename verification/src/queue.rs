//! A strictly FIFO queue of bit events for the interrupt-fed decoding mode:
//! a producer pushes one bit value per detected pulse, and a drain step feeds
//! the queued bits, in the exact order they were pushed, into an accumulator.

use vstd::prelude::*;

use crate::codec::Error;
use crate::codec::WiegandData;
use crate::decoder::run;
use crate::decoder::Accumulator;

verus! {

/// A first-in, first-out queue of bit values. The view is the sequence of
/// bits pushed and not yet popped, oldest first.
pub struct BitQueue {
    items: Vec<bool>,
}

impl View for BitQueue {
    type V = Seq<bool>;

    closed spec fn view(&self) -> Seq<bool> {
        self.items@
    }
}

impl BitQueue {
    /// A fresh, empty queue.
    pub fn new() -> (q: BitQueue)
        ensures
            q@ == Seq::<bool>::empty(),
    {
        let q = BitQueue { items: Vec::new() };
        proof {
            assert(q@ =~= Seq::<bool>::empty());
        }
        q
    }

    /// How many bits are queued.
    pub fn len(&self) -> (n: usize)
        ensures
            n == self@.len(),
    {
        self.items.len()
    }

    /// Appends one bit value at the back of the queue.
    pub fn push(&mut self, bit: bool)
        ensures
            final(self)@ == old(self)@.push(bit),
    {
        self.items.push(bit);
    }

    /// Removes and returns the oldest queued bit value, if any.
    pub fn pop(&mut self) -> (r: Option<bool>)
        ensures
            old(self)@.len() == 0 ==> r is None && *final(self) == *old(self),
            old(self)@.len() > 0 ==> r == Some(old(self)@[0]) && final(self)@ == old(
                self,
            )@.drop_first(),
    {
        if self.items.len() > 0 {
            let bit = self.items.remove(0);
            proof {
                assert(self@ =~= old(self)@.drop_first());
            }
            Some(bit)
        } else {
            None
        }
    }

    /// Pulls every queued bit, oldest first, and feeds each into the
    /// accumulator; the terminal results emitted along the way are returned
    /// in order. The queue is empty afterwards, and the accumulator and the
    /// results are exactly those of feeding the same bits one by one.
    pub fn drain_into(&mut self, acc: &mut Accumulator) -> (outs: Vec<Result<WiegandData, Error>>)
        ensures
            (*final(acc), outs@) == run(*old(acc), old(self)@),
            final(self)@ == Seq::<bool>::empty(),
    {
        let mut outs: Vec<Result<WiegandData, Error>> = Vec::new();
        proof {
            assert(outs@ + run(*acc, self@).1 =~= run(*acc, self@).1);
        }
        while self.len() > 0
            invariant
                run(*old(acc), old(self)@).0 == run(*acc, self@).0,
                run(*old(acc), old(self)@).1 == outs@ + run(*acc, self@).1,
            decreases self@.len(),
        {
            let ghost pre_q: Seq<bool> = self@;
            let ghost acc_pre: Accumulator = *acc;
            let ghost outs_pre: Seq<Result<WiegandData, Error>> = outs@;
            let popped = self.pop();
            if let Some(bit) = popped {
                let out = acc.push_bit(bit);
                proof {
                    assert(run(acc_pre, pre_q).0 == run(*acc, self@).0);
                }
                if let Some(r) = out {
                    outs.push(r);
                    proof {
                        assert(outs_pre + run(acc_pre, pre_q).1 =~= outs@ + run(*acc, self@).1);
                    }
                } else {
                    proof {
                        assert(outs_pre + run(acc_pre, pre_q).1 =~= outs@ + run(*acc, self@).1);
                    }
                }
            }
        }
        proof {
            assert(self@ =~= Seq::<bool>::empty());
            assert(run(*acc, self@) == (*acc, Seq::<Result<WiegandData, Error>>::empty()));
            assert(outs@ + Seq::<Result<WiegandData, Error>>::empty() =~= outs@);
        }
        outs
    }
}

} // verus!
