//! What was captured and has not been consumed yet.

use vstd::prelude::*;

verus! {

/// Samples on their way from the capture side to the recogniser. The producer
/// appends; the consumer takes everything at once.
pub struct AudioSink<S> {
    staged: Vec<S>,
}

impl<S> View for AudioSink<S> {
    type V = Seq<S>;

    closed spec fn view(&self) -> Seq<S> {
        self.staged@
    }
}

impl<S: Copy> AudioSink<S> {
    pub fn new() -> (sink: AudioSink<S>)
        ensures
            sink@ == Seq::<S>::empty(),
    {
        AudioSink { staged: Vec::new() }
    }

    /// Appends what was captured.
    pub fn push(&mut self, samples: &[S])
        ensures
            final(self)@ == old(self)@ + samples@,
    {
        let ghost before = self@;
        let mut i: usize = 0;
        while i < samples.len()
            invariant
                i <= samples@.len(),
                self@ == before + samples@.take(i as int),
            decreases samples@.len() - i,
        {
            self.staged.push(samples[i]);
            i += 1;
            assert(samples@.take(i as int) =~= samples@.take(i - 1).push(samples@[i - 1]));
            assert(before + samples@.take(i as int) =~= (before + samples@.take(i - 1)).push(
                samples@[i - 1],
            ));
        }
        assert(samples@.take(i as int) =~= samples@);
        assert(self@ =~= before + samples@);
    }

    /// Drops what was captured and not consumed, for a cancelled utterance.
    pub fn clear(&mut self)
        ensures
            final(self)@ == Seq::<S>::empty(),
    {
        self.staged.clear();
    }

    /// Takes everything that is staged in exchange for a spare buffer, whose
    /// contents are dropped. Says whether there was anything.
    pub fn drain(&mut self, spare: &mut Vec<S>) -> (any: bool)
        ensures
            final(spare)@ == old(self)@,
            final(self)@ == Seq::<S>::empty(),
            any == (old(self)@.len() > 0),
    {
        spare.clear();
        std::mem::swap(&mut self.staged, spare);
        spare.len() > 0
    }
}

} // verus!
