//! The delay line: one circular buffer that returns every sample a fixed
//! number of samples later.
//!
//! For each sample the caller first looks at the oldest value in the line,
//! mixes it into the sample, and then pushes the mixed sample: the echo that
//! is heard therefore carries earlier echoes with it.

use vstd::prelude::*;
use crate::buffer::{shifted, stepped, ReverbBuffer};

verus! {

/// Length of the delay line of the synthesizer, in samples.
pub const DELAY_LENGTH: usize = 23009;

/// A window after each of `values` has been pushed in turn.
pub open spec fn fed<T>(window: Seq<T>, values: Seq<T>) -> Seq<T>
    decreases values.len(),
{
    if values.len() == 0 {
        window
    } else {
        shifted(fed(window, values.drop_last()), values.last())
    }
}

/// Pushing values moves the window along what was there followed by what
/// was pushed: it always shows the last values of that sequence, as many as
/// the line is long.
pub proof fn lemma_fed_slides<T>(window: Seq<T>, values: Seq<T>)
    requires
        window.len() > 0,
    ensures
        fed(window, values) == (window + values).subrange(
            values.len() as int,
            (values.len() + window.len()) as int,
        ),
    decreases values.len(),
{
    let all = window + values;
    if values.len() == 0 {
        assert(all.subrange(0, window.len() as int) =~= window);
    } else {
        let before = values.drop_last();
        lemma_fed_slides(window, before);
        assert((window + before) =~= all.drop_last());
        assert(fed(window, values) =~= all.subrange(
            values.len() as int,
            (values.len() + window.len()) as int,
        ));
    }
}

/// The echo comes back exactly one length of the line later: once at least
/// as many values have been pushed as the line is long, the value that is
/// read next is the one that was pushed that many pushes ago.
pub proof fn lemma_echo_after_one_length<T>(window: Seq<T>, values: Seq<T>)
    requires
        window.len() > 0,
        values.len() >= window.len(),
    ensures
        fed(window, values).len() == window.len(),
        fed(window, values).first() == values[values.len() - window.len()],
{
    lemma_fed_slides(window, values);
}

/// Until the line has been filled once, what is read is what the line held
/// at first.
pub proof fn lemma_silence_before_echo<T>(window: Seq<T>, values: Seq<T>)
    requires
        values.len() < window.len(),
    ensures
        fed(window, values).len() == window.len(),
        fed(window, values).first() == window[values.len() as int],
{
    lemma_fed_slides(window, values);
}

/// A delay line of samples.
pub struct DelayLine<T> {
    line: ReverbBuffer<T>,
}

impl<T: Copy> View for DelayLine<T> {
    type V = Seq<T>;

    /// The samples in the line, oldest first.
    closed spec fn view(&self) -> Seq<T> {
        self.line@
    }
}

impl<T: Copy> DelayLine<T> {
    /// The line holds at least one sample.
    pub closed spec fn wf(&self) -> bool {
        self.line.wf()
    }

    /// The cell of the line that is read and written next, counted from
    /// zero.
    pub closed spec fn cursor(&self) -> int {
        self.line.cursor()
    }

    /// A well-formed line is not empty.
    pub proof fn lemma_wf(&self)
        requires
            self.wf(),
        ensures
            self@.len() > 0,
            0 <= self.cursor() < self@.len(),
    {
        self.line.lemma_wf();
    }

    /// A line of `len` samples that all are `fill`.
    pub fn new(len: usize, fill: T) -> (delay: DelayLine<T>)
        requires
            len > 0,
        ensures
            delay.wf(),
            delay.cursor() == 0,
            delay@ == Seq::new(len as nat, |i: int| fill),
    {
        DelayLine { line: ReverbBuffer::new(len, fill) }
    }

    /// The length of the line in samples.
    pub fn len(&self) -> (n: usize)
        requires
            self.wf(),
        ensures
            n == self@.len(),
    {
        proof {
            self.line.lemma_wf();
        }
        self.line.len()
    }

    /// The oldest sample in the line: the one that was pushed one length of
    /// the line ago.
    pub fn peek(&self) -> (echo: T)
        requires
            self.wf(),
        ensures
            echo == self@.first(),
    {
        self.line.read()
    }

    /// Puts `value` in the place of the oldest sample.
    pub fn push(&mut self, value: T)
        requires
            old(self).wf(),
        ensures
            final(self).wf(),
            final(self).cursor() == stepped(old(self).cursor(), old(self)@.len()),
            final(self)@ == shifted(old(self)@, value),
    {
        proof {
            self.line.lemma_wf();
        }
        self.line.push(value);
    }
}

} // verus!
