//! A circular buffer with one cursor.
//!
//! The buffer has a fixed number of cells and a cursor on one of them. What
//! is read and what is written is the cell under the cursor; the cursor moves
//! on by one cell at a time and returns to the first cell after the last. A
//! value that is written and then left behind is therefore read again after
//! as many steps as the buffer has cells.
//!
//! The buffer stores samples and never computes with them, so it is generic
//! in their type.

use vstd::prelude::*;

verus! {

/// The cells of a buffer in the order in which a cursor at `cursor` reaches
/// them: first the cell under the cursor, last the cell just behind it.
pub open spec fn unrolled<T>(cells: Seq<T>, cursor: int) -> Seq<T> {
    cells.subrange(cursor, cells.len() as int) + cells.subrange(0, cursor)
}

/// The cell that a cursor reaches from cell `cursor` of a buffer of `len`
/// cells: the next one, and the first one after the last.
pub open spec fn stepped(cursor: int, len: nat) -> int {
    if cursor + 1 == len {
        0
    } else {
        cursor + 1
    }
}

/// A window after the cursor has moved on by one cell: the cell that was
/// first is now last.
pub open spec fn turned<T>(window: Seq<T>) -> Seq<T> {
    window.drop_first().push(window.first())
}

/// A window after `value` has been written under the cursor and the cursor
/// has moved on: the oldest value is gone, and `value` is the newest.
pub open spec fn shifted<T>(window: Seq<T>, value: T) -> Seq<T> {
    window.drop_first().push(value)
}

/// A circular buffer of samples.
pub struct ReverbBuffer<T> {
    buffer: Vec<T>,
    pos: usize,
}

impl<T: Copy> View for ReverbBuffer<T> {
    type V = Seq<T>;

    /// The stored values in the order in which the cursor reaches them.
    closed spec fn view(&self) -> Seq<T> {
        unrolled(self.buffer@, self.pos as int)
    }
}

impl<T: Copy> ReverbBuffer<T> {
    /// The cell that the cursor is on, counted from zero.
    pub closed spec fn cursor(&self) -> int {
        self.pos as int
    }

    /// The number of cells.
    pub closed spec fn spec_len(&self) -> nat {
        self.buffer@.len()
    }

    /// The cursor is on a cell.
    pub closed spec fn wf(&self) -> bool {
        self.pos < self.buffer@.len()
    }

    /// A well-formed buffer has at least one cell, and its window shows
    /// every cell once.
    pub proof fn lemma_wf(&self)
        requires
            self.wf(),
        ensures
            0 <= self.cursor() < self.spec_len(),
            self@.len() == self.spec_len(),
    {
    }

    /// A buffer of `n` cells that all hold `fill`, with the cursor on the
    /// first.
    pub fn new(n: usize, fill: T) -> (ring: ReverbBuffer<T>)
        requires
            n > 0,
        ensures
            ring.wf(),
            ring.cursor() == 0,
            ring.spec_len() == n,
            ring@ == Seq::new(n as nat, |i: int| fill),
    {
        let mut buffer: Vec<T> = Vec::new();
        let mut i: usize = 0;
        while i < n
            invariant
                i <= n,
                buffer@.len() == i,
                forall|j: int| 0 <= j < i ==> buffer@[j] == fill,
            decreases n - i,
        {
            buffer.push(fill);
            i = i + 1;
        }
        let ring = ReverbBuffer { buffer, pos: 0 };
        assert(ring@ =~= Seq::new(n as nat, |i: int| fill));
        ring
    }

    /// The number of cells.
    pub fn len(&self) -> (n: usize)
        ensures
            n == self.spec_len(),
    {
        self.buffer.len()
    }

    /// The value under the cursor: the oldest one in the buffer.
    pub fn read(&self) -> (value: T)
        requires
            self.wf(),
        ensures
            value == self@.first(),
    {
        self.buffer[self.pos]
    }

    /// Stores `value` under the cursor, which stays where it is.
    pub fn write(&mut self, value: T)
        requires
            old(self).wf(),
        ensures
            final(self).wf(),
            final(self).cursor() == old(self).cursor(),
            final(self).spec_len() == old(self).spec_len(),
            final(self)@ == old(self)@.update(0, value),
    {
        self.buffer.set(self.pos, value);
        assert(self@ =~= old(self)@.update(0, value));
    }

    /// Moves the cursor on by one cell, and from the last cell to the first.
    pub fn increment(&mut self)
        requires
            old(self).wf(),
        ensures
            final(self).wf(),
            final(self).cursor() == stepped(old(self).cursor(), old(self).spec_len()),
            final(self).spec_len() == old(self).spec_len(),
            final(self)@ == turned(old(self)@),
    {
        let n = self.buffer.len();
        self.pos = self.pos + 1;
        if self.pos >= n {
            self.pos = 0;
        }
        assert(self@ =~= turned(old(self)@));
    }

    /// Stores `value` under the cursor and moves the cursor on.
    pub fn push(&mut self, value: T)
        requires
            old(self).wf(),
        ensures
            final(self).wf(),
            final(self).cursor() == stepped(old(self).cursor(), old(self).spec_len()),
            final(self).spec_len() == old(self).spec_len(),
            final(self)@ == shifted(old(self)@, value),
    {
        self.write(value);
        self.increment();
        assert(self@ =~= shifted(old(self)@, value));
    }
}

} // verus!
