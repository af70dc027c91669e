//! The voice pool: ten slots, and the policy that hands them out.
//!
//! A note-on takes the lowest slot whose voice has been released, if there is
//! one, and leaves the round-robin cursor alone. Otherwise it takes the slot
//! under the cursor, whatever sounds there, and moves the cursor on by one,
//! from the last slot back to the first.

use vstd::prelude::*;
use crate::voice::{Tone, Voice};

verus! {

/// Number of slots in a pool.
pub const VOICES: usize = 10;

/// What a pool holds, as plain values.
pub struct PoolState {
    /// The voices, by slot.
    pub voices: Seq<Voice>,
    /// The slot that the next note-on takes when no voice has been released.
    pub cursor: int,
    /// Samples per second, which scales the levels of the voices.
    pub sample_rate: u32,
}

impl PoolState {
    /// A pool of ten idle voices with the cursor on the first slot.
    pub open spec fn fresh(sample_rate: u32) -> PoolState {
        PoolState { voices: Seq::new(10, |i: int| Voice::spec_idle()), cursor: 0, sample_rate }
    }

    /// Ten voices within the reach of the envelope, a cursor on one of the
    /// slots, and a sample rate above zero.
    pub open spec fn wf(self) -> bool {
        &&& self.voices.len() == VOICES
        &&& 0 <= self.cursor < VOICES
        &&& self.sample_rate > 0
        &&& forall|i: int| 0 <= i < self.voices.len() ==> (#[trigger] self.voices[i]).wf(self.sample_rate)
    }

    /// Whether some slot holds a released voice.
    pub open spec fn has_released(self) -> bool {
        exists|i: int| 0 <= i < self.voices.len() && (#[trigger] self.voices[i]).released
    }

    /// Whether the next note-on takes `slot`: it is the lowest slot with a
    /// released voice, or no voice is released and the cursor is on it.
    pub open spec fn takes(self, slot: int) -> bool {
        &&& 0 <= slot < self.voices.len()
        &&& forall|j: int| 0 <= j < slot ==> !(#[trigger] self.voices[j]).released
        &&& self.voices[slot].released || (slot == self.cursor && !self.has_released())
    }

    /// The slot that the next note-on takes.
    pub open spec fn target(self) -> int {
        choose|slot: int| self.takes(slot)
    }

    /// The cursor after the next note-on: where it was if a released voice
    /// is reused, else one slot further, wrapping after the last slot.
    pub open spec fn next_cursor(self) -> int {
        if self.has_released() {
            self.cursor
        } else if self.cursor + 1 >= self.voices.len() {
            0
        } else {
            self.cursor + 1
        }
    }

    /// The pool after a note-on for `note` at `freq` Hz: the target slot
    /// holds a newly struck voice, the other slots are untouched.
    pub open spec fn allocated(self, note: u8, freq: u32) -> PoolState {
        PoolState {
            voices: self.voices.update(
                self.target(),
                Voice::spec_struck(note, freq, self.sample_rate),
            ),
            cursor: self.next_cursor(),
            ..self
        }
    }

    /// The pool after a note-off for `note`: every voice struck by that note
    /// is released, sounding or not.
    pub open spec fn released(self, note: u8) -> PoolState {
        PoolState {
            voices: Seq::new(self.voices.len(), |i: int| self.voices[i].heard_off(note)),
            ..self
        }
    }

    /// The pool one sample later: every voice has ticked.
    pub open spec fn ticked(self) -> PoolState {
        PoolState {
            voices: Seq::new(self.voices.len(), |i: int| self.voices[i].ticked(self.sample_rate)),
            ..self
        }
    }

    /// The pool after the voice in `slot` alone has ticked.
    pub open spec fn ticked_at(self, slot: int) -> PoolState {
        PoolState {
            voices: self.voices.update(slot, self.voices[slot].ticked(self.sample_rate)),
            ..self
        }
    }

    /// What the first `n` slots contribute to the next sample: slot and tone
    /// of each voice that sounds, in the order of the slots.
    pub open spec fn sounding_below(self, n: int) -> Seq<(usize, Tone)>
        decreases n,
    {
        if n <= 0 {
            Seq::empty()
        } else {
            let rest = self.sounding_below(n - 1);
            match self.voices[n - 1].tone(self.sample_rate) {
                Some(tone) => rest.push(((n - 1) as usize, tone)),
                None => rest,
            }
        }
    }

    /// What the pool contributes to the next sample.
    pub open spec fn sounding(self) -> Seq<(usize, Tone)> {
        self.sounding_below(self.voices.len() as int)
    }

    /// How many of the first `n` slots hold an active voice.
    pub open spec fn active_below(self, n: int) -> nat
        decreases n,
    {
        if n <= 0 {
            0
        } else if self.voices[n - 1].active {
            self.active_below(n - 1) + 1
        } else {
            self.active_below(n - 1)
        }
    }

    /// How many voices are active.
    pub open spec fn active_count(self) -> nat {
        self.active_below(self.voices.len() as int)
    }

    /// The pool after a run of note-ons, each given as note and frequency.
    pub open spec fn struck_all(self, strikes: Seq<(u8, u32)>) -> PoolState
        decreases strikes.len(),
    {
        if strikes.len() == 0 {
            self
        } else {
            self.struck_all(strikes.drop_last()).allocated(strikes.last().0, strikes.last().1)
        }
    }
}

/// At most one slot is the target of the next note-on.
pub proof fn lemma_target_unique(pool: PoolState, a: int, b: int)
    requires
        pool.takes(a),
        pool.takes(b),
    ensures
        a == b,
{
    if a < b {
        assert(!pool.voices[a].released);
    } else if b < a {
        assert(!pool.voices[b].released);
    }
}

/// Every pool has a target, and it is a slot of the pool.
pub proof fn lemma_target_exists(pool: PoolState)
    requires
        pool.wf(),
    ensures
        pool.takes(pool.target()),
        0 <= pool.target() < VOICES,
{
    lemma_lowest_released(pool, 0);
    let slot = lowest_released(pool, 0);
    if slot < pool.voices.len() {
        assert(pool.takes(slot));
    } else {
        assert(pool.takes(pool.cursor));
    }
}

/// A note-on leaves a pool well formed.
pub proof fn lemma_allocated_wf(pool: PoolState, note: u8, freq: u32)
    requires
        pool.wf(),
    ensures
        pool.allocated(note, freq).wf(),
{
    lemma_target_exists(pool);
}

/// Round robin: while no voice is released, note-ons take the slots in turn.
/// After a run of them on a pool without a released voice, the next one takes
/// the slot that lies as many steps after the first as the run was long,
/// counted round the ten slots; so the eleventh of a run takes the slot of
/// the first again. No voice is released by a note-on.
pub proof fn lemma_round_robin(pool: PoolState, strikes: Seq<(u8, u32)>)
    requires
        pool.wf(),
        !pool.has_released(),
    ensures
        pool.struck_all(strikes).wf(),
        !pool.struck_all(strikes).has_released(),
        pool.struck_all(strikes).cursor == (pool.cursor + strikes.len()) % 10,
        pool.struck_all(strikes).target() == (pool.cursor + strikes.len()) % 10,
    decreases strikes.len(),
{
    if strikes.len() > 0 {
        lemma_round_robin(pool, strikes.drop_last());
        let before = pool.struck_all(strikes.drop_last());
        lemma_allocated_wf(before, strikes.last().0, strikes.last().1);
        lemma_target_exists(before);
        let after = pool.struck_all(strikes);
        assert forall|i: int| 0 <= i < after.voices.len() implies !(#[trigger] after.voices[i]).released by {
            if i != before.target() {
                assert(!before.voices[i].released);
            }
        }
    }
    let last = pool.struck_all(strikes);
    lemma_target_exists(last);
    assert(last.takes(last.cursor));
    lemma_target_unique(last, last.cursor, last.target());
}

/// A released voice is reused before the cursor is: if exactly one slot holds
/// a released voice, the next note-on takes that slot and leaves the cursor
/// where it was.
pub proof fn lemma_released_slot_reused(pool: PoolState, slot: int, note: u8, freq: u32)
    requires
        pool.wf(),
        0 <= slot < VOICES,
        pool.voices[slot].released,
        forall|j: int| 0 <= j < VOICES && j != slot ==> !(#[trigger] pool.voices[j]).released,
    ensures
        pool.target() == slot,
        pool.allocated(note, freq).cursor == pool.cursor,
        pool.allocated(note, freq).voices[slot] == Voice::spec_struck(note, freq, pool.sample_rate),
        !pool.allocated(note, freq).has_released(),
{
    assert(pool.takes(slot));
    lemma_target_exists(pool);
    lemma_target_unique(pool, slot, pool.target());
    let after = pool.allocated(note, freq);
    assert forall|i: int| 0 <= i < after.voices.len() implies !(#[trigger] after.voices[i]).released by {
        if i != slot {
            assert(!pool.voices[i].released);
        }
    }
}

/// A pool never holds more active voices than it has slots.
pub proof fn lemma_active_bounded(pool: PoolState)
    ensures
        pool.active_count() <= pool.voices.len(),
{
    lemma_active_below(pool, pool.voices.len() as int);
}

proof fn lemma_active_below(pool: PoolState, n: int)
    requires
        0 <= n,
    ensures
        pool.active_below(n) <= n,
    decreases n,
{
    if n > 0 {
        lemma_active_below(pool, n - 1);
    }
}

/// The lowest slot from `from` on that holds a released voice, or the number
/// of slots if there is none.
spec fn lowest_released(pool: PoolState, from: int) -> int
    decreases pool.voices.len() - from,
{
    if from >= pool.voices.len() {
        pool.voices.len() as int
    } else if pool.voices[from].released {
        from
    } else {
        lowest_released(pool, from + 1)
    }
}

proof fn lemma_lowest_released(pool: PoolState, from: int)
    requires
        0 <= from <= pool.voices.len(),
    ensures
        from <= lowest_released(pool, from) <= pool.voices.len(),
        forall|j: int|
            from <= j < lowest_released(pool, from) ==> !(#[trigger] pool.voices[j]).released,
        lowest_released(pool, from) < pool.voices.len() ==> pool.voices[lowest_released(
            pool,
            from,
        )].released,
    decreases pool.voices.len() - from,
{
    if from < pool.voices.len() && !pool.voices[from].released {
        lemma_lowest_released(pool, from + 1);
    }
}

/// The voices of a synthesizer.
pub struct VoicePool {
    voices: Vec<Voice>,
    cursor: usize,
    sample_rate: u32,
}

impl View for VoicePool {
    type V = PoolState;

    closed spec fn view(&self) -> PoolState {
        PoolState {
            voices: self.voices@,
            cursor: self.cursor as int,
            sample_rate: self.sample_rate,
        }
    }
}

impl VoicePool {
    /// What every pool satisfies from its making on.
    pub open spec fn wf(&self) -> bool {
        self@.wf()
    }

    /// A pool of ten idle voices for a sample rate.
    pub fn new(sample_rate: u32) -> (pool: VoicePool)
        requires
            sample_rate > 0,
        ensures
            pool.wf(),
            pool@ == PoolState::fresh(sample_rate),
    {
        let mut voices: Vec<Voice> = Vec::new();
        let mut n: usize = 0;
        while n < VOICES
            invariant
                n <= VOICES,
                voices@.len() == n,
                forall|i: int| 0 <= i < n ==> voices@[i] == Voice::spec_idle(),
            decreases VOICES - n,
        {
            voices.push(Voice::idle());
            n = n + 1;
        }
        let pool = VoicePool { voices, cursor: 0, sample_rate };
        assert(pool@.voices =~= PoolState::fresh(sample_rate).voices);
        pool
    }

    /// Samples per second.
    pub fn sample_rate(&self) -> (rate: u32)
        ensures
            rate == self@.sample_rate,
    {
        self.sample_rate
    }

    /// The slot that the next note-on takes when no voice has been released.
    pub fn cursor(&self) -> (cursor: usize)
        ensures
            cursor == self@.cursor,
    {
        self.cursor
    }

    /// The voice in a slot.
    pub fn voice(&self, slot: usize) -> (voice: Voice)
        requires
            self.wf(),
            slot < VOICES,
        ensures
            voice == self@.voices[slot as int],
    {
        self.voices[slot]
    }

    /// How many voices are active.
    pub fn active_count(&self) -> (count: usize)
        requires
            self.wf(),
        ensures
            count == self@.active_count(),
            count <= VOICES,
    {
        let mut count: usize = 0;
        let mut n: usize = 0;
        while n < VOICES
            invariant
                self.wf(),
                n <= VOICES,
                count <= n,
                count == self@.active_below(n as int),
            decreases VOICES - n,
        {
            if self.voices[n].active {
                count = count + 1;
            }
            n = n + 1;
        }
        count
    }

    /// Gives a slot to a note and says which: the lowest slot with a released
    /// voice, else the slot under the cursor, which then moves on. The voice
    /// that was in the slot is cut off.
    pub fn allocate(&mut self, note: u8, freq: u32) -> (slot: usize)
        requires
            old(self).wf(),
        ensures
            final(self).wf(),
            old(self)@.takes(slot as int),
            slot == old(self)@.target(),
            slot < VOICES,
            final(self)@ == old(self)@.allocated(note, freq),
    {
        let mut slot: usize = self.cursor;
        let mut reuse: bool = false;
        let mut n: usize = 0;
        while n < VOICES
            invariant_except_break
                !reuse,
                slot == self.cursor,
                forall|j: int| 0 <= j < n ==> !(#[trigger] self@.voices[j]).released,
            invariant
                self.wf(),
                *self == *old(self),
                n <= VOICES,
            ensures
                reuse ==> slot < VOICES && self@.voices[slot as int].released && forall|j: int|
                    0 <= j < slot ==> !(#[trigger] self@.voices[j]).released,
                !reuse ==> slot == self.cursor && !self@.has_released(),
            decreases VOICES - n,
        {
            if self.voices[n].released {
                slot = n;
                reuse = true;
                break ;
            }
            n = n + 1;
        }
        proof {
            assert(old(self)@.takes(slot as int));
            lemma_target_exists(old(self)@);
            lemma_target_unique(old(self)@, slot as int, old(self)@.target());
        }
        self.voices.set(slot, Voice::struck(note, freq, self.sample_rate));
        if !reuse {
            self.cursor = if self.cursor + 1 >= VOICES {
                0
            } else {
                self.cursor + 1
            };
        }
        assert(self@.voices =~= old(self)@.allocated(note, freq).voices);
        slot
    }

    /// Marks every voice that was struck by `note` as released.
    pub fn release(&mut self, note: u8)
        requires
            old(self).wf(),
        ensures
            final(self).wf(),
            final(self)@ == old(self)@.released(note),
    {
        let mut n: usize = 0;
        while n < VOICES
            invariant
                old(self).wf(),
                n <= VOICES,
                self.voices@.len() == VOICES,
                self.cursor == old(self).cursor,
                self.sample_rate == old(self).sample_rate,
                forall|i: int|
                    0 <= i < n ==> #[trigger] self.voices@[i] == old(self).voices@[i].heard_off(
                        note,
                    ),
                forall|i: int| n <= i < VOICES ==> #[trigger] self.voices@[i] == old(self).voices@[i],
            decreases VOICES - n,
        {
            let mut voice = self.voices[n];
            if voice.midi_note == note {
                voice.release();
                self.voices.set(n, voice);
            }
            n = n + 1;
        }
        assert(self@.voices =~= old(self)@.released(note).voices);
    }

    /// Advances the voice in one slot by one sample and says what it plays.
    pub fn tick(&mut self, slot: usize) -> (tone: Option<Tone>)
        requires
            old(self).wf(),
            slot < VOICES,
        ensures
            final(self).wf(),
            final(self)@ == old(self)@.ticked_at(slot as int),
            tone == old(self)@.voices[slot as int].tone(old(self)@.sample_rate),
    {
        let mut voice = self.voices[slot];
        let tone = voice.tick(self.sample_rate);
        self.voices.set(slot, voice);
        tone
    }

    /// Advances every voice by one sample and lists what sounds: slot and
    /// tone of each voice that was active, in the order of the slots.
    pub fn tick_all(&mut self) -> (tones: Vec<(usize, Tone)>)
        requires
            old(self).wf(),
        ensures
            final(self).wf(),
            final(self)@ == old(self)@.ticked(),
            tones@ == old(self)@.sounding(),
    {
        let mut tones: Vec<(usize, Tone)> = Vec::new();
        let mut n: usize = 0;
        while n < VOICES
            invariant
                old(self).wf(),
                self.wf(),
                n <= VOICES,
                self@.cursor == old(self)@.cursor,
                self@.sample_rate == old(self)@.sample_rate,
                forall|i: int|
                    0 <= i < n ==> #[trigger] self@.voices[i] == old(self)@.voices[i].ticked(
                        self@.sample_rate,
                    ),
                forall|i: int| n <= i < VOICES ==> #[trigger] self@.voices[i] == old(self)@.voices[i],
                tones@ == old(self)@.sounding_below(n as int),
            decreases VOICES - n,
        {
            match self.tick(n) {
                Some(tone) => {
                    tones.push((n, tone));
                },
                None => {},
            }
            n = n + 1;
        }
        assert(self@.voices =~= old(self)@.ticked().voices);
        tones
    }
}

} // verus!
