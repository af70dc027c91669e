//! The sample mixer: everything the synthesizer keeps from one sample to the
//! next, and the order in which a sample touches it.
//!
//! A sample is produced in three steps. The mixer first advances the clock,
//! takes in the note events that have arrived and advances every voice; it
//! hands back the voices that sound. The caller then computes with samples:
//! it sums the voices, adds the echo that [`Mixer::echo`] returns, and forms
//! the diffused value from that sum and the taps of [`Mixer::tap`]. Last the
//! mixer stores the mixed sample in the delay line and the diffused value in
//! every comb buffer.

use vstd::prelude::*;
use crate::buffer::shifted;
use crate::delay::{DelayLine, DELAY_LENGTH};
use crate::midi::{EventKind, NoteEvent};
use crate::pitch::{frequency, note_hz};
use crate::pool::{PoolState, VoicePool, VOICES};
use crate::reverb::{comb_lengths, diffused, filled, ReverbNetwork, COMBS};
use crate::voice::{Tone, Voice};

verus! {

/// A pool after it has taken in one event: a note-on strikes a voice at the
/// frequency of its note, a note-off releases the voices of its note, and
/// any other event changes nothing.
pub open spec fn heard(pool: PoolState, event: NoteEvent) -> PoolState {
    match event.kind() {
        EventKind::NoteOn => pool.allocated(event.note(), note_hz(event.note()) as u32),
        EventKind::NoteOff => pool.released(event.note()),
        EventKind::Other => pool,
    }
}

/// A pool after it has taken in a run of events, first to last.
pub open spec fn heard_all(pool: PoolState, events: Seq<NoteEvent>) -> PoolState
    decreases events.len(),
{
    if events.len() == 0 {
        pool
    } else {
        heard(heard_all(pool, events.drop_last()), events.last())
    }
}

/// The clock one sample later: it counts the samples of the current second
/// and starts again at zero when the second is full.
pub open spec fn next_clock(clock: int, sample_rate: u32) -> int {
    if clock + 1 >= sample_rate {
        0
    } else {
        clock + 1
    }
}

/// What a mixer holds, as plain values.
pub struct MixerState<T> {
    /// The voices.
    pub pool: PoolState,
    /// The samples in the delay line, oldest first.
    pub delay: Seq<T>,
    /// The values in each comb buffer, oldest first.
    pub reverb: Seq<Seq<T>>,
    /// Samples since the current second began.
    pub clock: int,
}

impl<T> MixerState<T> {
    /// A mixer before its first sample: idle voices, and `silence` in every
    /// cell of the delay line and of the comb buffers.
    pub open spec fn fresh(sample_rate: u32, silence: T) -> MixerState<T> {
        MixerState {
            pool: PoolState::fresh(sample_rate),
            delay: Seq::new(DELAY_LENGTH as nat, |i: int| silence),
            reverb: filled(comb_lengths(), silence),
            clock: 0,
        }
    }

    /// A well-formed pool, a clock within the second, a delay line and
    /// thirteen comb buffers that are not empty.
    pub open spec fn wf(self) -> bool {
        &&& self.pool.wf()
        &&& 0 <= self.clock < self.pool.sample_rate
        &&& self.delay.len() > 0
        &&& self.reverb.len() == COMBS
        &&& forall|i: int| 0 <= i < self.reverb.len() ==> (#[trigger] self.reverb[i]).len() > 0
    }

    /// The state after the first step of a sample: the clock has advanced,
    /// the events have been taken in, and every voice has ticked.
    pub open spec fn begun(self, events: Seq<NoteEvent>) -> MixerState<T> {
        MixerState {
            pool: heard_all(self.pool, events).ticked(),
            clock: next_clock(self.clock, self.pool.sample_rate),
            ..self
        }
    }

    /// The state after the last step of a sample: the delay line holds the
    /// mixed sample and every comb buffer the diffused value.
    pub open spec fn ended(self, mixed: T, spread: T) -> MixerState<T> {
        MixerState {
            delay: shifted(self.delay, mixed),
            reverb: diffused(self.reverb, spread),
            ..self
        }
    }
}

/// Taking in an event leaves a pool well formed.
pub proof fn lemma_heard_wf(pool: PoolState, event: NoteEvent)
    requires
        pool.wf(),
    ensures
        heard(pool, event).wf(),
        heard(pool, event).sample_rate == pool.sample_rate,
{
    crate::pool::lemma_allocated_wf(pool, event.note(), note_hz(event.note()) as u32);
}

/// Taking in a run of events leaves a pool well formed.
pub proof fn lemma_heard_all_wf(pool: PoolState, events: Seq<NoteEvent>)
    requires
        pool.wf(),
    ensures
        heard_all(pool, events).wf(),
        heard_all(pool, events).sample_rate == pool.sample_rate,
    decreases events.len(),
{
    if events.len() > 0 {
        lemma_heard_all_wf(pool, events.drop_last());
        lemma_heard_wf(heard_all(pool, events.drop_last()), events.last());
    }
}

/// The state of a synthesizer between samples.
pub struct Mixer<T> {
    pool: VoicePool,
    delay: DelayLine<T>,
    reverb: ReverbNetwork<T>,
    sample_clock: u32,
}

impl<T: Copy> View for Mixer<T> {
    type V = MixerState<T>;

    closed spec fn view(&self) -> MixerState<T> {
        MixerState {
            pool: self.pool@,
            delay: self.delay@,
            reverb: self.reverb@,
            clock: self.sample_clock as int,
        }
    }
}

impl<T: Copy> Mixer<T> {
    /// What every mixer satisfies from its making on.
    pub closed spec fn wf(&self) -> bool {
        &&& self.pool.wf()
        &&& self.delay.wf()
        &&& self.reverb.wf()
        &&& self@.wf()
    }

    /// The plain values of a well-formed mixer are well formed.
    pub proof fn lemma_wf(&self)
        requires
            self.wf(),
        ensures
            self@.wf(),
    {
    }

    /// A mixer for a sample rate, with `silence` in all its buffers.
    pub fn new(sample_rate: u32, silence: T) -> (mixer: Mixer<T>)
        requires
            sample_rate > 0,
        ensures
            mixer.wf(),
            mixer@ == MixerState::fresh(sample_rate, silence),
    {
        let mixer = Mixer {
            pool: VoicePool::new(sample_rate),
            delay: DelayLine::new(DELAY_LENGTH, silence),
            reverb: ReverbNetwork::reference(silence),
            sample_clock: 0,
        };
        proof {
            mixer.delay.lemma_wf();
            mixer.reverb.lemma_wf();
        }
        mixer
    }

    /// Samples per second.
    pub fn sample_rate(&self) -> (rate: u32)
        ensures
            rate == self@.pool.sample_rate,
    {
        self.pool.sample_rate()
    }

    /// Samples since the current second began.
    pub fn clock(&self) -> (clock: u32)
        ensures
            clock == self@.clock,
    {
        self.sample_clock
    }

    /// The voice in a slot.
    pub fn voice(&self, slot: usize) -> (voice: Voice)
        requires
            self.wf(),
            slot < VOICES,
        ensures
            voice == self@.pool.voices[slot as int],
    {
        self.pool.voice(slot)
    }

    /// How many voices are active.
    pub fn active_voices(&self) -> (count: usize)
        requires
            self.wf(),
        ensures
            count == self@.pool.active_count(),
            count <= VOICES,
    {
        self.pool.active_count()
    }

    /// Advances the clock by one sample.
    pub fn advance_clock(&mut self)
        requires
            old(self).wf(),
        ensures
            final(self).wf(),
            final(self)@ == (MixerState {
                clock: next_clock(old(self)@.clock, old(self)@.pool.sample_rate),
                ..old(self)@
            }),
    {
        let rate = self.pool.sample_rate();
        if self.sample_clock + 1 >= rate {
            self.sample_clock = 0;
        } else {
            self.sample_clock = self.sample_clock + 1;
        }
    }

    /// Takes in one event.
    pub fn handle_event(&mut self, event: NoteEvent)
        requires
            old(self).wf(),
        ensures
            final(self).wf(),
            final(self)@ == (MixerState { pool: heard(old(self)@.pool, event), ..old(self)@ }),
    {
        match event.kind() {
            EventKind::NoteOn => {
                let note = event.note();
                let freq = frequency(note);
                self.pool.allocate(note, freq);
            },
            EventKind::NoteOff => {
                self.pool.release(event.note());
            },
            EventKind::Other => {},
        }
    }

    /// Advances the voice in one slot by one sample and says what it plays.
    pub fn tick_voice(&mut self, slot: usize) -> (tone: Option<Tone>)
        requires
            old(self).wf(),
            slot < VOICES,
        ensures
            final(self).wf(),
            final(self)@ == (MixerState {
                pool: old(self)@.pool.ticked_at(slot as int),
                ..old(self)@
            }),
            tone == old(self)@.pool.voices[slot as int].tone(old(self)@.pool.sample_rate),
    {
        self.pool.tick(slot)
    }

    /// The first step of a sample: advances the clock, takes in `events` in
    /// their order, advances every voice, and lists the voices that sound.
    pub fn begin_sample(&mut self, events: &Vec<NoteEvent>) -> (tones: Vec<(usize, Tone)>)
        requires
            old(self).wf(),
        ensures
            final(self).wf(),
            final(self)@ == old(self)@.begun(events@),
            tones@ == heard_all(old(self)@.pool, events@).sounding(),
    {
        self.advance_clock();
        let mut n: usize = 0;
        while n < events.len()
            invariant
                n <= events@.len(),
                self.wf(),
                self@ == (MixerState {
                    pool: heard_all(old(self)@.pool, events@.take(n as int)),
                    clock: next_clock(old(self)@.clock, old(self)@.pool.sample_rate),
                    ..old(self)@
                }),
            decreases events@.len() - n,
        {
            self.handle_event(events[n]);
            assert(events@.take(n + 1).drop_last() =~= events@.take(n as int));
            n = n + 1;
        }
        assert(events@.take(n as int) =~= events@);
        self.pool.tick_all()
    }

    /// The oldest sample in the delay line: what was mixed one length of the
    /// line ago.
    pub fn echo(&self) -> (echo: T)
        requires
            self.wf(),
        ensures
            echo == self@.delay.first(),
    {
        self.delay.peek()
    }

    /// The oldest value of comb buffer `i`.
    pub fn tap(&self, i: usize) -> (value: T)
        requires
            self.wf(),
            i < COMBS,
        ensures
            value == self@.reverb[i as int].first(),
    {
        self.reverb.tap(i)
    }

    /// The last step of a sample: stores the mixed sample in the delay line
    /// and the diffused value in every comb buffer.
    pub fn end_sample(&mut self, mixed: T, spread: T)
        requires
            old(self).wf(),
        ensures
            final(self).wf(),
            final(self)@ == old(self)@.ended(mixed, spread),
    {
        self.delay.push(mixed);
        self.reverb.feed(spread);
        proof {
            self.delay.lemma_wf();
            self.reverb.lemma_wf();
        }
    }
}

} // verus!
