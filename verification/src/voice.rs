//! One voice and its envelope.
//!
//! A voice sounds one note. Its amplitude follows a fixed envelope: a linear
//! ramp during the first tenth of a second, then a slow decay that a note-off
//! makes much steeper. The amplitude is held exactly, as the numerator
//! `level` of a fraction whose denominator is [`amplitude_scale`] of the
//! sample rate, so that every step of the envelope is whole-number arithmetic.

use vstd::prelude::*;

verus! {

/// The denominator of amplitudes at a sample rate: a voice of level `l` has
/// the amplitude `l / amplitude_scale(sample_rate)`, so that one level is a
/// millionth of a unit of amplitude for each sample per second.
pub open spec fn spec_amplitude_scale(sample_rate: u32) -> u64 {
    (1_000_000 * sample_rate) as u64
}

/// The denominator of amplitudes at a sample rate.
#[verifier::when_used_as_spec(spec_amplitude_scale)]
pub fn amplitude_scale(sample_rate: u32) -> (scale: u64)
    ensures
        scale == 1_000_000 * sample_rate,
        scale == spec_amplitude_scale(sample_rate),
{
    let rate: u64 = sample_rate as u64;
    1_000_000 * rate
}

/// Level of a voice that has been struck and not yet ticked: an amplitude of
/// six tenths.
pub open spec fn struck_level(sample_rate: u32) -> int {
    600_000 * sample_rate
}

/// Level after `count` samples of attack: an amplitude of
/// `20 * count / sample_rate`, whatever the sample rate.
pub open spec fn attack_level(count: u32) -> int {
    20_000_000 * count
}

/// Level that every voice past its attack loses with each sample: a
/// millionth of a unit of amplitude.
pub open spec fn decay_step(sample_rate: u32) -> int {
    sample_rate as int
}

/// Level that a released voice loses with each sample: the decay of every
/// voice and five hundred millionths more.
pub open spec fn release_step(sample_rate: u32) -> int {
    501 * sample_rate
}

/// The greatest level that the envelope reaches: an amplitude of two, the
/// end of the attack ramp.
pub open spec fn full_level(sample_rate: u32) -> int {
    2_000_000 * sample_rate
}

/// What a sounding voice hands to the oscillator for one sample.
#[derive(Clone, Copy, Debug, PartialEq, Eq, Structural)]
pub struct Tone {
    /// Frequency of the oscillator, in Hz.
    pub freq: u32,
    /// Numerator of the amplitude for this sample.
    pub level: i64,
}

/// One slot of the voice pool.
#[derive(Clone, Copy, Debug, PartialEq, Eq, Structural)]
pub struct Voice {
    /// Frequency of the oscillator, in Hz.
    pub freq: u32,
    /// The note that struck this voice.
    pub midi_note: u8,
    /// Numerator of the current amplitude.
    pub level: i64,
    /// Samples of attack that this voice has had.
    pub time_attack: u32,
    /// Samples of decay; kept for a later envelope, and always zero for now.
    pub time_decay: u32,
    /// Whether the voice sounds.
    pub active: bool,
    /// Whether a note-off has reached the voice.
    pub released: bool,
}

impl Voice {
    /// The voice of an empty slot: silent, inactive, never released.
    pub open spec fn spec_idle() -> Voice {
        Voice {
            freq: 0,
            midi_note: 0,
            level: 0,
            time_attack: 0,
            time_decay: 0,
            active: false,
            released: false,
        }
    }

    /// A voice as a note-on leaves it.
    pub open spec fn spec_struck(midi_note: u8, freq: u32, sample_rate: u32) -> Voice {
        Voice {
            freq,
            midi_note,
            level: struck_level(sample_rate) as i64,
            time_attack: 0,
            time_decay: 0,
            active: true,
            released: false,
        }
    }

    /// The levels and counts that the envelope can reach at a sample rate.
    pub open spec fn wf(self, sample_rate: u32) -> bool {
        &&& -release_step(sample_rate) <= self.level <= full_level(sample_rate)
        &&& 10 * self.time_attack < sample_rate + 10
        &&& self.active ==> self.level >= 0
    }

    /// Whether the next tick of this voice belongs to its attack: it has not
    /// been released, and has had less than a tenth of a second of attack.
    pub open spec fn in_attack(self, sample_rate: u32) -> bool {
        10 * self.time_attack < sample_rate && !self.released
    }

    /// The level after a tick of decay.
    pub open spec fn decayed_level(self, sample_rate: u32) -> int {
        if self.released {
            self.level - release_step(sample_rate)
        } else {
            self.level - decay_step(sample_rate)
        }
    }

    /// The voice one sample later.
    ///
    /// An inactive voice stays as it is. During the attack the level is set
    /// from the count of attack samples, which then grows by one. After it the
    /// level falls, and a voice whose level is no longer positive goes
    /// inactive.
    pub open spec fn ticked(self, sample_rate: u32) -> Voice {
        if !self.active {
            self
        } else if self.in_attack(sample_rate) {
            Voice {
                level: attack_level(self.time_attack) as i64,
                time_attack: (self.time_attack + 1) as u32,
                ..self
            }
        } else {
            Voice {
                level: self.decayed_level(sample_rate) as i64,
                active: self.decayed_level(sample_rate) > 0,
                ..self
            }
        }
    }

    /// The voice `samples` samples later, if no event reaches it meanwhile.
    pub open spec fn aged(self, sample_rate: u32, samples: nat) -> Voice
        decreases samples,
    {
        if samples == 0 {
            self
        } else {
            self.aged(sample_rate, (samples - 1) as nat).ticked(sample_rate)
        }
    }

    /// The voice once a note-off has reached it. Nothing else changes: the
    /// voice goes on sounding, and decays faster from its next tick on.
    pub open spec fn let_go(self) -> Voice {
        Voice { released: true, ..self }
    }

    /// The voice after a note-off for `note`, which concerns it only if it
    /// was struck by that note.
    pub open spec fn heard_off(self, note: u8) -> Voice {
        if self.midi_note == note {
            self.let_go()
        } else {
            self
        }
    }

    /// What this voice contributes to the next sample: nothing if it is
    /// inactive, else its frequency and the level that the tick gives it.
    pub open spec fn tone(self, sample_rate: u32) -> Option<Tone> {
        if self.active {
            Some(Tone { freq: self.freq, level: self.ticked(sample_rate).level })
        } else {
            None
        }
    }

    /// The voice of an empty slot.
    pub fn idle() -> (voice: Voice)
        ensures
            voice == Voice::spec_idle(),
            forall|sample_rate: u32| voice.wf(sample_rate),
    {
        Voice {
            freq: 0,
            midi_note: 0,
            level: 0,
            time_attack: 0,
            time_decay: 0,
            active: false,
            released: false,
        }
    }

    /// A voice struck by a note-on: active, not released, at the start of its
    /// attack, with an amplitude of six tenths until its first tick.
    pub fn struck(midi_note: u8, freq: u32, sample_rate: u32) -> (voice: Voice)
        ensures
            voice == Voice::spec_struck(midi_note, freq, sample_rate),
            voice.wf(sample_rate),
    {
        let rate: i64 = sample_rate as i64;
        Voice {
            freq,
            midi_note,
            level: 600_000 * rate,
            time_attack: 0,
            time_decay: 0,
            active: true,
            released: false,
        }
    }

    /// Marks the voice as released.
    pub fn release(&mut self)
        ensures
            *final(self) == old(self).let_go(),
            forall|sample_rate: u32| old(self).wf(sample_rate) ==> final(self).wf(sample_rate),
    {
        self.released = true;
    }

    /// Advances the envelope by one sample and says what to play.
    pub fn tick(&mut self, sample_rate: u32) -> (tone: Option<Tone>)
        requires
            old(self).wf(sample_rate),
        ensures
            *final(self) == old(self).ticked(sample_rate),
            final(self).wf(sample_rate),
            tone == old(self).tone(sample_rate),
    {
        if !self.active {
            return None;
        }
        let rate: i64 = sample_rate as i64;
        let count: i64 = self.time_attack as i64;
        if 10 * count < rate && !self.released {
            self.level = 20_000_000 * count;
            self.time_attack = self.time_attack + 1;
        } else {
            if self.released {
                self.level = self.level - 500 * rate;
            }
            self.level = self.level - rate;
            if self.level <= 0 {
                self.active = false;
            }
        }
        Some(Tone { freq: self.freq, level: self.level })
    }
}

/// Within the attack the amplitude rises from each sample to the next: of
/// two ticks in a row that both fall into the attack of a voice, the second
/// leaves a strictly greater level than the first.
pub proof fn lemma_attack_rises(voice: Voice, sample_rate: u32)
    requires
        voice.active,
        voice.in_attack(sample_rate),
        voice.ticked(sample_rate).in_attack(sample_rate),
    ensures
        voice.ticked(sample_rate).ticked(sample_rate).level > voice.ticked(sample_rate).level,
{
}

/// Past the attack the amplitude falls with every sample: a tick of an
/// active voice that is not in its attack leaves a strictly smaller level.
pub proof fn lemma_decay_falls(voice: Voice, sample_rate: u32)
    requires
        sample_rate > 0,
        voice.wf(sample_rate),
        voice.active,
        !voice.in_attack(sample_rate),
    ensures
        voice.ticked(sample_rate).level < voice.level,
        voice.ticked(sample_rate).level == voice.decayed_level(sample_rate),
{
}

/// A decaying voice goes inactive in the very tick that takes its level to
/// zero or below, and in no other; an inactive voice never changes again.
pub proof fn lemma_silence_at_zero(voice: Voice, sample_rate: u32)
    requires
        voice.wf(sample_rate),
    ensures
        voice.active && !voice.in_attack(sample_rate) ==> (voice.ticked(sample_rate).active
            <==> voice.ticked(sample_rate).level > 0),
        voice.active && voice.in_attack(sample_rate) ==> voice.ticked(sample_rate).active,
        !voice.active ==> voice.ticked(sample_rate) == voice,
{
}

/// The decay ends: a voice past its attack is inactive once it has decayed
/// for as many samples as take a millionth each from its level, and for one
/// sample at least.
pub proof fn lemma_decay_ends(voice: Voice, sample_rate: u32, samples: nat)
    requires
        sample_rate > 0,
        voice.wf(sample_rate),
        !voice.in_attack(sample_rate),
        samples >= 1,
        samples * decay_step(sample_rate) >= voice.level,
    ensures
        !voice.aged(sample_rate, samples).active,
{
    lemma_decay_bound(voice, sample_rate, samples);
}

/// While a voice past its attack stays active, every sample has taken a
/// millionth or more from its level.
proof fn lemma_decay_bound(voice: Voice, sample_rate: u32, samples: nat)
    requires
        sample_rate > 0,
        voice.wf(sample_rate),
        !voice.in_attack(sample_rate),
    ensures
        voice.aged(sample_rate, samples).wf(sample_rate),
        !voice.aged(sample_rate, samples).in_attack(sample_rate),
        voice.aged(sample_rate, samples).active ==> voice.active && voice.aged(
            sample_rate,
            samples,
        ).level <= voice.level - samples * decay_step(sample_rate),
        samples >= 1 && voice.aged(sample_rate, samples).active ==> voice.aged(
            sample_rate,
            samples,
        ).level > 0,
    decreases samples,
{
    if samples > 0 {
        let before = (samples - 1) as nat;
        lemma_decay_bound(voice, sample_rate, before);
        let step = decay_step(sample_rate);
        assert(samples * step == before * step + step) by (nonlinear_arith)
            requires
                samples == before + 1,
        ;
    }
}

} // verus!
