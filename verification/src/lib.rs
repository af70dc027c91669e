//! Sample-accurate core of a polyphonic synthesizer.
//!
//! The crate holds the parts of the per-sample signal path that are decided
//! in whole numbers: reading note events, choosing and ageing voices, and
//! moving the cursors of the delay line and of the comb buffers. The sample
//! arithmetic itself is the caller's; the buffers are generic in the sample
//! type and only store and return what they are given.

pub mod buffer;
pub mod delay;
pub mod midi;
pub mod mixer;
pub mod pitch;
pub mod pool;
pub mod reverb;
pub mod voice;

pub use buffer::ReverbBuffer;
pub use delay::{DelayLine, DELAY_LENGTH};
pub use midi::{EventKind, NoteEvent};
pub use mixer::{Mixer, MixerState};
pub use pitch::frequency;
pub use pool::{PoolState, VoicePool, VOICES};
pub use reverb::{ReverbNetwork, COMBS};
pub use voice::{Tone, Voice};
