//! A declarative sound-synthesis algebra with an exact, integer time base.

pub mod flick;
pub mod music;
pub mod note;
pub mod play;
pub mod synth;

pub use flick::{Flick, FLICKS_PER_SECOND};
pub use music::{Control, Music, Primitive};
pub use note::Note;
pub use synth::{Sample, Synth};
