use vstd::prelude::*;

use crate::duration::Duration;
use crate::note::Note;
use crate::sequencer::{Instrument, NoteEvent};

verus! {

/// An instrument and the notes it plays.
#[derive(Clone, Debug)]
pub struct Track {
    pub instrument: Instrument,
    pub events: Vec<NoteEvent>,
}

/// A note that the sequencer fired, carrying all a voice needs by value.
#[derive(Clone, Copy, Debug, PartialEq, Eq, Structural)]
pub struct TriggerdEvent {
    pub note: Note,
    pub duration: Duration,
    pub instrument: Instrument,
}

} // verus!
