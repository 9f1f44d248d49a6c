use vstd::prelude::*;

use crate::track::Track;

verus! {

/// Whether the listener has anywhere to step back to.
#[derive(Debug)]
pub struct HistoryUpdateEvent {
    pub has_history: bool,
}

/// The track that just became current, or nothing when playback stopped.
#[derive(Debug)]
pub struct TrackChangedEvent {
    pub track: Option<Track>,
}

/// The pending order after a queue change.
#[derive(Debug)]
pub struct QueueChangedEvent {
    pub queue: Vec<Track>,
}

} // verus!
