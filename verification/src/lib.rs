use vstd::prelude::*;

mod config;
mod driver;
mod errors;
mod events;
mod library;
mod library_service;
mod playback;
mod playback_service;
mod queue;
mod spectrum;
mod tap;
mod text;
mod track;

pub use config::AppConfig;
pub use driver::{PlaybackDriver, TestPlaybackDriver, get_active_backend};
pub use errors::{PlaybackError, PlayerError};
pub use events::{HistoryUpdateEvent, QueueChangedEvent, TrackChangedEvent};
pub use library::{Library, clone_tracks};
pub use library_service::{
    AlbumGroup, ArtistGroup, LibraryService, group_tracks_by_album, sort_tracks_by_number,
};
pub use playback::{Dispatch, Playback, PlaybackEvent, PlaybackState, clamp_volume};
pub use playback_service::{ControlPlaybackPayload, PlaybackService, play_from_library};
pub use queue::Queue;
pub use spectrum::{SPECTRUM_BINS, SpectrumAnalyzer, zero_bins};
pub use tap::{
    ProgressEmission, ProgressTap, TAP_BATCH_SIZE, TAP_FFT_SIZE, TAP_REFRESH_MS,
    seek_offset_samples,
};
pub use text::{eq_ignore_ascii_case, str_eq};
pub use track::{Track, TrackMetadata, duration_ms_from, is_supported_extension};

verus! {

} // verus!
