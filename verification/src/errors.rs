use vstd::prelude::*;

verus! {

/// The error taxonomy of the player.
///
/// Each variant names one failure the caller can observe; `message` gives
/// the human-readable form the command surface reports.
#[derive(Debug, PartialEq, Eq, Structural)]
pub enum PlayerError {
    /// `play` was asked for a track while the queue was empty and nothing was current.
    NoTrackAvailable,
    /// A track id was looked up in the queue and was not present.
    TrackNotFound,
    /// A track id was looked up in a supplied album track list and was not present.
    AlbumTrackNotFound,
    /// A track id was looked up in the library and was not present.
    TrackNotInLibrary,
    /// An album and artist pair matched nothing in the library.
    AlbumNotFound,
    /// `resume_play` was called while nothing was paused.
    NothingToResume,
    /// The command surface received a command string it does not know.
    UnknownCommand,
    /// A command that needs a payload field was sent without it.
    InvalidPayload,
    /// The audio driver refused or could not accept a command.
    DriverCommandFailed,
    /// A new library path was rejected because nothing exists there.
    LibraryPathMissing,
    /// A new library path was rejected because it is not a directory.
    LibraryPathNotDirectory,
}

impl PlayerError {
    /// The wording each error surfaces with.
    pub fn message(&self) -> (r: String)
        ensures
            r@ == self.spec_message(),
    {
        match self {
            PlayerError::NoTrackAvailable => "No track to play".to_owned(),
            PlayerError::TrackNotFound => "Track not found in queue".to_owned(),
            PlayerError::AlbumTrackNotFound => "Track not found in album".to_owned(),
            PlayerError::TrackNotInLibrary => "Track not found".to_owned(),
            PlayerError::AlbumNotFound => "Album not found".to_owned(),
            PlayerError::NothingToResume => "No track to resume playback".to_owned(),
            PlayerError::UnknownCommand => "Unknown playback command".to_owned(),
            PlayerError::InvalidPayload => "Invalid volume payload".to_owned(),
            PlayerError::DriverCommandFailed => "Failed to send command to audio driver".to_owned(),
            PlayerError::LibraryPathMissing => "Library path does not exist".to_owned(),
            PlayerError::LibraryPathNotDirectory => "Library path is not a directory".to_owned(),
        }
    }

    pub open spec fn spec_message(&self) -> Seq<char> {
        match self {
            PlayerError::NoTrackAvailable => "No track to play"@,
            PlayerError::TrackNotFound => "Track not found in queue"@,
            PlayerError::AlbumTrackNotFound => "Track not found in album"@,
            PlayerError::TrackNotInLibrary => "Track not found"@,
            PlayerError::AlbumNotFound => "Album not found"@,
            PlayerError::NothingToResume => "No track to resume playback"@,
            PlayerError::UnknownCommand => "Unknown playback command"@,
            PlayerError::InvalidPayload => "Invalid volume payload"@,
            PlayerError::DriverCommandFailed => "Failed to send command to audio driver"@,
            PlayerError::LibraryPathMissing => "Library path does not exist"@,
            PlayerError::LibraryPathNotDirectory => "Library path is not a directory"@,
        }
    }
}

/// The error shape handed to the command surface: just the message.
#[derive(Debug)]
pub struct PlaybackError(pub String);

impl PlaybackError {
    pub fn from(err: PlayerError) -> (r: PlaybackError)
        ensures
            r.0@ == err.spec_message(),
    {
        PlaybackError(err.message())
    }
}

} // verus!
