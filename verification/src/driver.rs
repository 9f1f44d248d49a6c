use vstd::prelude::*;

use crate::errors::PlayerError;
use crate::track::Track;

verus! {

/// The capability set of an audio backend.
///
/// The engine never touches a backend directly: one implementation owns the
/// native audio handle on a dedicated thread and turns each of these calls
/// into a command on its ordered channel. A call reports whether the command
/// was accepted, never whether it was applied; file failures arrive later as
/// events.
pub trait PlaybackDriver {
    /// Begin streaming `track` from its start, discarding any current sound.
    fn play(&mut self, track: Track) -> Result<(), PlayerError>;

    /// Pause the current sound; a no-op without one.
    fn pause(&mut self) -> Result<(), PlayerError>;

    /// Resume the current sound; a no-op without one.
    fn resume(&mut self) -> Result<(), PlayerError>;

    /// Stop and discard the current sound without starting another.
    fn clear(&mut self) -> Result<(), PlayerError>;

    /// Apply a volume, given in thousandths of full scale, to the current and
    /// future sounds.
    fn set_volume(&mut self, volume_milli: u32) -> Result<(), PlayerError>
        requires
            volume_milli <= 1000,
    ;

    /// Restart the current track at the given offset.
    fn seek(&mut self, position_ms: u64) -> Result<(), PlayerError>;

    /// Switch the spectrum pipeline on or off.
    fn set_spectrum_computation(&mut self, should_compute: bool) -> Result<(), PlayerError>;
}

/// A driver that accepts every command and moves no audio; what the engine
/// tests run against.
pub struct TestPlaybackDriver;

impl PlaybackDriver for TestPlaybackDriver {
    fn play(&mut self, track: Track) -> (r: Result<(), PlayerError>)
        ensures
            r is Ok,
    {
        Ok(())
    }

    fn pause(&mut self) -> (r: Result<(), PlayerError>)
        ensures
            r is Ok,
    {
        Ok(())
    }

    fn resume(&mut self) -> (r: Result<(), PlayerError>)
        ensures
            r is Ok,
    {
        Ok(())
    }

    fn clear(&mut self) -> (r: Result<(), PlayerError>)
        ensures
            r is Ok,
    {
        Ok(())
    }

    fn set_volume(&mut self, volume_milli: u32) -> (r: Result<(), PlayerError>)
        ensures
            r is Ok,
    {
        Ok(())
    }

    fn seek(&mut self, position_ms: u64) -> (r: Result<(), PlayerError>)
        ensures
            r is Ok,
    {
        Ok(())
    }

    fn set_spectrum_computation(&mut self, should_compute: bool) -> (r: Result<(), PlayerError>)
        ensures
            r is Ok,
    {
        Ok(())
    }
}

/// The audio backend the shipped driver builds on.
pub fn get_active_backend() -> (r: &'static str)
    ensures
        r@ == "rodio"@,
{
    "rodio"
}

} // verus!
