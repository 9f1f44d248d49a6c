use vstd::prelude::*;

use crate::driver::PlaybackDriver;
use crate::errors::PlayerError;
use crate::library_service::{LibraryService, has_album, has_artist, sorted_by_track_number};
use crate::playback::{
    EngineModel, Playback, PlaybackState, spec_engine_clear_queue, spec_engine_enqueue_multiple,
    spec_engine_prepend, spec_next_outcome, spec_play_fails, spec_play_ok, spec_play_prepare,
    spec_previous_core, spec_previous_ok, spec_select_core, spec_select_fails, spec_select_ok,
    with_track_changed,
};
use crate::text::str_eq;
use crate::track::Track;

verus! {

/// One request from the command surface: a command word and the payload
/// fields it may need — a volume in thousandths of full scale, a seek
/// position in milliseconds.
#[derive(Debug)]
pub struct ControlPlaybackPayload {
    pub command: String,
    pub volume: Option<i64>,
    pub seek_position: Option<u64>,
}

/// Everything a `play` call can leave behind.
pub open spec fn spec_play_outcome(
    m: EngineModel,
    m2: EngineModel,
    r: Result<PlaybackState, PlayerError>,
) -> bool {
    &&& ((m.current is Some && m.state == PlaybackState::Paused) ==> m2 == spec_play_ok(m) && (r
        == Ok::<PlaybackState, PlayerError>(PlaybackState::Playing) || r == Err::<
        PlaybackState,
        PlayerError,
    >(PlayerError::DriverCommandFailed)))
    &&& (spec_play_fails(m) ==> r == Err::<PlaybackState, PlayerError>(
        PlayerError::NoTrackAvailable,
    ) && m2 == spec_play_prepare(m))
    &&& ((!(m.current is Some && m.state == PlaybackState::Paused) && !spec_play_fails(m)) ==> ((
    r == Ok::<PlaybackState, PlayerError>(PlaybackState::Playing) && m2 == spec_play_ok(m)) || (r
        == Err::<PlaybackState, PlayerError>(PlayerError::DriverCommandFailed) && m2
        == spec_play_prepare(m))))
}

/// Everything a `pause` call can leave behind.
pub open spec fn spec_pause_outcome(
    m: EngineModel,
    m2: EngineModel,
    r: Result<PlaybackState, PlayerError>,
) -> bool {
    &&& (m.state == PlaybackState::Playing ==> m2 == (EngineModel {
        state: PlaybackState::Paused,
        ..m
    }) && (r == Ok::<PlaybackState, PlayerError>(PlaybackState::Paused) || r == Err::<
        PlaybackState,
        PlayerError,
    >(PlayerError::DriverCommandFailed)))
    &&& (m.state != PlaybackState::Playing ==> m2 == m && r == Ok::<PlaybackState, PlayerError>(
        m.state,
    ))
}

/// Everything a `previous` call can leave behind.
pub open spec fn spec_previous_outcome(
    m: EngineModel,
    m2: EngineModel,
    r: Result<PlaybackState, PlayerError>,
) -> bool {
    let mc = spec_previous_core(m);
    ||| (r == Err::<PlaybackState, PlayerError>(PlayerError::DriverCommandFailed) && m2
        == (EngineModel { state: PlaybackState::Stopped, ..m }))
    ||| (spec_play_fails(mc) && r == Err::<PlaybackState, PlayerError>(
        PlayerError::NoTrackAvailable,
    ) && m2 == with_track_changed(spec_play_prepare(mc)))
    ||| (!spec_play_fails(mc) && ((r == Ok::<PlaybackState, PlayerError>(PlaybackState::Playing)
        && m2 == spec_previous_ok(m)) || (r == Err::<PlaybackState, PlayerError>(
        PlayerError::DriverCommandFailed,
    ) && m2 == with_track_changed(spec_play_prepare(mc)))))
}

/// Everything a `select_track_from_queue` call can leave behind.
pub open spec fn spec_select_outcome(
    m: EngineModel,
    m2: EngineModel,
    id: Seq<char>,
    r: Result<PlaybackState, PlayerError>,
) -> bool {
    let mc = spec_select_core(m, id);
    &&& (spec_select_fails(m, id) ==> r == Err::<PlaybackState, PlayerError>(
        PlayerError::TrackNotFound,
    ) && m2 == m)
    &&& (!spec_select_fails(m, id) ==> ((r == Ok::<PlaybackState, PlayerError>(
        PlaybackState::Playing,
    ) && m2 == spec_select_ok(m, id)) || (r == Err::<PlaybackState, PlayerError>(
        PlayerError::DriverCommandFailed,
    ) && (m2 == mc || m2 == spec_play_prepare(mc)))))
}

/// Everything a state-preserving driver delegation (`seek`, `set_volume`)
/// can leave behind.
pub open spec fn spec_delegate_outcome(
    m: EngineModel,
    m2: EngineModel,
    r: Result<PlaybackState, PlayerError>,
) -> bool {
    m2 == m && (r == Ok::<PlaybackState, PlayerError>(m.state) || r == Err::<
        PlaybackState,
        PlayerError,
    >(PlayerError::DriverCommandFailed))
}

/// Everything a `play_single_track` call can leave behind: the track goes to
/// the queue head; mid-playback it advances as `next`, otherwise it starts
/// as `play`.
pub open spec fn spec_play_single_outcome(
    m: EngineModel,
    m2: EngineModel,
    t: Track,
    r: Result<PlaybackState, PlayerError>,
) -> bool {
    let m1 = spec_engine_prepend(m, t);
    if m.state == PlaybackState::Playing || m.state == PlaybackState::Paused {
        spec_next_outcome(m1, m2, r)
    } else {
        spec_play_outcome(m1, m2, r)
    }
}

/// Everything a `play_album_tracks` call can leave behind once the id was
/// found: the queue is replaced by the album and the chosen track selected.
pub open spec fn spec_play_album_outcome(
    m: EngineModel,
    m2: EngineModel,
    ts: Seq<Track>,
    id: Seq<char>,
    r: Result<PlaybackState, PlayerError>,
) -> bool {
    spec_select_outcome(
        spec_engine_enqueue_multiple(spec_engine_clear_queue(m), ts),
        m2,
        id,
        r,
    )
}

/// The thin service over the engine: it parses the command surface's
/// requests and drives the engine accordingly.
pub struct PlaybackService<D: PlaybackDriver> {
    pub playback: Playback<D>,
}

impl<D: PlaybackDriver> PlaybackService<D> {
    pub open spec fn wf(&self) -> bool {
        self.playback.wf()
    }

    pub fn new(playback: Playback<D>) -> (r: PlaybackService<D>)
        ensures
            r.playback.model() == playback.model(),
            playback.wf() ==> r.wf(),
    {
        PlaybackService { playback }
    }

    /// Carries out one request: Play, Pause, Next, Previous, Seek (at the
    /// given position, or the start) or SetVolume (clamped). A SetVolume
    /// without a volume and an unknown command word change nothing and fail.
    pub fn control_playback(&mut self, payload: ControlPlaybackPayload) -> (r: Result<
        PlaybackState,
        PlayerError,
    >)
        ensures
            ({
                let cmd = payload.command@;
                let m = old(self).playback.model();
                let m2 = final(self).playback.model();
                &&& (cmd == "Play"@ ==> spec_play_outcome(m, m2, r))
                &&& (cmd == "Pause"@ ==> spec_pause_outcome(m, m2, r))
                &&& (cmd == "Next"@ ==> spec_next_outcome(m, m2, r))
                &&& (cmd == "Previous"@ && old(self).wf() ==> spec_previous_outcome(m, m2, r))
                &&& (cmd == "Seek"@ ==> spec_delegate_outcome(m, m2, r))
                &&& (cmd == "SetVolume"@ ==> ((payload.volume is Some ==> spec_delegate_outcome(
                    m,
                    m2,
                    r,
                )) && (payload.volume is None ==> r == Err::<PlaybackState, PlayerError>(
                    PlayerError::InvalidPayload,
                ) && m2 == m)))
                &&& ((cmd != "Play"@ && cmd != "Pause"@ && cmd != "Next"@ && cmd != "Previous"@
                    && cmd != "Seek"@ && cmd != "SetVolume"@) ==> r == Err::<
                    PlaybackState,
                    PlayerError,
                >(PlayerError::UnknownCommand) && m2 == m)
            }),
            old(self).wf() ==> final(self).wf(),
    {
        proof {
            reveal_strlit("Play");
            reveal_strlit("Pause");
            reveal_strlit("Next");
            reveal_strlit("Previous");
            reveal_strlit("Seek");
            reveal_strlit("SetVolume");
            assert("Play"@.len() == 4);
            assert("Pause"@.len() == 5);
            assert("Next"@.len() == 4);
            assert("Previous"@.len() == 8);
            assert("Seek"@.len() == 4);
            assert("SetVolume"@.len() == 9);
            assert("Play"@[0] == 'P');
            assert("Next"@[0] == 'N');
            assert("Seek"@[0] == 'S');
            assert("Play"@ != "Next"@ && "Play"@ != "Seek"@ && "Next"@ != "Seek"@);
        }
        let cmd = payload.command.as_str();
        if str_eq(cmd, "Play") {
            self.playback.play()
        } else if str_eq(cmd, "Pause") {
            self.playback.pause()
        } else if str_eq(cmd, "Next") {
            self.playback.next()
        } else if str_eq(cmd, "Previous") {
            self.playback.previous()
        } else if str_eq(cmd, "Seek") {
            let position = match payload.seek_position {
                Option::Some(p) => p,
                Option::None => 0,
            };
            self.playback.seek(position)
        } else if str_eq(cmd, "SetVolume") {
            match payload.volume {
                Option::Some(vol) => self.playback.set_volume(vol),
                Option::None => Err(PlayerError::InvalidPayload),
            }
        } else {
            Err(PlayerError::UnknownCommand)
        }
    }

    /// Puts one track at the queue head and brings it on: mid-playback as an
    /// advance, otherwise as a fresh start.
    pub fn play_single_track(&mut self, track: Track) -> (r: Result<PlaybackState, PlayerError>)
        ensures
            old(self).wf() ==> spec_play_single_outcome(
                old(self).playback.model(),
                final(self).playback.model(),
                track,
                r,
            ) && final(self).wf(),
    {
        self.playback.prepend(track);
        match self.playback.get_state() {
            PlaybackState::Playing | PlaybackState::Paused => self.playback.next(),
            PlaybackState::Stopped => self.playback.play(),
        }
    }

    /// Replaces the queue with an album and jumps to the chosen track; an id
    /// not in the album changes nothing.
    pub fn play_album_tracks(&mut self, album_tracks: Vec<Track>, track_id: &str) -> (r: Result<
        PlaybackState,
        PlayerError,
    >)
        ensures
            (forall|i: int|
                0 <= i < album_tracks@.len() ==> album_tracks@[i].id@ != track_id@) ==> r
                == Err::<PlaybackState, PlayerError>(PlayerError::AlbumTrackNotFound) && final(self).playback.model() == old(self).playback.model(),
            ((exists|i: int|
                0 <= i < album_tracks@.len() && album_tracks@[i].id@ == track_id@) && old(self).wf()) ==> spec_play_album_outcome(
                old(self).playback.model(),
                final(self).playback.model(),
                album_tracks@,
                track_id@,
                r,
            ),
            old(self).wf() ==> final(self).wf(),
    {
        let n = album_tracks.len();
        let mut found = false;
        let mut i: usize = 0;
        while i < n
            invariant
                i <= n,
                n == album_tracks@.len(),
                found <==> exists|j: int|
                    0 <= j < i && #[trigger] album_tracks@[j].id@ == track_id@,
            decreases n - i,
        {
            if str_eq(album_tracks[i].id.as_str(), track_id) {
                found = true;
            }
            i = i + 1;
        }
        if !found {
            return Err(PlayerError::AlbumTrackNotFound);
        }
        self.playback.clear_queue();
        self.playback.enqueue_multiple(album_tracks);
        self.playback.select_track_from_queue(track_id)
    }

    /// Jumps to a queued track by id.
    pub fn select_from_queue(&mut self, track_id: &str) -> (r: Result<PlaybackState, PlayerError>)
        ensures
            old(self).wf() ==> spec_select_outcome(
                old(self).playback.model(),
                final(self).playback.model(),
                track_id@,
                r,
            ) && final(self).wf(),
    {
        self.playback.select_track_from_queue(track_id)
    }

    /// Replaces the queue wholesale, announcing the new order.
    pub fn clear_queue_and_enqueue(&mut self, tracks: Vec<Track>) -> (r: Result<(), PlayerError>)
        ensures
            final(self).playback.model() == spec_engine_enqueue_multiple(
                spec_engine_clear_queue(old(self).playback.model()),
                tracks@,
            ),
            r is Ok,
            old(self).wf() ==> final(self).wf(),
    {
        self.playback.clear_queue();
        self.playback.enqueue_multiple(tracks);
        Ok(())
    }

    /// Switches the spectrum pipeline on or off.
    pub fn set_spectrum_computation(&mut self, should_compute: bool) -> (r: Result<
        (),
        PlayerError,
    >)
        ensures
            final(self).playback.model() == old(self).playback.model(),
            (r == Ok::<(), PlayerError>(()) || r == Err::<(), PlayerError>(
                PlayerError::DriverCommandFailed,
            )),
            old(self).wf() ==> final(self).wf(),
    {
        self.playback.set_spectrum_computation(should_compute)
    }
}

/// Whether some library track carries the id.
pub open spec fn library_has_track(lib: Seq<Track>, id: Seq<char>) -> bool {
    exists|i: int| 0 <= i < lib.len() && #[trigger] lib[i].id@ == id
}

/// Everything `play_from_library` can leave behind on the single-track path:
/// some library track carrying the id was put at the queue head and played.
pub open spec fn spec_single_from_library_outcome(
    lib: Seq<Track>,
    id: Seq<char>,
    m: EngineModel,
    m2: EngineModel,
    r: Result<PlaybackState, PlayerError>,
) -> bool {
    exists|i: int|
        0 <= i < lib.len() && #[trigger] lib[i].id@ == id && spec_play_single_outcome(
            m,
            m2,
            lib[i],
            r,
        )
}

/// Everything `play_from_library` can leave behind on the album path: the
/// album's tracks, sorted by track number, replaced the queue and the chosen
/// id was selected — or the id was not on the album and nothing changed.
pub open spec fn spec_album_from_library_outcome(
    lib: Seq<Track>,
    album: Seq<char>,
    artist: Seq<char>,
    id: Seq<char>,
    m: EngineModel,
    m2: EngineModel,
    r: Result<PlaybackState, PlayerError>,
) -> bool {
    let matching = lib.filter(has_album(album)).filter(has_artist(artist));
    exists|ts: Seq<Track>|
        {
            &&& #[trigger] ts.to_multiset() == matching.to_multiset()
            &&& sorted_by_track_number(ts)
            &&& if crate::queue::contains_id_spec(ts, id) {
                spec_play_album_outcome(m, m2, ts, id, r)
            } else {
                r == Err::<PlaybackState, PlayerError>(PlayerError::AlbumTrackNotFound) && m2
                    == m
            }
        }
}

/// Playing straight from the library: with an album and artist named, the
/// whole album is queued and the chosen track selected; otherwise the single
/// track is looked up and played by itself.
pub fn play_from_library<D: PlaybackDriver>(
    library: &LibraryService,
    playback: &mut PlaybackService<D>,
    track_id: &str,
    album: Option<String>,
    artist: Option<String>,
) -> (r: Result<PlaybackState, PlayerError>)
    ensures
        (!(album is Some && artist is Some) && !library_has_track(
            library.library.tracks@,
            track_id@,
        )) ==> r == Err::<PlaybackState, PlayerError>(PlayerError::TrackNotInLibrary) && final(playback).playback.model() == old(playback).playback.model(),
        (album is Some && artist is Some && library.library.tracks@.filter(
            has_album(album->Some_0@),
        ).filter(has_artist(artist->Some_0@)).len() == 0) ==> r == Err::<
            PlaybackState,
            PlayerError,
        >(PlayerError::AlbumNotFound) && final(playback).playback.model() == old(playback).playback.model(),
        (!(album is Some && artist is Some) && library_has_track(
            library.library.tracks@,
            track_id@,
        ) && old(playback).wf()) ==> spec_single_from_library_outcome(
            library.library.tracks@,
            track_id@,
            old(playback).playback.model(),
            final(playback).playback.model(),
            r,
        ),
        (album is Some && artist is Some && library.library.tracks@.filter(
            has_album(album->Some_0@),
        ).filter(has_artist(artist->Some_0@)).len() > 0 && old(playback).wf())
            ==> spec_album_from_library_outcome(
            library.library.tracks@,
            album->Some_0@,
            artist->Some_0@,
            track_id@,
            old(playback).playback.model(),
            final(playback).playback.model(),
            r,
        ),
        old(playback).wf() ==> final(playback).wf(),
{
    match (album, artist) {
        (Option::Some(album_name), Option::Some(artist_name)) => {

            let album_tracks = match library.get_tracks_by_album(
                album_name.as_str(),
                artist_name.as_str(),
            ) {
                Ok(ts) => ts,
                Err(e) => {
                    return Err(e);
                },
            };
            playback.play_album_tracks(album_tracks, track_id)
        },
        (_, _) => {
            let track = match library.get_track_by_id(track_id) {
                Ok(t) => t,
                Err(e) => {
                    return Err(e);
                },
            };
            playback.play_single_track(track)
        },
    }
}

} // verus!
