use audio_player::{
    Dispatch, Playback, PlaybackDriver, PlaybackEvent, PlaybackState, PlayerError, Queue,
    TestPlaybackDriver, Track, clamp_volume,
};

fn create_playback() -> Playback<TestPlaybackDriver> {
    Playback::create(TestPlaybackDriver)
}

#[test]
fn test_play_track() {
    let mut playback = create_playback();
    let track = Track::new("/music/song.mp3");
    playback.enqueue(track.clone());
    let _ = playback.play();
    assert_eq!(playback.current_track(), Some(&track));
}

#[test]
fn test_stop() {
    let mut playback = create_playback();
    let track = Track::new("/music/song.mp3");
    playback.enqueue(track.clone());
    let _ = playback.play();
    let _ = playback.stop();
    assert!(playback.current_track().is_none());
}

#[test]
fn test_queue_next_track() {
    let mut playback = create_playback();
    let track1 = Track::new("/music/song1.mp3");
    let track2 = Track::new("/music/song2.mp3");
    playback.enqueue(track1.clone());
    playback.enqueue(track2.clone());
    let _ = playback.play();
    assert_eq!(playback.current_track(), Some(&track1));
    let _ = playback.next();
    assert_eq!(playback.current_track(), Some(&track2));
}

#[test]
fn test_pause_and_resume() {
    let mut playback = create_playback();
    let track = Track::new("/music/song.mp3");
    playback.enqueue(track.clone());
    let _ = playback.play();
    let _ = playback.pause();
    match playback.state {
        PlaybackState::Paused => (),
        _ => panic!("playback should be paused"),
    }
    let result = playback.resume_play();
    assert!(result.is_ok());
    match playback.state {
        PlaybackState::Playing => (),
        _ => panic!("playback should be playing after resume"),
    }
}

#[test]
fn test_play_with_empty_queue() {
    let mut playback = create_playback();
    playback.queue = Some(Queue::new());
    let error = playback.play().unwrap_err();
    assert!(error.message().contains("No track to play"));
}

#[test]
fn test_play_without_queue() {
    let mut playback = create_playback();
    let error = playback.play().unwrap_err();
    assert_eq!(error.message(), "No track to play");
}

#[test]
fn test_previous_with_no_history() {
    let mut playback = create_playback();
    let error = playback.previous().unwrap_err();
    assert_eq!(error.message(), "No track to play");
}

#[test]
fn test_play_appends_to_history() {
    let mut playback = create_playback();

    let track = Track::new("/music/song.mp3");

    playback.enqueue(track.clone());
    let _ = playback.play();
    let _ = playback.next();

    assert_eq!(playback.history.len(), 1);
    assert_eq!(playback.history[0], track.clone());
}

#[test]
fn test_play_multiple_tracks_appends_to_history() {
    let mut playback = create_playback();

    let track1 = Track::new("/music/song1.mp3");
    let track2 = Track::new("/music/song2.mp3");

    playback.enqueue(track1.clone());
    playback.enqueue(track2.clone());
    let _ = playback.play();
    let _ = playback.next();
    let _ = playback.next();

    assert_eq!(playback.history.len(), 2);
    assert_eq!(playback.history[0], track1.clone());
    assert_eq!(playback.history[1], track2.clone());
}

#[test]
fn test_previous_prepends_current_track_to_queue() {
    let mut playback = create_playback();

    let track1 = Track::new("/music/song1.mp3");
    let track2 = Track::new("/music/song2.mp3");

    playback.enqueue(track1.clone());
    playback.enqueue(track2.clone());
    let _ = playback.play();
    let _ = playback.next();
    let initial_queue_length = playback.queue().len();

    let _ = playback.previous();

    let final_queue_length = playback.queue().len();

    assert_eq!(final_queue_length, initial_queue_length + 1);

    let queue_tracks = playback.queue();
    assert_eq!(queue_tracks.first(), Some(&track2));

    assert_eq!(playback.current_track(), Some(&track1));
}

#[test]
fn test_previous_with_empty_queue_prepends_current_track() {
    let mut playback = create_playback();

    let track1 = Track::new("/music/song1.mp3");
    let track2 = Track::new("/music/song2.mp3");

    playback.enqueue(track1.clone());
    playback.enqueue(track2.clone());
    let _ = playback.play();
    let _ = playback.next();
    playback.clear_queue();
    let _ = playback.previous();

    let queue_tracks = playback.queue();

    assert_eq!(queue_tracks.len(), 1);
    assert_eq!(queue_tracks[0], track2);

    assert_eq!(playback.current_track(), Some(&track1));
}

#[test]
fn test_previous_with_no_current_track_does_not_prepend_to_queue() {
    let mut playback = create_playback();

    let track1 = Track::new("/music/song1.mp3");

    playback.enqueue(track1.clone());
    let _ = playback.play();

    let _ = playback.stop();
    let _ = playback.previous();

    let queue_tracks = playback.queue();

    assert_eq!(queue_tracks.len(), 0);
}

#[test]
fn test_multiple_previous_calls_prepend_correctly() {
    let mut playback = create_playback();

    let track1 = Track::new("/music/song1.mp3");
    let track2 = Track::new("/music/song2.mp3");
    let track3 = Track::new("/music/song3.mp3");

    playback.enqueue(track1.clone());
    playback.enqueue(track2.clone());
    playback.enqueue(track3.clone());
    let _ = playback.play();
    let _ = playback.next();
    let _ = playback.next();
    let initial_queue_length = playback.queue().len();

    let _ = playback.previous();
    let _ = playback.previous();

    let final_queue_length = playback.queue().len();
    let queue_tracks = playback.queue();

    assert_eq!(final_queue_length, initial_queue_length + 2);

    assert_eq!(queue_tracks[0], track2);
    assert_eq!(queue_tracks[1], track3);

    assert_eq!(playback.current_track(), Some(&track1));
}

#[test]
fn test_select_track_from_queue_success() {
    let mut playback = create_playback();

    let track1 = Track::new("/music/song1.mp3");
    let track2 = Track::new("/music/song2.mp3");
    let track3 = Track::new("/music/song3.mp3");

    playback.enqueue(track1.clone());
    playback.enqueue(track2.clone());
    playback.enqueue(track3.clone());

    let _ = playback.play();
    assert_eq!(playback.current_track(), Some(&track1));

    let result = playback.select_track_from_queue(&track3.id);
    assert!(result.is_ok());
    assert_eq!(result.unwrap(), PlaybackState::Playing);

    // Should now be playing track3
    assert_eq!(playback.current_track(), Some(&track3));

    // track1 should be in history
    assert_eq!(playback.history.len(), 1);
    assert_eq!(playback.history[0], track1);

    // track3 should be removed from queue and track2 should be first
    let queue = playback.queue();
    assert_eq!(queue.len(), 1);
    assert_eq!(queue[0], track2);
}

#[test]
fn test_select_track_from_queue_with_no_current_track() {
    let mut playback = create_playback();

    let track1 = Track::new("/music/song1.mp3");
    let track2 = Track::new("/music/song2.mp3");

    playback.enqueue(track1.clone());
    playback.enqueue(track2.clone());

    let result = playback.select_track_from_queue(&track2.id);
    assert!(result.is_ok());
    assert_eq!(result.unwrap(), PlaybackState::Playing);

    // Should now be playing track2
    assert_eq!(playback.current_track(), Some(&track2));

    // History should be empty since no track was playing
    assert_eq!(playback.history.len(), 0);

    // track1 should be the only track left in queue
    let queue = playback.queue();
    assert_eq!(queue.len(), 1);
    assert_eq!(queue[0], track1);
}

#[test]
fn test_select_track_from_queue_moves_to_front() {
    let mut playback = create_playback();

    let track1 = Track::new("/music/song1.mp3");
    let track2 = Track::new("/music/song2.mp3");
    let track3 = Track::new("/music/song3.mp3");
    let track4 = Track::new("/music/song4.mp3");

    playback.enqueue(track1.clone());
    playback.enqueue(track2.clone());
    playback.enqueue(track3.clone());
    playback.enqueue(track4.clone());

    let result = playback.select_track_from_queue(&track3.id);
    assert!(result.is_ok());

    // Should now be playing track3
    assert_eq!(playback.current_track(), Some(&track3));

    // Queue should have track3 removed and other tracks in original order
    let queue = playback.queue();
    assert_eq!(queue.len(), 3);
    assert_eq!(queue[0], track1);
    assert_eq!(queue[1], track2);
    assert_eq!(queue[2], track4);
}

#[test]
fn test_select_track_from_queue_nonexistent_track() {
    let mut playback = create_playback();

    let track1 = Track::new("/music/song1.mp3");
    playback.enqueue(track1.clone());

    let result = playback.select_track_from_queue("nonexistent-id");
    assert!(result.is_err());
    assert_eq!(result.unwrap_err().message(), "Track not found in queue");
}

#[test]
fn test_select_track_from_queue_empty_queue() {
    let mut playback = create_playback();
    playback.queue = Some(Queue::new());

    let result = playback.select_track_from_queue("any-id");
    assert!(result.is_err());
    assert_eq!(result.unwrap_err().message(), "Track not found in queue");
}

#[test]
fn test_select_track_from_queue_no_queue() {
    let mut playback = create_playback();

    // Don't create any queue
    let result = playback.select_track_from_queue("any-id");
    assert!(result.is_err());
    assert_eq!(result.unwrap_err().message(), "Track not found in queue");
}

#[test]
fn test_select_track_from_queue_first_track() {
    let mut playback = create_playback();

    let track1 = Track::new("/music/song1.mp3");
    let track2 = Track::new("/music/song2.mp3");
    let track3 = Track::new("/music/song3.mp3");

    playback.enqueue(track1.clone());
    playback.enqueue(track2.clone());
    playback.enqueue(track3.clone());

    let _ = playback.play();
    assert_eq!(playback.current_track(), Some(&track1));

    // Select the first track in queue (track2)
    let result = playback.select_track_from_queue(&track2.id);
    assert!(result.is_ok());

    // Should now be playing track2
    assert_eq!(playback.current_track(), Some(&track2));

    // track1 should be in history
    assert_eq!(playback.history.len(), 1);
    assert_eq!(playback.history[0], track1);

    // Queue should have track3 only
    let queue = playback.queue();
    assert_eq!(queue.len(), 1);
    assert_eq!(queue[0], track3);
}

#[test]
fn test_select_track_from_queue_with_paused_state() {
    let mut playback = create_playback();

    let track1 = Track::new("/music/song1.mp3");
    let track2 = Track::new("/music/song2.mp3");

    playback.enqueue(track1.clone());
    playback.enqueue(track2.clone());

    let _ = playback.play();
    let _ = playback.pause();
    assert_eq!(playback.state, PlaybackState::Paused);

    let result = playback.select_track_from_queue(&track2.id);
    assert!(result.is_ok());
    assert_eq!(result.unwrap(), PlaybackState::Playing);

    // Should now be playing track2
    assert_eq!(playback.current_track(), Some(&track2));
    assert_eq!(playback.state, PlaybackState::Playing);
}

#[test]
fn test_play_next_previous_round_trip() {
    let mut playback = create_playback();
    let a = Track::new("/music/a.mp3");
    let b = Track::new("/music/b.mp3");
    let c = Track::new("/music/c.mp3");
    playback.enqueue(a.clone());
    playback.enqueue(b.clone());
    playback.enqueue(c.clone());

    let _ = playback.play();
    assert_eq!(playback.current_track(), Some(&a));
    assert_eq!(playback.queue(), vec![b.clone(), c.clone()]);

    let _ = playback.next();
    assert_eq!(playback.current_track(), Some(&b));
    assert_eq!(playback.queue(), vec![c.clone()]);
    assert_eq!(playback.history, vec![a.clone()]);

    let _ = playback.previous();
    assert_eq!(playback.current_track(), Some(&a));
    assert_eq!(playback.queue(), vec![b.clone(), c.clone()]);
    assert!(playback.history.is_empty());
}

#[test]
fn test_set_volume_clamps() {
    assert_eq!(clamp_volume(1500), 1000);
    assert_eq!(clamp_volume(-200), 0);
    assert_eq!(clamp_volume(0), 0);
    assert_eq!(clamp_volume(1000), 1000);
    assert_eq!(clamp_volume(730), 730);

    let mut playback = create_playback();
    assert!(playback.set_volume(1500).is_ok());
    assert!(playback.set_volume(-200).is_ok());
}

#[test]
fn test_resume_without_pause_fails() {
    let mut playback = create_playback();
    let error = playback.resume_play().unwrap_err();
    assert_eq!(error.message(), "No track to resume playback");
}

#[test]
fn test_enqueue_emits_queue_changed() {
    let mut playback = create_playback();
    let track = Track::new("/music/song.mp3");
    playback.enqueue(track.clone());
    let events = playback.take_events();
    assert_eq!(events.len(), 1);
    match &events[0] {
        PlaybackEvent::QueueChanged(queue) => assert_eq!(queue, &vec![track]),
        other => panic!("expected a queue change, got {other:?}"),
    }
    assert!(playback.take_events().is_empty());
}

#[test]
fn test_progress_suppressed_unless_playing() {
    let mut playback = create_playback();
    let track = Track::new("/music/song.mp3");
    playback.enqueue(track.clone());
    let _ = playback.play();

    match playback.handle_event(PlaybackEvent::Progress(250, 4000)) {
        Dispatch::EmitProgress(permille, frames) => {
            assert_eq!(permille, 250);
            assert_eq!(frames, 4000);
        },
        other => panic!("expected a progress emission, got {other:?}"),
    }

    let _ = playback.pause();
    match playback.handle_event(PlaybackEvent::Progress(300, 5000)) {
        Dispatch::Nothing => {},
        other => panic!("expected suppression while paused, got {other:?}"),
    }
    match playback.handle_event(PlaybackEvent::Spectrum(vec![1, 2, 3])) {
        Dispatch::Nothing => {},
        other => panic!("expected suppression while paused, got {other:?}"),
    }
}

#[test]
fn test_track_completed_advances() {
    let mut playback = create_playback();
    let track1 = Track::new("/music/song1.mp3");
    let track2 = Track::new("/music/song2.mp3");
    playback.enqueue(track1.clone());
    playback.enqueue(track2.clone());
    let _ = playback.play();

    match playback.handle_event(PlaybackEvent::TrackCompleted) {
        Dispatch::Nothing => {},
        other => panic!("completion should advance quietly, got {other:?}"),
    }
    assert_eq!(playback.current_track(), Some(&track2));
    assert_eq!(playback.history, vec![track1]);
}

#[test]
fn test_shutdown_halts_dispatch() {
    let mut playback = create_playback();
    match playback.handle_event(PlaybackEvent::Shutdown) {
        Dispatch::HaltDispatch => {},
        other => panic!("expected the dispatch loop to halt, got {other:?}"),
    }
}

struct RefusingDriver;

impl PlaybackDriver for RefusingDriver {
    fn play(&mut self, _track: Track) -> Result<(), PlayerError> {
        Err(PlayerError::DriverCommandFailed)
    }
    fn pause(&mut self) -> Result<(), PlayerError> {
        Err(PlayerError::DriverCommandFailed)
    }
    fn resume(&mut self) -> Result<(), PlayerError> {
        Err(PlayerError::DriverCommandFailed)
    }
    fn clear(&mut self) -> Result<(), PlayerError> {
        Err(PlayerError::DriverCommandFailed)
    }
    fn set_volume(&mut self, _volume_milli: u32) -> Result<(), PlayerError> {
        Err(PlayerError::DriverCommandFailed)
    }
    fn seek(&mut self, _position_ms: u64) -> Result<(), PlayerError> {
        Err(PlayerError::DriverCommandFailed)
    }
    fn set_spectrum_computation(&mut self, _should_compute: bool) -> Result<(), PlayerError> {
        Err(PlayerError::DriverCommandFailed)
    }
}

#[test]
fn test_driver_refusal_surfaces() {
    let mut playback = Playback::create(RefusingDriver);
    let error = playback.seek(1000).unwrap_err();
    assert_eq!(error, PlayerError::DriverCommandFailed);
    assert_eq!(error.message(), "Failed to send command to audio driver");

    let track = Track::new("/music/song.mp3");
    playback.enqueue(track);
    let error = playback.play().unwrap_err();
    assert_eq!(error, PlayerError::DriverCommandFailed);
    assert_eq!(playback.state, PlaybackState::Stopped);
}
