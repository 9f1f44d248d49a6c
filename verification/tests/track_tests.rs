use audio_player::{Track, TrackMetadata, duration_ms_from, is_supported_extension};

#[test]
fn test_track_creation() {
    let track = Track::new("test.mp3");
    assert!(!track.id.is_empty());
    assert_eq!(track.path, "test.mp3");
    assert_eq!(track.total_frames, 0); // Nothing was probed for this path
    assert_eq!(track.duration_ms, 0); // Nothing was probed for this path
}

#[test]
fn test_track_uuid_uniqueness() {
    let track1 = Track::new("test1.mp3");
    let track2 = Track::new("test2.mp3");
    assert_ne!(track1.id, track2.id, "Each track should have a unique ID");
}

#[test]
fn test_default_title() {
    let title = Track::default_title("/path/to/my_song.mp3");
    assert_eq!(title, "my_song.mp3");
}

#[test]
fn test_default_title_no_extension() {
    let title = Track::default_title("/path/to/song");
    assert_eq!(title, "song");
}

#[test]
fn test_default_title_empty_path() {
    let title = Track::default_title("");
    assert_eq!(title, "Unknown");
}

#[test]
fn test_path_handling() {
    // Test various path formats
    let paths = vec![
        "/home/user/music/song.mp3",
        "C:\\Users\\User\\Music\\song.mp3",
        "./relative/path/song.flac",
        "../parent/song.wav",
    ];

    for path_str in paths {
        let track = Track::new(path_str);
        assert_eq!(track.path, path_str);
        assert!(!track.id.is_empty());
    }
}

#[test]
fn test_track_id_is_uuid_shaped() {
    let track = Track::new("anything.ogg");
    assert_eq!(track.id.chars().count(), 36);
}

#[test]
fn test_default_title_trailing_separator() {
    assert_eq!(Track::default_title("/music/album/"), "album");
}

#[test]
fn test_from_probe_fills_missing_title() {
    let metadata = TrackMetadata {
        title: None,
        album: Some("Album".to_string()),
        artist: Some("Artist".to_string()),
        album_artist: None,
        track_number: Some(3),
        disc_number: None,
        genre: None,
        year: None,
    };
    let track = Track::from_probe("/music/my_song.flac", Some(441000), Some(10000), Some(metadata));
    assert_eq!(track.total_frames, 441000);
    assert_eq!(track.duration_ms, 10000);
    let filled = track.metadata.expect("metadata should be kept");
    assert_eq!(filled.title, Some("my_song.flac".to_string()));
    assert_eq!(filled.album, Some("Album".to_string()));
}

#[test]
fn test_from_probe_keeps_existing_title() {
    let metadata = TrackMetadata {
        title: Some("Kept".to_string()),
        album: None,
        artist: None,
        album_artist: None,
        track_number: None,
        disc_number: None,
        genre: None,
        year: None,
    };
    let track = Track::from_probe("/music/other.flac", None, None, Some(metadata));
    assert_eq!(track.total_frames, 0);
    assert_eq!(track.duration_ms, 0);
    assert_eq!(track.metadata.unwrap().title, Some("Kept".to_string()));
}

#[test]
fn test_duration_from_frames() {
    assert_eq!(duration_ms_from(441000, 44100), 10000);
    assert_eq!(duration_ms_from(44100, 44100), 1000);
    assert_eq!(duration_ms_from(22050, 44100), 500);
    assert_eq!(duration_ms_from(0, 44100), 0);
    assert_eq!(duration_ms_from(441000, 0), 0);
}

#[test]
fn test_supported_extensions() {
    assert!(is_supported_extension("mp3"));
    assert!(is_supported_extension("MP3"));
    assert!(is_supported_extension("FlAc"));
    assert!(is_supported_extension("wav"));
    assert!(!is_supported_extension("txt"));
    assert!(!is_supported_extension(""));
    assert!(!is_supported_extension("mp5"));
}
