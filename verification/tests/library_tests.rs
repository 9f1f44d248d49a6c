use audio_player::{Library, LibraryService, PlayerError, Track, TrackMetadata};

#[test]
fn test_new_library_initialization() {
    let path = "/some/path/to/library".to_string();
    let name = "My Library".to_string();
    let library = Library::new(path.clone(), name.clone());
    assert_eq!(library.path, path);
    assert_eq!(library.name, name);
    // tracks should be initialized (empty if no files)
    assert!(library.tracks.is_empty());
}

#[test]
fn test_update_library() {
    let mut library = Library::new(
        "/some/path/to/library".to_string(),
        "My Library".to_string(),
    );
    library.update(
        Some("/some/path/to/another/library".to_string()),
        Some("New Library".to_string()),
    );
    assert_eq!(library.path, "/some/path/to/another/library");
    assert_eq!(library.name, "New Library");
}

#[test]
fn test_update_only_path() {
    let mut library = Library::new("/some/path/to/library".to_string(), "Lib".to_string());
    library.update(Some("/other_music".to_string()), None);
    assert_eq!(library.path, "/other_music");
    assert_eq!(library.name, "Lib");
}

#[test]
fn test_update_only_name() {
    let mut library = Library::new("/some/path/to/library".to_string(), "Lib".to_string());
    library.update(None, Some("Renamed".to_string()));
    assert_eq!(library.path, "/some/path/to/library");
    assert_eq!(library.name, "Renamed");
}

fn tagged_track(title: &str, album: Option<&str>, artist: Option<&str>, number: Option<i32>) -> Track {
    Track::from_probe(
        &format!("/music/{title}.mp3"),
        Some(441000),
        Some(10000),
        Some(TrackMetadata {
            title: Some(title.to_string()),
            album: album.map(|s| s.to_string()),
            artist: artist.map(|s| s.to_string()),
            album_artist: None,
            track_number: number,
            disc_number: None,
            genre: None,
            year: None,
        }),
    )
}

fn service_with(tracks: Vec<Track>) -> LibraryService {
    let mut library = Library::new("/music".to_string(), "Library".to_string());
    library.replace_tracks(tracks);
    LibraryService::new(library)
}

#[test]
fn test_track_by_id() {
    let a = tagged_track("a", Some("X"), Some("P"), Some(1));
    let id = a.id.clone();
    let library_service = service_with(vec![a]);
    let found = library_service.get_track_by_id(&id).unwrap();
    assert_eq!(found.id, id);
    let missing = library_service.get_track_by_id("nope");
    assert_eq!(missing.unwrap_err(), PlayerError::TrackNotInLibrary);
    assert_eq!(PlayerError::TrackNotInLibrary.message(), "Track not found");
}

#[test]
fn test_group_tracks_by_album() {
    let a1 = tagged_track("a1", Some("First"), Some("P"), Some(2));
    let a2 = tagged_track("a2", Some("First"), Some("P"), Some(1));
    let b1 = tagged_track("b1", Some("Second"), Some("P"), Some(1));
    let untagged = Track::new("/music/raw.wav");
    let library_service = service_with(vec![a1.clone(), b1.clone(), a2.clone(), untagged.clone()]);

    let groups = library_service.get_library_tracks().unwrap();
    assert_eq!(groups.len(), 3);
    assert_eq!(groups[0].album, "First");
    assert_eq!(groups[0].tracks, vec![a1.clone(), a2.clone()]);
    assert_eq!(groups[1].album, "Second");
    assert_eq!(groups[1].tracks, vec![b1.clone()]);
    assert_eq!(groups[2].album, "Unknown Album");
    assert_eq!(groups[2].tracks, vec![untagged.clone()]);
}

#[test]
fn test_albums_by_artist_sorts_by_track_number() {
    let a2 = tagged_track("a2", Some("First"), Some("P"), Some(2));
    let a1 = tagged_track("a1", Some("First"), Some("P"), Some(1));
    let b1 = tagged_track("b1", Some("Solo"), Some("Q"), None);
    let library_service = service_with(vec![a2.clone(), b1.clone(), a1.clone()]);

    let artists = library_service.get_albums_by_artist().unwrap();
    assert_eq!(artists.len(), 2);
    assert_eq!(artists[0].artist, "P");
    assert_eq!(artists[0].albums.len(), 1);
    assert_eq!(artists[0].albums[0].album, "First");
    assert_eq!(artists[0].albums[0].tracks, vec![a1.clone(), a2.clone()]);
    assert_eq!(artists[1].artist, "Q");
    assert_eq!(artists[1].albums[0].tracks, vec![b1.clone()]);
}

#[test]
fn test_tracks_by_album() {
    let a2 = tagged_track("a2", Some("First"), Some("P"), Some(2));
    let a1 = tagged_track("a1", Some("First"), Some("P"), Some(1));
    let other = tagged_track("b1", Some("First"), Some("Q"), Some(1));
    let library_service = service_with(vec![a2.clone(), a1.clone(), other.clone()]);

    let tracks = library_service.get_tracks_by_album("First", "P").unwrap();
    assert_eq!(tracks, vec![a1, a2]);

    let missing = library_service.get_tracks_by_album("First", "Nobody");
    assert_eq!(missing.unwrap_err(), PlayerError::AlbumNotFound);
    assert_eq!(PlayerError::AlbumNotFound.message(), "Album not found");
}

#[test]
fn test_album_artist_takes_precedence() {
    let mut track = tagged_track("a1", Some("First"), Some("P"), Some(1));
    if let Some(metadata) = track.metadata.as_mut() {
        metadata.album_artist = Some("Band".to_string());
    }
    let library_service = service_with(vec![track]);
    let artists = library_service.get_albums_by_artist().unwrap();
    assert_eq!(artists.len(), 1);
    assert_eq!(artists[0].artist, "Band");
}

#[test]
fn test_set_library_path_and_rescan() {
    let mut library_service = service_with(vec![]);
    library_service.set_library_path("/elsewhere".to_string()).unwrap();
    assert_eq!(library_service.get_library_path().unwrap(), "/elsewhere");
    let t = Track::new("/elsewhere/one.mp3");
    library_service.rescan_library(vec![t.clone()]).unwrap();
    assert_eq!(library_service.library.tracks, vec![t]);
}
