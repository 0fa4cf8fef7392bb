use ncspot::media_control::{
    full_track_to_fetch, handle_media_event, metadata_of, playback_of, MediaAction, MediaEvent, MediaPlayback,
    MediaSeekDirection,
};
use ncspot::model::{Episode, Playable, Track};
use ncspot::spotify::PlayerEvent;

#[test]
fn simple_requests() {
    assert!(matches!(handle_media_event(MediaEvent::Play, 0, None), MediaAction::Play));
    assert!(matches!(handle_media_event(MediaEvent::Toggle, 0, None), MediaAction::TogglePlayback));
    assert!(matches!(handle_media_event(MediaEvent::Update, 0, None), MediaAction::UpdateControls));
    assert!(matches!(handle_media_event(MediaEvent::Quit, 0, None), MediaAction::Nothing));
    assert!(matches!(
        handle_media_event(MediaEvent::OpenUri("spotify:track:x".to_string()), 0, None),
        MediaAction::OpenUri(ref u) if u == "spotify:track:x"
    ));
}

#[test]
fn previous_restarts_after_five_seconds() {
    assert!(matches!(handle_media_event(MediaEvent::Previous, 4999, Some(10000)), MediaAction::Previous));
    assert!(matches!(handle_media_event(MediaEvent::Previous, 5000, Some(10000)), MediaAction::Seek(0)));
}

#[test]
fn seeking_moves_within_the_item() {
    let fwd = MediaEvent::Seek(MediaSeekDirection::Forward);
    assert!(matches!(handle_media_event(fwd.clone(), 1000, Some(60000)), MediaAction::Seek(6000)));
    assert!(matches!(handle_media_event(fwd, 58000, Some(60000)), MediaAction::Next));
    let back = MediaEvent::Seek(MediaSeekDirection::Backward);
    assert!(matches!(handle_media_event(back.clone(), 3000, Some(60000)), MediaAction::Previous));
    assert!(matches!(handle_media_event(back, 3000, None), MediaAction::Nothing));
    let by = MediaEvent::SeekBy(MediaSeekDirection::Backward, 2);
    assert!(matches!(handle_media_event(by, 10000, Some(60000)), MediaAction::Seek(8000)));
}

#[test]
fn set_position_only_before_the_end() {
    assert!(matches!(handle_media_event(MediaEvent::SetPosition(30), 0, Some(60000)), MediaAction::Seek(30)));
    assert!(matches!(handle_media_event(MediaEvent::SetPosition(70000), 0, Some(60000)), MediaAction::Nothing));
    assert!(matches!(handle_media_event(MediaEvent::SetPosition(1), 0, None), MediaAction::Nothing));
}

#[test]
fn playback_state_follows_the_player() {
    assert_eq!(playback_of(PlayerEvent::FinishedTrack, 5), MediaPlayback::Playing(None));
    assert_eq!(playback_of(PlayerEvent::Paused(7), 5), MediaPlayback::Paused(Some(7)));
    assert_eq!(playback_of(PlayerEvent::Playing(123), 5), MediaPlayback::Playing(Some(5)));
    assert_eq!(playback_of(PlayerEvent::Stopped, 5), MediaPlayback::Stopped);
}

#[test]
fn metadata_of_items() {
    let t = Track {
        id: None,
        uri: String::new(),
        title: "Song".to_string(),
        track_number: 1,
        disc_number: 1,
        duration: 2000,
        artists: vec![],
        artist_ids: vec![],
        album: Some("Rec".to_string()),
        album_id: None,
        album_artists: vec!["First".to_string(), "Second".to_string()],
        cover_url: Some("c".to_string()),
        url: String::new(),
        added_at: None,
        list_index: 0,
    };
    let m = metadata_of(Some(&Playable::Track(t)));
    assert_eq!(m.title.as_deref(), Some("Song"));
    assert_eq!(m.album.as_deref(), Some("Rec"));
    assert_eq!(m.artist.as_deref(), Some("First"));
    assert_eq!(m.duration_secs, Some(2000));
    let e = Episode {
        id: "e".to_string(),
        uri: String::new(),
        duration: 5,
        name: "Talk".to_string(),
        description: String::new(),
        release_date: String::new(),
        cover_url: None,
        added_at: None,
        list_index: 0,
    };
    let m = metadata_of(Some(&Playable::Episode(e)));
    assert_eq!(m.title.as_deref(), Some("Talk"));
    assert!(m.album.is_none());
    assert!(metadata_of(None).title.is_none());
}

#[test]
fn tracks_without_a_cover_are_fetched_in_full() {
    let mut t = Track {
        id: Some("abc".to_string()),
        uri: String::new(),
        title: "Song".to_string(),
        track_number: 1,
        disc_number: 1,
        duration: 2000,
        artists: vec![],
        artist_ids: vec![],
        album: None,
        album_id: None,
        album_artists: vec![],
        cover_url: None,
        url: String::new(),
        added_at: None,
        list_index: 0,
    };
    assert_eq!(full_track_to_fetch(&Playable::Track(t.clone())), Some("abc".to_string()));
    t.cover_url = Some("c".to_string());
    assert_eq!(full_track_to_fetch(&Playable::Track(t.clone())), None);
    t.cover_url = None;
    t.id = None;
    assert_eq!(full_track_to_fetch(&Playable::Track(t)), Some(String::new()));
}
