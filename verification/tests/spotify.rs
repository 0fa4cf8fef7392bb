use ncspot::spotify::{UriParseError, UriType};

#[test]
fn parses_album_uri() {
    let uri_type = "spotify:album:29F5MF6Q9VYlryDsYEQz6a".parse();
    assert!(matches!(uri_type, Ok(UriType::Album)));
}

#[test]
fn parse_invalid_uri() {
    let uri_type: Result<UriType, _> = "kayava".parse();
    assert!(matches!(uri_type, Err(UriParseError)));
}

#[test]
fn parse_playlist_uri() {
    let uri_type = "spotify:playlist:37i9dQZF1DX36Xw4IJIVKA".parse();
    assert!(matches!(uri_type, Ok(UriType::Playlist)));
}

#[test]
fn parses_each_kind_of_uri() {
    assert_eq!(UriType::from_str("spotify:artist:1"), Ok(UriType::Artist));
    assert_eq!(UriType::from_str("spotify:track:1"), Ok(UriType::Track));
    assert_eq!(UriType::from_str("spotify:user:me:playlist:1"), Ok(UriType::Playlist));
    assert_eq!(UriType::from_str("spotify:show:1"), Ok(UriType::Show));
    assert_eq!(UriType::from_str("spotify:episode:1"), Ok(UriType::Episode));
    assert_eq!(UriType::from_str("spotify:genre:1"), Err(UriParseError));
}

#[test]
fn uri_parse_error_message() {
    assert_eq!(UriParseError.to_string(), "invalid Spotify URI");
}

use ncspot::queue::PlayerStatus;
use ncspot::spotify::{PlaybackClock, PlayerEvent};

#[test]
fn clock_counts_progress() {
    let mut c = PlaybackClock::new();
    assert_eq!(c.current_progress(1000), 0);
    c.update_status(PlayerEvent::Playing(1000));
    assert_eq!(c.current_progress(4000), 3000);
    c.update_status(PlayerEvent::Paused(2500));
    assert_eq!(c.current_progress(9999), 2500);
    c.update_track();
    assert_eq!(c.current_progress(9999), 0);
    c.update_status(PlayerEvent::Stopped);
    assert_eq!(c.status, PlayerEvent::Stopped);
}

#[test]
fn player_event_status() {
    assert_eq!(PlayerEvent::Playing(0).status(), PlayerStatus::Playing);
    assert_eq!(PlayerEvent::FinishedTrack.status(), PlayerStatus::Other);
    assert_eq!(PlayerEvent::FinishedTrack.playback_status(), "Playing");
    assert_eq!(PlayerEvent::Paused(1).playback_status(), "Paused");
    assert_eq!(PlayerEvent::Stopped.playback_status(), "Stopped");
}
