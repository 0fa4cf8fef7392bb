use ncspot::lyrics::{
    apply_lyrics_result, fetch_result, is_not_found, LyricLine, LyricsAction, LyricsDisplayStatus,
    LyricsManager, LyricsViewState, RawLyricLine, RawLyrics, SyncType, TrackLyrics,
};
use ncspot::model::{Episode, Playable, Track};

fn line(start_ms: u64, text: &str) -> LyricLine {
    LyricLine { start_ms, text: text.to_string() }
}

fn lyrics(lines: Vec<LyricLine>) -> TrackLyrics {
    TrackLyrics { lines, sync_type: SyncType::LineSynced, provider: "p".to_string() }
}

fn raw(start: &str, words: &str) -> RawLyricLine {
    RawLyricLine { start_time_ms: start.to_string(), words: words.to_string() }
}

fn track(uri: &str) -> Track {
    Track {
        id: Some("id".to_string()),
        uri: uri.to_string(),
        title: "Song".to_string(),
        track_number: 1,
        disc_number: 1,
        duration: 1000,
        artists: vec!["A".to_string(), "B".to_string()],
        artist_ids: vec!["a".to_string(), "b".to_string()],
        album: Some("Record".to_string()),
        album_id: None,
        album_artists: Vec::new(),
        cover_url: None,
        url: String::new(),
        added_at: None,
        list_index: 0,
    }
}

fn episode(uri: &str) -> Episode {
    Episode {
        id: "e".to_string(),
        uri: uri.to_string(),
        duration: 1000,
        name: "Talk".to_string(),
        description: String::new(),
        release_date: String::new(),
        cover_url: None,
        added_at: None,
        list_index: 0,
    }
}

#[test]
fn active_line_is_the_last_that_started() {
    let l = lyrics(vec![line(0, "a"), line(1000, "b"), line(2000, "c")]);
    assert_eq!(l.active_line_index(0), 0);
    assert_eq!(l.active_line_index(999), 0);
    assert_eq!(l.active_line_index(1000), 1);
    assert_eq!(l.active_line_index(5000), 2);
    let late = lyrics(vec![line(500, "a"), line(1000, "b")]);
    assert_eq!(late.active_line_index(100), 0);
    assert_eq!(lyrics(Vec::new()).active_line_index(100), 0);
}

#[test]
fn plain_text_joins_lines() {
    let l = lyrics(vec![line(0, "one"), line(1, "two")]);
    assert_eq!(l.as_plain_text(), "one\ntwo");
    assert_eq!(lyrics(Vec::new()).as_plain_text(), "");
}

#[test]
fn synced_only_when_line_synced() {
    assert!(lyrics(Vec::new()).is_synced());
    let mut l = lyrics(Vec::new());
    l.sync_type = SyncType::Unsynced;
    assert!(!l.is_synced());
}

#[test]
fn lines_are_kept_and_ordered_by_start() {
    let value = RawLyrics {
        lines: vec![
            raw("2000", "third"),
            raw("x", "bad time"),
            raw("1000", "second"),
            raw("1500", ""),
            raw("0", "first"),
            raw("1000", "second too"),
        ],
        sync_type: SyncType::LineSynced,
        provider_display_name: "Provider".to_string(),
    };
    let l = TrackLyrics::from_lyrics(value);
    let texts: Vec<&str> = l.lines.iter().map(|x| x.text.as_str()).collect();
    assert_eq!(texts, vec!["first", "second", "second too", "third"]);
    let starts: Vec<u64> = l.lines.iter().map(|x| x.start_ms).collect();
    assert_eq!(starts, vec![0, 1000, 1000, 2000]);
    assert_eq!(l.provider, "Provider");
}

#[test]
fn not_found_errors_mean_no_lyrics() {
    assert!(is_not_found("Lyrics NOT FOUND for track"));
    assert!(!is_not_found("timeout"));
    assert!(matches!(fetch_result(Err("Not Found".to_string())), Ok(None)));
    assert!(matches!(fetch_result(Err("boom".to_string())), Err(ref e) if e == "boom"));
    let value = RawLyrics { lines: vec![raw("5", "x")], sync_type: SyncType::Unsynced, provider_display_name: String::new() };
    assert!(matches!(fetch_result(Ok(value)), Ok(Some(ref l)) if l.lines.len() == 1));
}

#[test]
fn results_for_another_track_are_ignored() {
    let mut state = LyricsViewState::default();
    state.track_uri = Some("spotify:track:a".to_string());
    apply_lyrics_result(&mut state, "spotify:track:b", Some(lyrics(vec![line(0, "x")])));
    assert!(matches!(state.status, LyricsDisplayStatus::Idle));
    apply_lyrics_result(&mut state, "spotify:track:a", Some(lyrics(Vec::new())));
    assert!(matches!(state.status, LyricsDisplayStatus::NoLyrics));
    assert_eq!(state.message, "No lyrics available for this track.");
    apply_lyrics_result(&mut state, "spotify:track:a", Some(lyrics(vec![line(0, "x")])));
    assert!(matches!(state.status, LyricsDisplayStatus::Ready));
    assert_eq!(state.message, "");
}

#[test]
fn nothing_playing_leaves_an_idle_view() {
    let mut m = LyricsManager::new();
    assert!(matches!(m.sync_current_track(None, true), LyricsAction::Nothing));
    assert_eq!(m.state().message, "No track is currently playing.");
    assert!(matches!(m.state().status, LyricsDisplayStatus::Idle));
}

#[test]
fn episodes_have_no_lyrics() {
    let mut m = LyricsManager::new();
    let action = m.sync_current_track(Some(Playable::Episode(episode("spotify:episode:e"))), true);
    assert!(matches!(action, LyricsAction::Nothing));
    assert_eq!(m.state().title, "Talk");
    assert_eq!(m.state().message, "Lyrics are not available for podcasts.");
    assert!(matches!(m.state().status, LyricsDisplayStatus::NotAvailable));
}

#[test]
fn a_track_is_fetched_once_then_served_from_the_cache() {
    let mut m = LyricsManager::new();
    let uri = "spotify:track:t";
    let action = m.sync_current_track(Some(Playable::Track(track(uri))), true);
    assert!(matches!(action, LyricsAction::Fetch(ref u) if u == uri));
    assert!(matches!(m.state().status, LyricsDisplayStatus::Loading));
    assert_eq!(m.state().artists, "A, B");
    assert_eq!(m.state().album, "Record");
    // The same track again while loading: nothing new.
    assert!(matches!(m.sync_current_track(Some(Playable::Track(track(uri))), true), LyricsAction::Nothing));
    // A second request while the fetch is under way starts no second fetch.
    assert!(matches!(m.request_lyrics(uri.to_string(), true), LyricsAction::Nothing));

    let done = m.finish_fetch(uri.to_string(), Ok(Some(lyrics(vec![line(0, "hello")]))));
    assert!(matches!(done, LyricsAction::Redraw));
    assert!(matches!(m.state().status, LyricsDisplayStatus::Ready));
    assert!(m.inflight.is_empty());

    // Showing another track and coming back uses the cache.
    m.sync_current_track(None, true);
    let again = m.sync_current_track(Some(Playable::Track(track(uri))), true);
    assert!(matches!(again, LyricsAction::Redraw));
    assert!(matches!(m.state().status, LyricsDisplayStatus::Ready));
    assert_eq!(m.state().lyrics.as_ref().unwrap().lines[0].text, "hello");
    assert_eq!(m.state().album, "Record");
    assert!(m.state().message.is_empty());
}

#[test]
fn a_failed_fetch_shows_the_error() {
    let mut m = LyricsManager::new();
    let uri = "spotify:track:t";
    m.sync_current_track(Some(Playable::Track(track(uri))), true);
    m.finish_fetch(uri.to_string(), Err("network down".to_string()));
    assert_eq!(m.state().message, "Failed to fetch lyrics: network down");
    assert!(matches!(m.state().status, LyricsDisplayStatus::Error(ref e) if e == "network down"));
    assert!(m.cache.is_empty());
}

#[test]
fn no_session_shows_an_error() {
    let mut m = LyricsManager::new();
    let action = m.sync_current_track(Some(Playable::Track(track("spotify:track:t"))), false);
    assert!(matches!(action, LyricsAction::Redraw));
    assert_eq!(m.state().message, "Spotify session is not available.");
    assert!(m.inflight.is_empty());
}

#[test]
fn no_lyrics_are_cached_too() {
    let mut m = LyricsManager::new();
    let uri = "spotify:track:t";
    m.sync_current_track(Some(Playable::Track(track(uri))), true);
    m.finish_fetch(uri.to_string(), Ok(None));
    assert!(matches!(m.state().status, LyricsDisplayStatus::NoLyrics));
    assert_eq!(m.cache.len(), 1);
}
