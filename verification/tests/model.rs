use ncspot::model::{ids_playing, Artist, Episode, Playable, Playlist, Track};

fn track(id: Option<&str>, title: &str, artists: &[&str], ids: &[&str], album: Option<&str>) -> Track {
    Track {
        id: id.map(|s| s.to_string()),
        uri: format!("spotify:track:{}", id.unwrap_or("")),
        title: title.to_string(),
        track_number: 1,
        disc_number: 1,
        duration: 61_000,
        artists: artists.iter().map(|a| a.to_string()).collect(),
        artist_ids: ids.iter().map(|a| a.to_string()).collect(),
        album: album.map(|a| a.to_string()),
        album_id: None,
        album_artists: Vec::new(),
        cover_url: Some("cover".to_string()),
        url: String::new(),
        added_at: None,
        list_index: 3,
    }
}

fn episode(id: &str, duration: u32) -> Episode {
    Episode {
        id: id.to_string(),
        uri: format!("spotify:episode:{id}"),
        duration,
        name: "Episode".to_string(),
        description: String::new(),
        release_date: "2021-02-03".to_string(),
        cover_url: None,
        added_at: None,
        list_index: 0,
    }
}

fn playlist(items: Option<Vec<Playable>>) -> Playlist {
    Playlist {
        id: "pl".to_string(),
        name: "Mix".to_string(),
        owner_id: "owner".to_string(),
        owner_name: Some("Owner".to_string()),
        snapshot_id: "s".to_string(),
        num_tracks: 12,
        tracks: items,
        collaborative: false,
    }
}

#[test]
fn format_fills_placeholders() {
    let p = Playable::Track(track(Some("t"), "Song", &["A", "B"], &["a", "b"], Some("Record")));
    assert_eq!(p.format("%artists - %title (%album)", false, false, "1:01"), "A, B - Song (Record)");
    assert_eq!(p.format("%title %saved %duration", true, false, "1:01"), "Song ✓ 1:01");
    assert_eq!(p.format("%saved", true, true, ""), "\u{f012c}");
    let e = Playable::Episode(episode("e", 1000));
    assert_eq!(e.format("[%artists|%title|%album]", false, false, ""), "[|Episode|]");
}

#[test]
fn artist_names_pair_with_ids() {
    let t = track(Some("t"), "Song", &["A", "B", "C"], &["a", "b"], None);
    assert_eq!(t.artist_names(), vec!["A".to_string(), "B".to_string()]);
    let artists = t.artists();
    assert_eq!(artists.len(), 2);
    assert_eq!(artists[1].name, "B");
    assert_eq!(artists[1].id, Some("b".to_string()));
    assert!(!artists[1].is_followed);
}

#[test]
fn track_text_and_links() {
    let t = track(Some("6fRJ"), "Song", &["A", "B"], &["a", "b"], None);
    assert_eq!(t.to_string(), "A, B - Song");
    assert_eq!(t.share_url(), Some("https://open.spotify.com/track/6fRJ".to_string()));
    let local = track(None, "Song", &["A"], &["a"], None);
    assert_eq!(local.share_url(), None);
}

#[test]
fn episode_duration_and_links() {
    let e = episode("ep", 3_725_000);
    assert_eq!(e.duration_str(), "62:05");
    assert_eq!(e.display_right(), "62:05 [2021-02-03]");
    assert_eq!(e.share_url(), "https://open.spotify.com/episode/ep");
    assert_eq!(episode("x", 5_000).duration_str(), "00:05");
}

#[test]
fn artist_links() {
    let a = Artist::new("id1".to_string(), "Name".to_string());
    assert_eq!(a.share_url(), Some("https://open.spotify.com/artist/id1".to_string()));
    assert!(a.tracks.is_none());
}

#[test]
fn playable_accessors() {
    let mut p = Playable::Track(track(Some("t"), "Song", &["A"], &["a"], None));
    assert_eq!(p.id(), Some("t".to_string()));
    assert_eq!(p.uri(), "spotify:track:t");
    assert_eq!(p.cover_url(), Some("cover".to_string()));
    assert_eq!(p.duration(), 61_000);
    assert_eq!(p.list_index(), 3);
    p.set_list_index(7);
    assert_eq!(p.list_index(), 7);
    p.set_added_at(Some(5));
    assert!(matches!(p, Playable::Track(ref t) if t.added_at == Some(5)));
    let e = Playable::Episode(episode("e", 1));
    assert_eq!(e.id(), Some("e".to_string()));
}

#[test]
fn playlist_display_and_links() {
    let p = playlist(None);
    assert_eq!(p.display_left(false), "Mix • Owner");
    assert_eq!(p.display_left(true), "Mix");
    assert_eq!(p.display_right(false, false), "  12 tracks");
    assert_eq!(p.display_right(true, false), "✓   12 tracks");
    assert_eq!(p.share_url(), "https://open.spotify.com/user/owner/playlist/pl");
    let loaded = playlist(Some(vec![Playable::Episode(episode("e", 1))]));
    assert_eq!(loaded.display_right(false, false), "   1 tracks");
    let mut many = playlist(None);
    many.num_tracks = 123456;
    assert_eq!(many.display_right(false, false), "123456 tracks");
}

#[test]
fn playlist_has_track_by_id() {
    let p = playlist(Some(vec![
        Playable::Track(track(Some("a"), "x", &[], &[], None)),
        Playable::Track(track(None, "y", &[], &[], None)),
    ]));
    assert!(p.has_track("a"));
    assert!(!p.has_track("b"));
    assert!(!playlist(None).has_track("a"));
}

#[test]
fn playing_means_same_ids_in_order() {
    let items = vec![
        Playable::Track(track(Some("a"), "x", &[], &[], None)),
        Playable::Episode(episode("b", 1)),
    ];
    let same = vec![
        Playable::Track(track(Some("a"), "x", &[], &[], None)),
        Playable::Track(track(None, "local", &[], &[], None)),
        Playable::Episode(episode("b", 1)),
    ];
    assert!(ids_playing(&same, &items));
    let reversed = vec![items[1].clone(), items[0].clone()];
    assert!(!ids_playing(&reversed, &items));
    assert!(!ids_playing(&Vec::new(), &Vec::new()));
}

use ncspot::model::{release_year, tracks_playing, Album, Category};

fn album(tracks: Option<Vec<Track>>) -> Album {
    Album {
        id: Some("al".to_string()),
        title: "Record".to_string(),
        artists: vec!["A".to_string(), "B".to_string()],
        artist_ids: vec!["a".to_string()],
        year: "1999".to_string(),
        cover_url: None,
        url: None,
        tracks,
        added_at: None,
        total_tracks: Some(2),
    }
}

#[test]
fn album_display() {
    let a = album(None);
    assert_eq!(a.to_string(), "A, B - Record");
    assert_eq!(a.display_right(false, false), "1999");
    assert_eq!(a.display_right(true, false), "✓ 1999");
    assert_eq!(a.share_url(), Some("https://open.spotify.com/album/al".to_string()));
    assert_eq!(a.artists().len(), 1);
    assert!(!a.tracks_complete());
    let mut b = album(Some(vec![track(Some("x"), "t", &[], &[], None)]));
    assert!(!b.tracks_complete());
    b.set_loaded_tracks(vec![track(Some("x"), "t", &[], &[], None), track(Some("y"), "u", &[], &[], None)]);
    assert!(b.tracks_complete());
}

#[test]
fn release_years() {
    assert_eq!(release_year("2021-02-03"), "2021");
    assert_eq!(release_year("1999"), "1999");
    assert_eq!(release_year(""), "");
}

#[test]
fn artist_display_right() {
    let mut a = Artist::new("id".to_string(), "Name".to_string());
    assert_eq!(a.display_right(true, false), "✓ ");
    a.tracks = Some(vec![track(Some("x"), "t", &[], &[], None)]);
    assert_eq!(a.display_right(false, false), "  1 saved tracks");
    assert_eq!(a.to_string(), "Name");
}

#[test]
fn collections_play_when_the_queue_holds_their_tracks() {
    let tracks = vec![track(Some("a"), "x", &[], &[], None), track(None, "y", &[], &[], None)];
    let queue = vec![Playable::Track(track(Some("a"), "x", &[], &[], None))];
    assert!(tracks_playing(&queue, &Some(tracks)));
    assert!(!tracks_playing(&queue, &None));
}

#[test]
fn track_and_episode_display() {
    let t = track(Some("a"), "x", &["A"], &["a"], Some("Rec"));
    assert_eq!(t.display_center(), "Rec");
    assert_eq!(t.display_right(true, false, "3:00"), "✓ 3:00");
    assert_eq!(t.display_right(false, false, "3:00"), " 3:00");
    let current = Playable::Track(track(Some("a"), "other", &[], &[], None));
    assert!(t.is_playing(Some(&current)));
    assert!(!t.is_playing(None));
    let e = episode("e", 1);
    assert_eq!(e.display_left(), "Episode");
    assert!(e.is_playing(Some(&Playable::Episode(episode("e", 2)))));
}

#[test]
fn category_display() {
    let c = Category { id: "pop".to_string(), name: "Pop".to_string() };
    assert_eq!(c.display_left(), "Pop");
    assert_eq!(c.share_url(), "https://open.spotify.com/genre/pop");
}

#[test]
fn loaded_items_are_appended_and_removed() {
    let a = Playable::Track(track(Some("a"), "A", &[], &[], None));
    let b = Playable::Track(track(Some("b"), "B", &[], &[], None));
    let c = Playable::Episode(episode("c", 1000));
    let mut p = playlist(Some(vec![a.clone()]));
    assert!(p.append_loaded(vec![b, c]));
    assert_eq!(p.tracks.as_ref().unwrap().len(), 3);
    assert_eq!(p.tracks.as_ref().unwrap()[2].id(), Some("c".to_string()));
    p.remove_loaded(0);
    let ids: Vec<Option<String>> = p.tracks.as_ref().unwrap().iter().map(|t| t.id()).collect();
    assert_eq!(ids, vec![Some("b".to_string()), Some("c".to_string())]);
    let mut unloaded = playlist(None);
    assert!(!unloaded.append_loaded(vec![a]));
    assert!(unloaded.tracks.is_none());
}
