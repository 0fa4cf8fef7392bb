use ncspot::library::Library;
use ncspot::model::{Album, Artist, Playable, Playlist, Track};

fn track(id: &str, artists: &[(&str, &str)]) -> Track {
    Track {
        id: Some(id.to_string()),
        uri: format!("spotify:track:{id}"),
        title: format!("Title {id}"),
        track_number: 1,
        disc_number: 1,
        duration: 1000,
        artists: artists.iter().map(|a| a.1.to_string()).collect(),
        artist_ids: artists.iter().map(|a| a.0.to_string()).collect(),
        album: None,
        album_id: None,
        album_artists: Vec::new(),
        cover_url: None,
        url: String::new(),
        added_at: None,
        list_index: 0,
    }
}

fn artist(id: &str, name: &str, followed: bool) -> Artist {
    let mut a = Artist::new(id.to_string(), name.to_string());
    a.is_followed = followed;
    a
}

fn album(id: &str, artist: &str, year: &str, title: &str) -> Album {
    Album {
        id: Some(id.to_string()),
        title: title.to_string(),
        artists: vec![artist.to_string()],
        artist_ids: vec![],
        year: year.to_string(),
        cover_url: None,
        url: None,
        tracks: None,
        added_at: None,
        total_tracks: None,
    }
}

fn playlist(id: &str, owner: &str, snapshot: &str) -> Playlist {
    Playlist {
        id: id.to_string(),
        name: format!("List {id}"),
        owner_id: owner.to_string(),
        owner_name: None,
        snapshot_id: snapshot.to_string(),
        num_tracks: 0,
        tracks: None,
        collaborative: false,
    }
}

fn loaded() -> Library {
    let mut lib = Library::new(Some("me".to_string()), None);
    lib.is_done = true;
    lib
}

fn names(lib: &Library) -> Vec<String> {
    lib.artists.iter().map(|a| a.name.clone()).collect()
}

#[test]
fn nothing_counts_before_loading() {
    let mut lib = Library::new(None, None);
    lib.save_tracks(vec![track("t", &[("a", "A")])]);
    assert!(lib.tracks.is_empty());
    lib.tracks.push(track("t", &[]));
    assert!(!lib.is_saved_track(&Playable::Track(track("t", &[]))));
}

#[test]
fn saved_tracks_go_first_and_count_as_saved() {
    let mut lib = loaded();
    lib.save_tracks(vec![track("1", &[("a", "Beta")])]);
    lib.save_tracks(vec![track("2", &[("b", "Alpha")]), track("1", &[]), track("3", &[])]);
    let ids: Vec<String> = lib.tracks.iter().map(|t| t.id.clone().unwrap()).collect();
    assert_eq!(ids, vec!["2", "3", "1"]);
    assert!(lib.is_saved_track(&Playable::Track(track("3", &[]))));
    assert!(!lib.is_saved_track(&Playable::Track(track("4", &[]))));
    // The artists of saved tracks are there, ordered by name, with their tracks.
    assert_eq!(names(&lib), vec!["Alpha", "Beta"]);
    assert_eq!(lib.artists[1].tracks.as_ref().unwrap().len(), 1);
    assert!(!lib.artists[0].is_followed);
}

#[test]
fn unsaved_tracks_are_gone_with_their_artists() {
    let mut lib = loaded();
    lib.save_tracks(vec![track("1", &[("a", "A")]), track("2", &[("b", "B")])]);
    lib.unsave_tracks(&vec![track("1", &[])]);
    assert_eq!(lib.tracks.len(), 1);
    assert!(!lib.is_saved_track(&Playable::Track(track("1", &[]))));
    assert_eq!(names(&lib), vec!["B"]);
}

#[test]
fn followed_artists_stay_and_collect_tracks() {
    let mut lib = loaded();
    lib.artists.push(artist("a", "Zed", true));
    lib.artists.push(artist("x", "Gone", false));
    lib.tracks.push(track("1", &[("a", "Zed"), ("c", "Cee")]));
    lib.tracks.push(track("2", &[("a", "Zed")]));
    lib.tracks.push(track("2", &[("a", "Zed")]));
    lib.populate_artists();
    assert_eq!(names(&lib), vec!["Cee", "Zed"]);
    let zed = &lib.artists[1];
    assert!(zed.is_followed);
    let ids: Vec<String> = zed.tracks.as_ref().unwrap().iter().map(|t| t.id.clone().unwrap()).collect();
    assert_eq!(ids, vec!["1", "2"]);
    assert!(lib.is_followed_artist(&artist("a", "", false)));
    assert!(!lib.is_followed_artist(&artist("c", "", false)));
}

#[test]
fn follow_and_unfollow_artists() {
    let mut lib = loaded();
    lib.follow_artist(&artist("a", "Ann", false));
    assert!(lib.is_followed_artist(&artist("a", "", false)));
    assert_eq!(lib.artists[0].tracks.as_ref().unwrap().len(), 0);
    lib.unfollow_artist(&artist("a", "", false));
    assert!(!lib.is_followed_artist(&artist("a", "", false)));
    assert!(lib.artists.is_empty());
}

#[test]
fn merged_followed_artists_are_marked() {
    let mut lib = loaded();
    lib.artists.push(artist("a", "A", false));
    lib.merge_followed_artists(vec![artist("a", "A", false), artist("b", "B", false)]);
    assert!(lib.artists.iter().all(|a| a.is_followed));
    assert_eq!(lib.artists.len(), 2);
}

#[test]
fn albums_are_kept_in_order() {
    let mut lib = loaded();
    lib.save_album(album("1", "Zappa", "1970", "X"));
    lib.save_album(album("2", "Abba", "1976", "Arrival"));
    lib.save_album(album("3", "Abba", "1975", "Abba"));
    lib.save_album(album("2", "Abba", "1976", "Arrival"));
    let ids: Vec<String> = lib.albums.iter().map(|a| a.id.clone().unwrap()).collect();
    assert_eq!(ids, vec!["3", "2", "1"]);
    assert!(lib.is_saved_album(&album("2", "", "", "")));
    lib.unsave_album(&album("2", "", "", ""));
    assert!(!lib.is_saved_album(&album("2", "", "", "")));
    assert_eq!(lib.albums.len(), 2);
}

#[test]
fn playlists_are_updated_by_id() {
    let mut lib = loaded();
    assert_eq!(lib.append_or_update(playlist("p", "me", "1")), 0);
    assert_eq!(lib.append_or_update(playlist("q", "you", "1")), 1);
    assert!(lib.needs_download(&playlist("p", "me", "2")));
    assert!(!lib.needs_download(&playlist("p", "me", "1")));
    assert!(lib.needs_download(&playlist("r", "me", "1")));
    assert_eq!(lib.append_or_update(playlist("p", "me", "2")), 0);
    assert_eq!(lib.playlists[0].snapshot_id, "2");
    lib.playlist_update(playlist("q", "you", "9"));
    assert_eq!(lib.playlists[1].snapshot_id, "9");
    assert!(lib.is_saved_playlist(&playlist("q", "", "")));
    assert!(lib.is_followed_playlist(&playlist("q", "you", "")));
    assert!(!lib.is_followed_playlist(&playlist("p", "me", "")));
    assert_eq!(lib.deletable_playlist("q"), Some(1));
    lib.remove_playlist(1);
    assert_eq!(lib.playlists.len(), 1);
    lib.follow_playlist(playlist("z", "you", "1"));
    assert_eq!(lib.playlists[0].id, "z");
    lib.follow_playlist(playlist("z", "you", "1"));
    assert_eq!(lib.playlists.len(), 2);
}

#[test]
fn stale_playlists_are_those_the_remote_list_lacks() {
    let initial = vec![playlist("a", "me", "1"), playlist("b", "me", "1"), playlist("c", "me", "1")];
    let remote = vec!["c".to_string(), "a".to_string()];
    assert_eq!(ncspot::library::stale_playlist_ids(&initial, &remote), vec!["b".to_string()]);
    let mut lib = loaded();
    for p in initial {
        lib.append_or_update(p);
    }
    lib.remove_stale_playlists(&vec!["b".to_string()]);
    let ids: Vec<String> = lib.playlists.iter().map(|p| p.id.clone()).collect();
    assert_eq!(ids, vec!["a".to_string(), "c".to_string()]);
}

#[test]
fn playlists_follow_the_remote_order() {
    let mut lib = loaded();
    for id in ["a", "b", "x", "c"] {
        lib.append_or_update(playlist(id, "me", "1"));
    }
    lib.order_playlists(&vec!["c".to_string(), "b".to_string(), "a".to_string()]);
    let ids: Vec<String> = lib.playlists.iter().map(|p| p.id.clone()).collect();
    assert_eq!(ids, vec!["x".to_string(), "c".to_string(), "b".to_string(), "a".to_string()]);
}

#[test]
fn unchanged_first_page_keeps_saved_tracks() {
    let mut lib = loaded();
    lib.save_tracks(vec![track("1", &[]), track("2", &[])]);
    let first = vec![Some("1".to_string()), Some("2".to_string())];
    assert!(lib.saved_tracks_unchanged(2, &first));
    assert!(!lib.saved_tracks_unchanged(3, &first));
    assert!(!lib.saved_tracks_unchanged(2, &vec![Some("2".to_string())]));
    assert!(lib.saved_tracks_unchanged(2, &vec![Some("1".to_string())]));
}

#[test]
fn fetched_albums_are_ordered() {
    let mut lib = loaded();
    lib.set_fetched_albums(vec![
        album("1", "Zappa", "1970", "X"),
        album("2", "abba", "1976", "Arrival"),
        album("3", "Abba", "1975", "Abba"),
    ]);
    let ids: Vec<String> = lib.albums.iter().map(|a| a.id.clone().unwrap()).collect();
    assert_eq!(ids, vec!["3", "2", "1"]);
}

#[test]
fn unsaving_what_was_just_saved_restores_the_tracks() {
    let mut lib = loaded();
    lib.save_tracks(vec![track("1", &[]), track("2", &[])]);
    let before: Vec<Option<String>> = lib.tracks.iter().map(|t| t.id.clone()).collect();
    let new = vec![track("3", &[]), track("4", &[])];
    lib.save_tracks(new.clone());
    assert_eq!(lib.tracks.len(), 4);
    lib.unsave_tracks(&new);
    let after: Vec<Option<String>> = lib.tracks.iter().map(|t| t.id.clone()).collect();
    assert_eq!(after, before);
}
