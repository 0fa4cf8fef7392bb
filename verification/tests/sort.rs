use ncspot::command::{SortDirection, SortKey};
use ncspot::model::{Episode, Playable, Playlist, Track};
use ncspot::sort::{compare_items, compare_text, sort_items};

fn track(id: &str, title: &str, artists: &[&str], album: Option<&str>, disc: i32, number: u32, duration: u32, added: Option<i64>) -> Playable {
    Playable::Track(Track {
        id: Some(id.to_string()),
        uri: format!("spotify:track:{id}"),
        title: title.to_string(),
        track_number: number,
        disc_number: disc,
        duration,
        artists: artists.iter().map(|a| a.to_string()).collect(),
        artist_ids: artists.iter().map(|a| format!("id-{a}")).collect(),
        album: album.map(|a| a.to_string()),
        album_id: None,
        album_artists: Vec::new(),
        cover_url: None,
        url: String::new(),
        added_at: added,
        list_index: 0,
    })
}

fn episode(id: &str) -> Playable {
    Playable::Episode(Episode {
        id: id.to_string(),
        uri: format!("spotify:episode:{id}"),
        duration: 1000,
        name: "An episode".to_string(),
        description: String::new(),
        release_date: "2020-01-01".to_string(),
        cover_url: None,
        added_at: None,
        list_index: 0,
    })
}

fn ids(items: &[Playable]) -> Vec<String> {
    items.iter().map(|p| p.id().unwrap()).collect()
}

fn playlist(items: Vec<Playable>) -> Playlist {
    Playlist {
        id: "p".to_string(),
        name: "List".to_string(),
        owner_id: "me".to_string(),
        owner_name: None,
        snapshot_id: "s".to_string(),
        num_tracks: items.len(),
        tracks: Some(items),
        collaborative: false,
    }
}

#[test]
fn texts_compare_by_code_point() {
    let a: Vec<char> = "abc".chars().collect();
    let b: Vec<char> = "abd".chars().collect();
    let c: Vec<char> = "ab".chars().collect();
    assert_eq!(compare_text(&a, &b), -1);
    assert_eq!(compare_text(&b, &a), 1);
    assert_eq!(compare_text(&c, &a), -1);
    assert_eq!(compare_text(&a, &a), 0);
    let upper: Vec<char> = "Z".chars().collect();
    let lower: Vec<char> = "a".chars().collect();
    assert_eq!(compare_text(&upper, &lower), -1);
}

#[test]
fn sort_by_title_ignores_case() {
    let mut items = vec![
        track("1", "beta", &["A"], None, 1, 1, 10, None),
        track("2", "Alpha", &["A"], None, 1, 1, 10, None),
        track("3", "gamma", &["A"], None, 1, 1, 10, None),
    ];
    sort_items(&mut items, SortKey::Title, SortDirection::Ascending);
    assert_eq!(ids(&items), vec!["2", "1", "3"]);
    sort_items(&mut items, SortKey::Title, SortDirection::Descending);
    assert_eq!(ids(&items), vec!["3", "1", "2"]);
}

#[test]
fn sort_by_duration_is_stable() {
    let mut items = vec![
        track("1", "a", &["A"], None, 1, 1, 300, None),
        track("2", "b", &["A"], None, 1, 1, 100, None),
        track("3", "c", &["A"], None, 1, 1, 300, None),
        track("4", "d", &["A"], None, 1, 1, 100, None),
    ];
    sort_items(&mut items, SortKey::Duration, SortDirection::Ascending);
    assert_eq!(ids(&items), vec!["2", "4", "1", "3"]);
    sort_items(&mut items, SortKey::Duration, SortDirection::Descending);
    assert_eq!(ids(&items), vec!["1", "3", "2", "4"]);
}

#[test]
fn sort_by_album_then_disc_then_number() {
    let mut items = vec![
        track("1", "a", &["A"], Some("Second"), 1, 2, 10, None),
        track("2", "b", &["A"], Some("first"), 2, 1, 10, None),
        track("3", "c", &["A"], Some("First"), 1, 5, 10, None),
        track("4", "d", &["A"], None, 1, 1, 10, None),
        track("5", "e", &["A"], Some("Second"), 1, 1, 10, None),
    ];
    sort_items(&mut items, SortKey::Album, SortDirection::Ascending);
    assert_eq!(ids(&items), vec!["4", "3", "2", "5", "1"]);
}

#[test]
fn sort_by_added_puts_unknown_first() {
    let mut items = vec![
        track("1", "a", &["A"], None, 1, 1, 10, Some(300)),
        track("2", "b", &["A"], None, 1, 1, 10, None),
        track("3", "c", &["A"], None, 1, 1, 10, Some(-5)),
    ];
    sort_items(&mut items, SortKey::Added, SortDirection::Ascending);
    assert_eq!(ids(&items), vec!["2", "3", "1"]);
}

#[test]
fn sort_by_artist_skips_leading_the() {
    let mut items = vec![
        track("1", "a", &["The Beatles"], None, 1, 1, 10, None),
        track("2", "b", &["Abba"], None, 1, 1, 10, None),
        track("3", "c", &["the the band"], None, 1, 1, 10, None),
        track("4", "d", &["Cream"], None, 1, 1, 10, None),
    ];
    sort_items(&mut items, SortKey::Artist, SortDirection::Ascending);
    // "beatles", "abba", "band", "cream"
    assert_eq!(ids(&items), vec!["2", "3", "1", "4"]);
}

#[test]
fn sort_by_artist_breaks_ties_by_album() {
    let mut items = vec![
        track("1", "a", &["X"], Some("b"), 1, 1, 10, None),
        track("2", "b", &["X"], Some("a"), 1, 1, 10, None),
    ];
    sort_items(&mut items, SortKey::Artist, SortDirection::Ascending);
    assert_eq!(ids(&items), vec!["2", "1"]);
}

#[test]
fn episodes_tie_with_everything() {
    let a = episode("e");
    let b = track("1", "a", &["X"], None, 1, 1, 10, None);
    assert_eq!(compare_items(&a, &b, SortKey::Title, SortDirection::Ascending), 0);
    assert_eq!(compare_items(&b, &a, SortKey::Duration, SortDirection::Descending), 0);
    let mut items = vec![a, b];
    sort_items(&mut items, SortKey::Title, SortDirection::Ascending);
    assert_eq!(items.len(), 2);
}

#[test]
fn playlist_sort_sorts_loaded_items() {
    let mut p = playlist(vec![
        track("1", "b", &["X"], None, 1, 1, 10, None),
        track("2", "a", &["X"], None, 1, 1, 10, None),
    ]);
    p.sort(&SortKey::Title, &SortDirection::Ascending);
    assert_eq!(ids(p.tracks.as_ref().unwrap()), vec!["2", "1"]);
    assert_eq!(p.name, "List");

    let mut empty = playlist(Vec::new());
    empty.tracks = None;
    empty.sort(&SortKey::Title, &SortDirection::Ascending);
    assert!(empty.tracks.is_none());
}
