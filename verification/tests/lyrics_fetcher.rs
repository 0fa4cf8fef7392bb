use ncspot::lyrics_fetcher::OVHLyricsFetcher;
use ncspot::model::Track;

fn track(artist: &str, title: &str) -> Track {
    Track {
        id: None,
        uri: String::new(),
        title: title.to_string(),
        track_number: 1,
        disc_number: 1,
        duration: 1,
        artists: vec![artist.to_string()],
        artist_ids: vec![],
        album: None,
        album_id: None,
        album_artists: vec![],
        cover_url: None,
        url: String::new(),
        added_at: None,
        list_index: 0,
    }
}

#[test]
fn request_url_encodes_artist_and_title() {
    let f = OVHLyricsFetcher;
    assert_eq!(f.request_url(&track("AC/DC", "T.N.T.")), "https://api.lyrics.ovh/v1/AC%2FDC/T.N.T.");
    assert_eq!(f.request_url(&track("Björk", "a b~")), "https://api.lyrics.ovh/v1/Bj%C3%B6rk/a%20b~");
}

#[test]
fn reply_text_takes_the_lyrics_field() {
    let f = OVHLyricsFetcher;
    let t = track("A", "Song");
    assert_eq!(f.reply_text(&t, 404, ""), "Error fetching lyrics for Song");
    assert_eq!(f.reply_text(&t, 200, "{\"lyrics\":\"la la\"}"), "\"la la\"");
    assert_eq!(f.reply_text(&t, 200, "{}"), "null");
    assert_eq!(f.try_reply_text(&t, 200, "not json"), None);
    assert_eq!(f.try_reply_text(&t, 500, "not json"), Some("Error fetching lyrics for Song".to_string()));
}
