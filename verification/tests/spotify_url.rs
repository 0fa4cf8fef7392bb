use ncspot::spotify::UriType;
use ncspot::spotify_url::SpotifyUrl;

#[test]
fn test_urls() {
    let test_cases = vec![
        (
            "https://open.spotify.com/playlist/1XFxe8bkTryTODn0lk4CNa?si=FfSpZ6KPQdieClZbwHakOQ",
            SpotifyUrl::new("1XFxe8bkTryTODn0lk4CNa", UriType::Playlist),
        ),
        (
            "https://open.spotify.com/track/6fRJg3R90w0juYoCJXxj2d",
            SpotifyUrl::new("6fRJg3R90w0juYoCJXxj2d", UriType::Track),
        ),
        (
            "https://open.spotify.com/user/~villainy~/playlist/0OgoSs65CLDPn6AF6tsZVg",
            SpotifyUrl::new("0OgoSs65CLDPn6AF6tsZVg", UriType::Playlist),
        ),
        (
            "https://open.spotify.com/show/4MZfJbM2MXzZdPbv6gi5lJ",
            SpotifyUrl::new("4MZfJbM2MXzZdPbv6gi5lJ", UriType::Show),
        ),
        (
            "https://open.spotify.com/episode/3QE6rfmjRaeqXSqeWcIWF6",
            SpotifyUrl::new("3QE6rfmjRaeqXSqeWcIWF6", UriType::Episode),
        ),
        (
            "https://open.spotify.com/artist/6LEeAFiJF8OuPx747e1wxR",
            SpotifyUrl::new("6LEeAFiJF8OuPx747e1wxR", UriType::Artist),
        ),
    ];

    for case in test_cases {
        let result = SpotifyUrl::from_url(case.0).unwrap();
        assert_eq!(result.id, case.1.id);
        assert_eq!(result.uri_type, case.1.uri_type);
    }
}

#[test]
fn url_of_other_host_is_not_a_link() {
    assert!(SpotifyUrl::from_url("https://example.com/track/6fRJg3R90w0juYoCJXxj2d").is_none());
}

#[test]
fn url_with_unknown_kind_is_not_a_link() {
    assert!(SpotifyUrl::from_url("https://open.spotify.com/genre/abc").is_none());
}

#[test]
fn text_that_is_no_url_is_not_a_link() {
    assert!(SpotifyUrl::from_url("not a url").is_none());
}

#[test]
fn url_kind_is_read_in_any_case() {
    let result = SpotifyUrl::from_url("https://open.spotify.com/ALBUM/29F5MF6Q9VYlryDsYEQz6a").unwrap();
    assert_eq!(result.id, "29F5MF6Q9VYlryDsYEQz6a");
    assert_eq!(result.uri_type, UriType::Album);
}

#[test]
fn link_is_written_as_url() {
    let url = SpotifyUrl::new("6fRJg3R90w0juYoCJXxj2d", UriType::Track);
    assert_eq!(url.to_string(), "https://open.spotify.com/track/6fRJg3R90w0juYoCJXxj2d");
    let url = SpotifyUrl::new("x", UriType::Show);
    assert_eq!(url.to_string(), "https://open.spotify.com/show/x");
}

#[test]
fn written_links_read_back() {
    for t in [UriType::Album, UriType::Artist, UriType::Episode, UriType::Playlist, UriType::Show, UriType::Track] {
        let url = SpotifyUrl::new("4uLU6hMCjMI75M1A2tKUQC", t);
        let back = SpotifyUrl::from_url(&url.to_string()).unwrap();
        assert_eq!(back.id, "4uLU6hMCjMI75M1A2tKUQC");
        assert_eq!(back.uri_type, t);
    }
}
