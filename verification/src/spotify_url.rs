//! `open.spotify.com` links: recognising them and writing them.
use vstd::prelude::*;

use crate::spotify::UriType;
use crate::text::{chars_eq_str, chars_of, split_chars, split_on, string_from_chars};

verus! {

/// What `Url::parse` gives for the text `s` when it succeeds: the host when
/// it is a domain name (`Url::domain`) and the path (`Url::path`).
pub uninterp spec fn url_parts(s: Seq<char>) -> Option<(Option<Seq<char>>, Seq<char>)>;

/// What `str::to_lowercase` gives for `s`.
pub uninterp spec fn lowercase(s: Seq<char>) -> Seq<char>;

pub open spec fn is_ascii_text(s: Seq<char>) -> bool {
    forall|i: int| 0 <= i < s.len() ==> (s[i] as u32) < 128
}

pub open spec fn ascii_lower_char(c: char) -> char {
    if 'A' <= c && c <= 'Z' {
        ((c as u32) + 32) as char
    } else {
        c
    }
}

/// The parts of a parsed URL that link recognition reads.
#[derive(Clone, Debug)]
pub struct UrlParts {
    /// The host, when it is a domain name rather than an IP address.
    pub domain: Option<String>,
    /// The path, starting with `/` for URLs that have one.
    pub path: String,
}

impl UrlParts {
    pub open spec fn view_parts(&self) -> (Option<Seq<char>>, Seq<char>) {
        (
            match self.domain {
                Some(d) => Some(d@),
                None => None,
            },
            self.path@,
        )
    }
}

/// Calls `url::Url::parse` on `s` and, when it succeeds, reads the parsed URL's
/// `domain()` and `path()`. Claimed: the result is `url_parts(s)`, a function
/// of `s` alone; nothing is said of which texts parse.
#[verifier::external_body]
fn parse_url(s: &str) -> (r: Option<UrlParts>)
    ensures
        match url_parts(s@) {
            None => r is None,
            Some(p) => r matches Some(q) && q.view_parts() == p,
        },
{
    match url::Url::parse(s) {
        Ok(u) => Some(UrlParts { domain: u.domain().map(|d| d.to_string()), path: u.path().to_string() }),
        Err(_) => None,
    }
}

/// Calls `str::to_lowercase`. Claimed: the result is `lowercase(s)`, a function
/// of `s` alone, and on ASCII text it maps `A`-`Z` to `a`-`z` and keeps every
/// other character (Unicode lower-casing agrees with ASCII there).
#[verifier::external_body]
pub(crate) fn to_lowercase(s: &[char]) -> (r: Vec<char>)
    ensures
        r@ == lowercase(s@),
        is_ascii_text(s@) ==> r@ == s@.map_values(|c: char| ascii_lower_char(c)),
{
    let t: String = s.iter().collect();
    t.to_lowercase().chars().collect()
}

/// A link to a Spotify entity: its id and its kind.
#[derive(Clone, Debug)]
pub struct SpotifyUrl {
    pub id: String,
    pub uri_type: UriType,
}

/// The kind named by the first path segment of a link, compared after
/// lower-casing; `user` is resolved separately.
pub open spec fn entity_kind(lower: Seq<char>) -> Option<UriType> {
    if lower == "album"@ {
        Some(UriType::Album)
    } else if lower == "artist"@ {
        Some(UriType::Artist)
    } else if lower == "episode"@ {
        Some(UriType::Episode)
    } else if lower == "playlist"@ {
        Some(UriType::Playlist)
    } else if lower == "show"@ {
        Some(UriType::Show)
    } else if lower == "track"@ {
        Some(UriType::Track)
    } else {
        None
    }
}

/// The id and kind read from the path segments of an `open.spotify.com` link:
/// `/<kind>/<id>`, or `/user/<user>/playlist/<id>`, where `lower` is the
/// first segment lower-cased.
pub open spec fn link_from_segments_lowered(segs: Seq<Seq<char>>, lower: Seq<char>) -> Option<(Seq<char>, UriType)> {
    if lower == "user"@ {
        if segs.len() >= 4 && segs[2] == "playlist"@ {
            Some((segs[3], UriType::Playlist))
        } else {
            None
        }
    } else {
        match entity_kind(lower) {
            Some(k) => {
                if segs.len() >= 2 {
                    Some((segs[1], k))
                } else {
                    None
                }
            },
            None => None,
        }
    }
}

/// The id and kind read from the path segments of a link, the kind compared
/// after `str::to_lowercase`.
pub open spec fn link_from_segments(segs: Seq<Seq<char>>) -> Option<(Seq<char>, UriType)> {
    link_from_segments_lowered(segs, lowercase(segs[0]))
}

/// The link that a parsed URL with domain `domain` and path `path` denotes.
pub open spec fn link_from_parts(domain: Option<Seq<char>>, path: Seq<char>) -> Option<
    (Seq<char>, UriType),
> {
    if domain != Some("open.spotify.com"@) {
        None
    } else if path.len() == 0 || path[0] != '/' {
        None
    } else {
        link_from_segments(split_on(path.drop_first(), '/'))
    }
}

/// The path's first segment (the kind) is ASCII text.
pub open spec fn ascii_kind(path: Seq<char>) -> bool {
    path.len() > 0 && path[0] == '/' && is_ascii_text(split_on(path.drop_first(), '/')[0])
}

/// `link_from_parts` where the kind is ASCII text: lower-casing maps `A`-`Z`
/// to `a`-`z`.
pub open spec fn link_from_parts_ascii(domain: Option<Seq<char>>, path: Seq<char>) -> Option<
    (Seq<char>, UriType),
> {
    if domain != Some("open.spotify.com"@) {
        None
    } else if path.len() == 0 || path[0] != '/' {
        None
    } else {
        let segs = split_on(path.drop_first(), '/');
        link_from_segments_lowered(segs, segs[0].map_values(|c: char| ascii_lower_char(c)))
    }
}

/// The link that the text `s` denotes.
pub open spec fn link_from_text(s: Seq<char>) -> Option<(Seq<char>, UriType)> {
    match url_parts(s) {
        None => None,
        Some(p) => link_from_parts(p.0, p.1),
    }
}

pub open spec fn type_segment(t: UriType) -> Seq<char> {
    match t {
        UriType::Album => "album"@,
        UriType::Artist => "artist"@,
        UriType::Episode => "episode"@,
        UriType::Playlist => "playlist"@,
        UriType::Show => "show"@,
        UriType::Track => "track"@,
    }
}

impl SpotifyUrl {
    pub open spec fn view_link(&self) -> (Seq<char>, UriType) {
        (self.id@, self.uri_type)
    }

    pub fn new(id: &str, uri_type: UriType) -> (r: SpotifyUrl)
        ensures
            r.id@ == id@,
            r.uri_type == uri_type,
    {
        SpotifyUrl { id: String::from_str(id), uri_type }
    }

    /// The link denoted by the parts of a parsed URL.
    pub fn from_url_parts(parts: &UrlParts) -> (r: Option<SpotifyUrl>)
        ensures
            match link_from_parts(parts.view_parts().0, parts.view_parts().1) {
                None => r is None,
                Some(l) => r matches Some(u) && u.view_link() == l,
            },
            ascii_kind(parts.view_parts().1) ==> match link_from_parts_ascii(
                parts.view_parts().0,
                parts.view_parts().1,
            ) {
                None => r is None,
                Some(l) => r matches Some(u) && u.view_link() == l,
            },
    {
        match &parts.domain {
            None => return None,
            Some(d) => {
                let dc = chars_of(d.as_str());
                if !chars_eq_str(&dc, "open.spotify.com") {
                    return None;
                }
            },
        }
        let path = chars_of(parts.path.as_str());
        if path.len() == 0 || path[0] != '/' {
            return None;
        }
        assert(path@.skip(1) =~= path@.drop_first());
        let segs = split_chars(&path, 1, '/');
        let ghost ss = split_on(path@.drop_first(), '/');
        assert(segs@.len() >= 1);
        let entity = to_lowercase(&segs[0]);
        if chars_eq_str(&entity, "user") {
            if segs.len() >= 4 && chars_eq_str(&segs[2], "playlist") {
                let id = string_from_chars(&segs[3]);
                return Some(SpotifyUrl { id, uri_type: UriType::Playlist });
            } else {
                return None;
            }
        }
        let kind = if chars_eq_str(&entity, "album") {
            UriType::Album
        } else if chars_eq_str(&entity, "artist") {
            UriType::Artist
        } else if chars_eq_str(&entity, "episode") {
            UriType::Episode
        } else if chars_eq_str(&entity, "playlist") {
            UriType::Playlist
        } else if chars_eq_str(&entity, "show") {
            UriType::Show
        } else if chars_eq_str(&entity, "track") {
            UriType::Track
        } else {
            return None;
        };
        if segs.len() >= 2 {
            let id = string_from_chars(&segs[1]);
            Some(SpotifyUrl { id, uri_type: kind })
        } else {
            None
        }
    }

    /// Get media id and type from an `open.spotify.com` url.
    pub fn from_url(s: &str) -> (r: Option<SpotifyUrl>)
        ensures
            match link_from_text(s@) {
                None => r is None,
                Some(l) => r matches Some(u) && u.view_link() == l,
            },
            match url_parts(s@) {
                Some(p) => ascii_kind(p.1) ==> match link_from_parts_ascii(p.0, p.1) {
                    None => r is None,
                    Some(l) => r matches Some(u) && u.view_link() == l,
                },
                None => r is None,
            },
    {
        match parse_url(s) {
            None => None,
            Some(parts) => SpotifyUrl::from_url_parts(&parts),
        }
    }

    /// `https://open.spotify.com/<kind>/<id>`.
    pub fn to_string(&self) -> (r: String)
        ensures
            r@ == "https://open.spotify.com/"@ + type_segment(self.uri_type) + "/"@ + self.id@,
    {
        let seg = match self.uri_type {
            UriType::Album => "album",
            UriType::Artist => "artist",
            UriType::Episode => "episode",
            UriType::Playlist => "playlist",
            UriType::Show => "show",
            UriType::Track => "track",
        };
        let mut out = String::from_str("https://open.spotify.com/");
        out.append(seg);
        out.append("/");
        out.append(self.id.as_str());
        out
    }
}


/// The path a link is written with: `/<kind>/<id>`.
pub open spec fn link_path(t: UriType, id: Seq<char>) -> Seq<char> {
    "/"@ + type_segment(t) + "/"@ + id
}

/// A link reads back as itself: `to_string` writes
/// `https://open.spotify.com` followed by `link_path(t, id)`, and a parsed URL
/// with that host and path, whose kind is ASCII as every written kind is,
/// denotes the same id and kind, for any id without `/`.
pub proof fn lemma_written_link_reads_back(t: UriType, id: Seq<char>)
    requires
        !id.contains('/'),
    ensures
        ascii_kind(link_path(t, id)),
        link_from_parts_ascii(Some("open.spotify.com"@), link_path(t, id)) == Some((id, t)),
{
    reveal_strlit("/");
    reveal_strlit("album");
    reveal_strlit("artist");
    reveal_strlit("episode");
    reveal_strlit("playlist");
    reveal_strlit("show");
    reveal_strlit("track");
    reveal_strlit("user");
    let seg = type_segment(t);
    let path = link_path(t, id);
    assert(!seg.contains('/'));
    assert(path.drop_first() =~= seg + seq!['/'] + id);
    crate::text::lemma_split_two(seg, id, '/');
    let segs = split_on(path.drop_first(), '/');
    assert(segs == seq![seg, id]);
    assert(is_ascii_text(seg));
    assert(seg.map_values(|c: char| ascii_lower_char(c)) =~= seg);
    assert(path[0] == '/');
    assert(segs[0] == seg && segs[1] == id);
    assert("show"@[0] != "user"@[0]);
    assert("track"@[0] != "album"@[0]);
    assert(seg != "user"@);
    assert(entity_kind(seg) == Some(t));
}

} // verus!
