//! Tracks, podcast episodes, artists and playlists, and how they are shown.
//!
//! Times at which an item was added to the library are kept as milliseconds
//! since the Unix epoch.
use vstd::prelude::*;

use crate::num::{int_to_string, nat_digits, nat_to_string};
use crate::text::{
    chars_of, join, join_seq, occurs_at, occurs_at_exec, string_from_chars, string_of, views_of,
};

verus! {

#[derive(Clone, Debug)]
pub struct Track {
    pub id: Option<String>,
    pub uri: String,
    pub title: String,
    pub track_number: u32,
    pub disc_number: i32,
    pub duration: u32,
    pub artists: Vec<String>,
    pub artist_ids: Vec<String>,
    pub album: Option<String>,
    pub album_id: Option<String>,
    pub album_artists: Vec<String>,
    pub cover_url: Option<String>,
    pub url: String,
    pub added_at: Option<i64>,
    pub list_index: usize,
}

#[derive(Clone, Debug)]
pub struct Episode {
    pub id: String,
    pub uri: String,
    pub duration: u32,
    pub name: String,
    pub description: String,
    pub release_date: String,
    pub cover_url: Option<String>,
    pub added_at: Option<i64>,
    pub list_index: usize,
}

#[derive(Clone, Debug)]
pub enum Playable {
    Track(Track),
    Episode(Episode),
}

#[derive(Clone, Debug)]
pub struct Artist {
    pub id: Option<String>,
    pub name: String,
    pub url: Option<String>,
    pub tracks: Option<Vec<Track>>,
    pub is_followed: bool,
}

pub open spec fn opt_view(o: Option<String>) -> Option<Seq<char>> {
    match o {
        Some(s) => Some(s@),
        None => None,
    }
}

/// A copy of an optional text.
pub fn clone_opt(o: &Option<String>) -> (r: Option<String>)
    ensures
        opt_view(r) == opt_view(*o),
{
    match o {
        Some(s) => Some(s.clone()),
        None => None,
    }
}

/// `s` with every non-overlapping occurrence of `pat`, from the left,
/// replaced by `rep` (what `str::replace` gives for a non-empty pattern).
pub open spec fn replace_all(s: Seq<char>, pat: Seq<char>, rep: Seq<char>) -> Seq<char>
    decreases s.len(),
{
    if s.len() == 0 || pat.len() == 0 {
        s
    } else if pat.is_prefix_of(s) {
        rep + replace_all(s.skip(pat.len() as int), pat, rep)
    } else {
        seq![s[0]] + replace_all(s.drop_first(), pat, rep)
    }
}

/// Replaces every occurrence of `pat` in `s` by `rep`.
pub fn replace(s: &[char], pat: &str, rep: &[char]) -> (r: Vec<char>)
    requires
        pat@.len() > 0,
    ensures
        r@ == replace_all(s@, pat@, rep@),
{
    let p = chars_of(pat);
    let mut out: Vec<char> = Vec::new();
    let mut i: usize = 0;
    assert(s@.skip(0) =~= s@);
    assert(out@ + replace_all(s@, pat@, rep@) =~= replace_all(s@, pat@, rep@));
    while i < s.len()
        invariant
            p@ == pat@,
            p@.len() > 0,
            i <= s@.len(),
            replace_all(s@, pat@, rep@) == out@ + replace_all(s@.skip(i as int), pat@, rep@),
        decreases s@.len() - i,
    {
        let ghost rest = s@.skip(i as int);
        if occurs_at_exec(s, &p, i) {
            assert(pat@.is_prefix_of(rest)) by {
                assert forall|k: int| 0 <= k < pat@.len() implies pat@[k] == rest[k] by {
                    assert(s@.subrange(i as int, i + pat@.len())[k] == s@[i + k]);
                }
            }
            assert(rest.skip(pat@.len() as int) =~= s@.skip(i + p@.len()));
            out.extend_from_slice(rep);
            i = i + p.len();
        } else {
            assert(!pat@.is_prefix_of(rest)) by {
                if pat@.is_prefix_of(rest) {
                    assert(s@.subrange(i as int, i + pat@.len()) =~= pat@) by {
                        assert forall|k: int| 0 <= k < pat@.len() implies s@.subrange(
                            i as int,
                            i + pat@.len(),
                        )[k] == pat@[k] by {
                            assert(rest[k] == s@[i + k]);
                        }
                    }
                }
            }
            assert(rest.drop_first() =~= s@.skip(i + 1));
            out.push(s[i]);
            i = i + 1;
        }
        assert(out@ + replace_all(s@.skip(i as int), pat@, rep@) == replace_all(
            s@,
            pat@,
            rep@,
        ));
    }
    assert(s@.skip(s@.len() as int) =~= Seq::<char>::empty());
    assert(out@ + Seq::<char>::empty() =~= out@);
    out
}

/// The mark shown next to saved items.
pub open spec fn saved_mark(saved: bool, use_nerdfont: bool) -> Seq<char> {
    if saved {
        if use_nerdfont {
            "\u{f012c}"@
        } else {
            "✓"@
        }
    } else {
        Seq::empty()
    }
}

fn saved_mark_exec(saved: bool, use_nerdfont: bool) -> (r: String)
    ensures
        r@ == saved_mark(saved, use_nerdfont),
{
    if saved {
        if use_nerdfont {
            string_of("\u{f012c}")
        } else {
            string_of("✓")
        }
    } else {
        String::new()
    }
}

/// The names of the artists that have ids, paired up in order (a name
/// without a matching id is left out).
pub open spec fn artist_names_paired(t: Track) -> Seq<Seq<char>> {
    let n = if t.artist_ids@.len() < t.artists@.len() {
        t.artist_ids@.len()
    } else {
        t.artists@.len()
    };
    views_of(t.artists@).take(n as int)
}

impl Playable {
    pub open spec fn title_text(&self) -> Seq<char> {
        match self {
            Playable::Track(t) => t.title@,
            Playable::Episode(e) => e.name@,
        }
    }

    pub open spec fn album_text(&self) -> Seq<char> {
        match self {
            Playable::Track(t) => match t.album {
                Some(a) => a@,
                None => Seq::empty(),
            },
            Playable::Episode(_) => Seq::empty(),
        }
    }

    pub open spec fn artists_text(&self) -> Seq<char> {
        match self {
            Playable::Track(t) => join_seq(artist_names_paired(*t), ", "@),
            Playable::Episode(_) => Seq::empty(),
        }
    }

    /// The id of the item, if it has one.
    pub fn id(&self) -> (r: Option<String>)
        ensures
            opt_view(r) == match self {
                Playable::Track(t) => opt_view(t.id),
                Playable::Episode(e) => Some(e.id@),
            },
    {
        match self {
            Playable::Track(track) => clone_opt(&track.id),
            Playable::Episode(episode) => Some(episode.id.clone()),
        }
    }

    pub fn uri(&self) -> (r: String)
        ensures
            r@ == match self {
                Playable::Track(t) => t.uri@,
                Playable::Episode(e) => e.uri@,
            },
    {
        match self {
            Playable::Track(track) => track.uri.clone(),
            Playable::Episode(episode) => episode.uri.clone(),
        }
    }

    pub fn cover_url(&self) -> (r: Option<String>)
        ensures
            opt_view(r) == match self {
                Playable::Track(t) => opt_view(t.cover_url),
                Playable::Episode(e) => opt_view(e.cover_url),
            },
    {
        match self {
            Playable::Track(track) => clone_opt(&track.cover_url),
            Playable::Episode(episode) => clone_opt(&episode.cover_url),
        }
    }

    /// The duration in milliseconds.
    pub fn duration(&self) -> (r: u32)
        ensures
            r == match self {
                Playable::Track(t) => t.duration,
                Playable::Episode(e) => e.duration,
            },
    {
        match self {
            Playable::Track(track) => track.duration,
            Playable::Episode(episode) => episode.duration,
        }
    }

    pub fn list_index(&self) -> (r: usize)
        ensures
            r == match self {
                Playable::Track(t) => t.list_index,
                Playable::Episode(e) => e.list_index,
            },
    {
        match self {
            Playable::Track(track) => track.list_index,
            Playable::Episode(episode) => episode.list_index,
        }
    }

    pub fn set_list_index(&mut self, index: usize)
        ensures
            match (*old(self), *final(self)) {
                (Playable::Track(a), Playable::Track(b)) => b == (Track { list_index: index, ..a }),
                (Playable::Episode(a), Playable::Episode(b)) => b == (Episode {
                    list_index: index,
                    ..a
                }),
                _ => false,
            },
    {
        match self {
            Playable::Track(track) => track.list_index = index,
            Playable::Episode(episode) => episode.list_index = index,
        }
    }

    pub fn set_added_at(&mut self, added_at: Option<i64>)
        ensures
            match (*old(self), *final(self)) {
                (Playable::Track(a), Playable::Track(b)) => b == (Track { added_at, ..a }),
                (Playable::Episode(a), Playable::Episode(b)) => b == (Episode { added_at, ..a }),
                _ => false,
            },
    {
        match self {
            Playable::Track(track) => track.added_at = added_at,
            Playable::Episode(episode) => episode.added_at = added_at,
        }
    }

    /// The text `formatting` with its placeholders filled in, in this order:
    /// `%artists`, `%title`, `%album`, `%saved` (the saved mark when `saved`)
    /// and `%duration` (`duration_text`).
    pub fn format(&self, formatting: &str, saved: bool, use_nerdfont: bool, duration_text: &str) -> (r:
        String)
        ensures
            r@ == replace_all(
                replace_all(
                    replace_all(
                        replace_all(
                            replace_all(formatting@, "%artists"@, self.artists_text()),
                            "%title"@,
                            self.title_text(),
                        ),
                        "%album"@,
                        self.album_text(),
                    ),
                    "%saved"@,
                    saved_mark(saved, use_nerdfont),
                ),
                "%duration"@,
                duration_text@,
            ),
    {
        proof {
            reveal_strlit("%artists");
            reveal_strlit("%title");
            reveal_strlit("%album");
            reveal_strlit("%saved");
            reveal_strlit("%duration");
        }
        let artists: Vec<char> = match self {
            Playable::Track(t) => {
                let names = t.artist_names();
                let joined = join(&names, ", ");
                chars_of(joined.as_str())
            },
            Playable::Episode(_) => Vec::new(),
        };
        let title = match self {
            Playable::Track(t) => chars_of(t.title.as_str()),
            Playable::Episode(e) => chars_of(e.name.as_str()),
        };
        let album: Vec<char> = match self {
            Playable::Track(t) => match &t.album {
                Some(a) => chars_of(a.as_str()),
                None => Vec::new(),
            },
            Playable::Episode(_) => Vec::new(),
        };
        let mark = saved_mark_exec(saved, use_nerdfont);
        let f = chars_of(formatting);
        let s1 = replace(&f, "%artists", &artists);
        let s2 = replace(&s1, "%title", &title);
        let s3 = replace(&s2, "%album", &album);
        let s4 = replace(&s3, "%saved", &chars_of(mark.as_str()));
        let s5 = replace(&s4, "%duration", &chars_of(duration_text));
        string_from_chars(&s5)
    }
}

impl Track {
    /// The names of the artists that have ids (names and ids paired in order).
    pub fn artist_names(&self) -> (r: Vec<String>)
        ensures
            views_of(r@) == artist_names_paired(*self),
    {
        let n = if self.artist_ids.len() < self.artists.len() {
            self.artist_ids.len()
        } else {
            self.artists.len()
        };
        let mut r: Vec<String> = Vec::new();
        let mut i: usize = 0;
        while i < n
            invariant
                n <= self.artists@.len(),
                i <= n,
                r@.len() == i,
                views_of(r@) == views_of(self.artists@).take(i as int),
            decreases n - i,
        {
            let ghost before = r@;
            r.push(self.artists[i].clone());
            assert(r@ == before.push(self.artists@[i as int]));
            assert(views_of(r@) =~= views_of(self.artists@).take(i + 1)) by {
                assert(views_of(before) =~= views_of(self.artists@).take(i as int));
                assert forall|k: int| 0 <= k < i + 1 implies views_of(r@)[k] == views_of(
                    self.artists@,
                )[k] by {
                    if k < i {
                        assert(views_of(before)[k] == before[k]@);
                    }
                }
            }
            i = i + 1;
        }
        r
    }

    /// The artists, each with its id, paired up in order.
    pub fn artists(&self) -> (r: Vec<Artist>)
        ensures
            r@.len() == artist_names_paired(*self).len(),
            forall|i: int|
                #![trigger r@[i]]
                0 <= i < r@.len() ==> r@[i].name@ == self.artists@[i]@ && opt_view(r@[i].id)
                    == Some(self.artist_ids@[i]@) && r@[i].url is None && r@[i].tracks is None
                    && !r@[i].is_followed,
    {
        let n = if self.artist_ids.len() < self.artists.len() {
            self.artist_ids.len()
        } else {
            self.artists.len()
        };
        let mut r: Vec<Artist> = Vec::new();
        let mut i: usize = 0;
        while i < n
            invariant
                n <= self.artists@.len(),
                n <= self.artist_ids@.len(),
                i <= n,
                r@.len() == i,
                forall|k: int|
                    #![trigger r@[k]]
                    0 <= k < i ==> r@[k].name@ == self.artists@[k]@ && opt_view(r@[k].id) == Some(
                        self.artist_ids@[k]@,
                    ) && r@[k].url is None && r@[k].tracks is None && !r@[k].is_followed,
            decreases n - i,
        {
            let a = Artist::new(self.artist_ids[i].clone(), self.artists[i].clone());
            let ghost before = r@;
            r.push(a);
            assert(r@[i as int] == a);
            assert(forall|k: int| 0 <= k < i ==> r@[k] == before[k]);
            i = i + 1;
        }
        r
    }

    /// `<artists> - <title>`.
    pub fn to_string(&self) -> (r: String)
        ensures
            r@ == join_seq(views_of(self.artists@), ", "@) + " - "@ + self.title@,
    {
        let mut s = join(&self.artists, ", ");
        s.append(" - ");
        s.append(self.title.as_str());
        s
    }

    /// The link to the track, when it has an id.
    pub fn share_url(&self) -> (r: Option<String>)
        ensures
            match self.id {
                Some(id) => r matches Some(u) && u@ == "https://open.spotify.com/track/"@ + id@,
                None => r is None,
            },
    {
        match &self.id {
            Some(id) => {
                let mut s = string_of("https://open.spotify.com/track/");
                s.append(id.as_str());
                Some(s)
            },
            None => None,
        }
    }
}

/// `n` written with at least two digits, zero-padded.
pub open spec fn two_digits(n: nat) -> Seq<char> {
    if n < 10 {
        seq!['0'] + nat_digits(n)
    } else {
        nat_digits(n)
    }
}

fn two_digits_exec(n: u32) -> (r: String)
    ensures
        r@ == two_digits(n as nat),
{
    let d = int_to_string(n as i64);
    if n < 10 {
        let mut s = string_of("0");
        s.append(d.as_str());
        proof {
            reveal_strlit("0");
        }
        s
    } else {
        d
    }
}

impl Episode {
    /// `mm:ss`, minutes and seconds each with at least two digits.
    pub fn duration_str(&self) -> (r: String)
        ensures
            r@ == two_digits((self.duration / 60_000) as nat) + ":"@ + two_digits(
                ((self.duration / 1000) % 60) as nat,
            ),
    {
        let minutes = self.duration / 60_000;
        let seconds = (self.duration / 1000) % 60;
        let mut s = two_digits_exec(minutes);
        s.append(":");
        let t = two_digits_exec(seconds);
        s.append(t.as_str());
        s
    }

    /// `<duration> [<release date>]`.
    pub fn display_right(&self) -> (r: String)
        ensures
            r@ == two_digits((self.duration / 60_000) as nat) + ":"@ + two_digits(
                ((self.duration / 1000) % 60) as nat,
            ) + " ["@ + self.release_date@ + "]"@,
    {
        let mut s = self.duration_str();
        s.append(" [");
        s.append(self.release_date.as_str());
        s.append("]");
        s
    }

    pub fn share_url(&self) -> (r: String)
        ensures
            r@ == "https://open.spotify.com/episode/"@ + self.id@,
    {
        let mut s = string_of("https://open.spotify.com/episode/");
        s.append(self.id.as_str());
        s
    }
}

impl Artist {
    pub fn new(id: String, name: String) -> (r: Artist)
        ensures
            opt_view(r.id) == Some(id@),
            r.name@ == name@,
            r.url is None,
            r.tracks is None,
            !r.is_followed,
    {
        Artist { id: Some(id), name, url: None, tracks: None, is_followed: false }
    }

    /// The link to the artist, when it has an id.
    pub fn share_url(&self) -> (r: Option<String>)
        ensures
            match self.id {
                Some(id) => r matches Some(u) && u@ == "https://open.spotify.com/artist/"@ + id@,
                None => r is None,
            },
    {
        match &self.id {
            Some(id) => {
                let mut s = string_of("https://open.spotify.com/artist/");
                s.append(id.as_str());
                Some(s)
            },
            None => None,
        }
    }
}

/// The ids of the items in a list, skipping those without one.
pub open spec fn known_ids(items: Seq<Playable>) -> Seq<Seq<char>>
    decreases items.len(),
{
    if items.len() == 0 {
        Seq::empty()
    } else {
        let before = known_ids(items.drop_last());
        match items.last() {
            Playable::Track(t) => match t.id {
                Some(id) => before.push(id@),
                None => before,
            },
            Playable::Episode(e) => before.push(e.id@),
        }
    }
}

/// The ids of `items`, skipping those without one.
pub fn ids_of(items: &Vec<Playable>) -> (r: Vec<String>)
    ensures
        views_of(r@) == known_ids(items@),
{
    let mut r: Vec<String> = Vec::new();
    let mut i: usize = 0;
    while i < items.len()
        invariant
            i <= items@.len(),
            views_of(r@) == known_ids(items@.take(i as int)),
        decreases items@.len() - i,
    {
        assert(items@.take(i + 1).drop_last() =~= items@.take(i as int));
        let ghost before = views_of(r@);
        match items[i].id() {
            Some(id) => {
                r.push(id);
                assert(views_of(r@) =~= before.push(id@));
            },
            None => {},
        }
        i = i + 1;
    }
    assert(items@.take(items@.len() as int) =~= items@);
    r
}

/// Whether two lists of texts are equal.
pub fn strings_eq(a: &Vec<String>, b: &Vec<String>) -> (r: bool)
    ensures
        r == (views_of(a@) == views_of(b@)),
{
    if a.len() != b.len() {
        assert(views_of(a@).len() != views_of(b@).len());
        return false;
    }
    let mut i: usize = 0;
    while i < a.len()
        invariant
            a@.len() == b@.len(),
            i <= a@.len(),
            forall|k: int| 0 <= k < i ==> a@[k]@ == b@[k]@,
        decreases a@.len() - i,
    {
        let x = chars_of(a[i].as_str());
        let y = chars_of(b[i].as_str());
        if !crate::text::chars_eq(&x, &y) {
            assert(views_of(a@)[i as int] != views_of(b@)[i as int]);
            return false;
        }
        i = i + 1;
    }
    assert(views_of(a@) =~= views_of(b@));
    true
}

/// Whether a collection is what the queue plays: the ids of its items are
/// exactly the ids of the queue's items, in order, and there is at least one.
pub fn ids_playing(queue: &Vec<Playable>, items: &Vec<Playable>) -> (r: bool)
    ensures
        r == (known_ids(items@).len() > 0 && known_ids(queue@) == known_ids(items@)),
{
    let playing = ids_of(queue);
    let ids = ids_of(items);
    ids.len() > 0 && strings_eq(&playing, &ids)
}

/// A playlist and, once loaded, its items.
#[derive(Clone, Debug)]
pub struct Playlist {
    pub id: String,
    pub name: String,
    pub owner_id: String,
    pub owner_name: Option<String>,
    pub snapshot_id: String,
    pub num_tracks: usize,
    pub tracks: Option<Vec<Playable>>,
    pub collaborative: bool,
}

/// `n` right-aligned in a field of `width` characters.
pub open spec fn right_aligned(n: nat, width: nat) -> Seq<char> {
    let d = nat_digits(n);
    if d.len() < width {
        Seq::new((width - d.len()) as nat, |i: int| ' ') + d
    } else {
        d
    }
}

fn right_aligned_exec(n: usize, width: usize) -> (r: String)
    ensures
        r@ == right_aligned(n as nat, width as nat),
{
    let d = nat_to_string(n as u64);
    let dc = chars_of(d.as_str());
    if dc.len() < width {
        let mut v: Vec<char> = Vec::new();
        let pad = width - dc.len();
        let mut i: usize = 0;
        while i < pad
            invariant
                i <= pad,
                v@ == Seq::new(i as nat, |k: int| ' '),
            decreases pad - i,
        {
            v.push(' ');
            assert(v@ =~= Seq::new((i + 1) as nat, |k: int| ' '));
            i = i + 1;
        }
        v.extend_from_slice(&dc);
        string_from_chars(&v)
    } else {
        d
    }
}

impl Playlist {
    /// Whether one of the loaded items has the id `track_id`.
    pub fn has_track(&self, track_id: &str) -> (r: bool)
        ensures
            r == match self.tracks {
                Some(ts) => known_ids(ts@).contains(track_id@),
                None => false,
            },
    {
        match &self.tracks {
            None => false,
            Some(ts) => {
                let ids = ids_of(ts);
                let want = chars_of(track_id);
                let mut i: usize = 0;
                while i < ids.len()
                    invariant
                        want@ == track_id@,
                        views_of(ids@) == known_ids(ts@),
                        self.tracks == Some(*ts),
                        i <= ids@.len(),
                        forall|k: int| 0 <= k < i ==> ids@[k]@ != track_id@,
                    decreases ids@.len() - i,
                {
                    let x = chars_of(ids[i].as_str());
                    if crate::text::chars_eq(&x, &want) {
                        assert(views_of(ids@)[i as int] == track_id@);
                        assert(views_of(ids@).contains(track_id@));
                        return true;
                    }
                    i = i + 1;
                }
                assert(!views_of(ids@).contains(track_id@)) by {
                    if views_of(ids@).contains(track_id@) {
                        let k = choose|k: int| 0 <= k < views_of(ids@).len() && views_of(ids@)[k]
                            == track_id@;
                        assert(ids@[k]@ == track_id@);
                    }
                }
                false
            },
        }
    }

    /// `<name> • <owner>`, or the name alone when the owner is unknown or
    /// owners are hidden.
    pub fn display_left(&self, hide_owners: bool) -> (r: String)
        ensures
            r@ == match (self.owner_name, hide_owners) {
                (Some(owner), false) => self.name@ + " • "@ + owner@,
                _ => self.name@,
            },
    {
        match (&self.owner_name, hide_owners) {
            (Some(owner), false) => {
                let mut s = self.name.clone();
                s.append(" • ");
                s.append(owner.as_str());
                s
            },
            _ => self.name.clone(),
        }
    }

    /// The saved mark (with a space), then the number of items (the loaded
    /// ones, else the announced count) right-aligned in four places, then ` tracks`.
    pub fn display_right(&self, saved: bool, use_nerdfont: bool) -> (r: String)
        ensures
            r@ == (if saved {
                saved_mark(saved, use_nerdfont) + " "@
            } else {
                Seq::empty()
            }) + right_aligned(
                match self.tracks {
                    Some(t) => t@.len(),
                    None => self.num_tracks as nat,
                },
                4,
            ) + " tracks"@,
    {
        let mut s = if saved {
            let mut m = saved_mark_exec(saved, use_nerdfont);
            m.append(" ");
            m
        } else {
            String::new()
        };
        let n = match &self.tracks {
            Some(t) => t.len(),
            None => self.num_tracks,
        };
        let count = right_aligned_exec(n, 4);
        s.append(count.as_str());
        s.append(" tracks");
        s
    }

    /// `https://open.spotify.com/user/<owner>/playlist/<id>`.
    pub fn share_url(&self) -> (r: String)
        ensures
            r@ == "https://open.spotify.com/user/"@ + self.owner_id@ + "/playlist/"@ + self.id@,
    {
        let mut s = string_of("https://open.spotify.com/user/");
        s.append(self.owner_id.as_str());
        s.append("/playlist/");
        s.append(self.id.as_str());
        s
    }
}

impl Track {
    /// Whether `current`, the item now playing, is this track (by id).
    pub fn is_playing(&self, current: Option<&Playable>) -> (r: bool)
        ensures
            r == match current {
                Some(p) => opt_view(playable_id(*p)) == opt_view(self.id),
                None => false,
            },
    {
        match current {
            Some(p) => {
                let id = p.id();
                same_opt_text(&id, &self.id)
            },
            None => false,
        }
    }

    /// The album, or nothing.
    pub fn display_center(&self) -> (r: String)
        ensures
            r@ == match self.album {
                Some(a) => a@,
                None => Seq::empty(),
            },
    {
        match &self.album {
            Some(a) => a.clone(),
            None => String::new(),
        }
    }

    /// The saved mark (empty when not saved), a space, then the duration text.
    pub fn display_right(&self, saved: bool, use_nerdfont: bool, duration_text: &str) -> (r: String)
        ensures
            r@ == saved_mark(saved, use_nerdfont) + " "@ + duration_text@,
    {
        let mut s = saved_mark_exec(saved, use_nerdfont);
        s.append(" ");
        s.append(duration_text);
        s
    }
}

/// The id of an item: an episode always has one.
pub open spec fn playable_id(p: Playable) -> Option<String> {
    match p {
        Playable::Track(t) => t.id,
        Playable::Episode(e) => Some(e.id),
    }
}

/// Whether two optional texts are equal.
pub fn same_opt_text(a: &Option<String>, b: &Option<String>) -> (r: bool)
    ensures
        r == (opt_view(*a) == opt_view(*b)),
{
    match (a, b) {
        (Some(x), Some(y)) => {
            let cx = chars_of(x.as_str());
            let cy = chars_of(y.as_str());
            crate::text::chars_eq(&cx, &cy)
        },
        (None, None) => true,
        _ => false,
    }
}

impl Episode {
    /// Whether `current`, the item now playing, is this episode (by id).
    pub fn is_playing(&self, current: Option<&Playable>) -> (r: bool)
        ensures
            r == match current {
                Some(p) => opt_view(playable_id(*p)) == Some(self.id@),
                None => false,
            },
    {
        match current {
            Some(p) => {
                let id = p.id();
                let mine = Some(self.id.clone());
                same_opt_text(&id, &mine)
            },
            None => false,
        }
    }

    /// The name.
    pub fn display_left(&self) -> (r: String)
        ensures
            r@ == self.name@,
    {
        self.name.clone()
    }
}

/// The ids of the tracks that have one, in order.
pub open spec fn track_ids(tracks: Seq<Track>) -> Seq<Seq<char>>
    decreases tracks.len(),
{
    if tracks.len() == 0 {
        Seq::empty()
    } else {
        let before = track_ids(tracks.drop_last());
        match tracks.last().id {
            Some(id) => before.push(id@),
            None => before,
        }
    }
}

fn track_ids_of(tracks: &Vec<Track>) -> (r: Vec<String>)
    ensures
        views_of(r@) == track_ids(tracks@),
{
    let mut r: Vec<String> = Vec::new();
    let mut i: usize = 0;
    while i < tracks.len()
        invariant
            i <= tracks@.len(),
            views_of(r@) == track_ids(tracks@.take(i as int)),
        decreases tracks@.len() - i,
    {
        assert(tracks@.take(i + 1).drop_last() =~= tracks@.take(i as int));
        let ghost before = views_of(r@);
        match &tracks[i].id {
            Some(id) => {
                r.push(id.clone());
                assert(views_of(r@) =~= before.push(id@));
            },
            None => {},
        }
        i = i + 1;
    }
    assert(tracks@.take(tracks@.len() as int) =~= tracks@);
    r
}

/// Whether a collection of tracks is what the queue plays: the ids of its
/// tracks are exactly the ids of the queue's items, in order, and there is at
/// least one.
pub fn tracks_playing(queue: &Vec<Playable>, tracks: &Option<Vec<Track>>) -> (r: bool)
    ensures
        r == match tracks {
            Some(ts) => track_ids(ts@).len() > 0 && known_ids(queue@) == track_ids(ts@),
            None => false,
        },
{
    match tracks {
        Some(ts) => {
            let playing = ids_of(queue);
            let ids = track_ids_of(ts);
            ids.len() > 0 && strings_eq(&playing, &ids)
        },
        None => false,
    }
}

/// The text before the first `-` of a release date: its year.
pub open spec fn year_of(release_date: Seq<char>) -> Seq<char>
    decreases release_date.len(),
{
    if release_date.len() == 0 || release_date[0] == '-' {
        Seq::empty()
    } else {
        seq![release_date[0]] + year_of(release_date.drop_first())
    }
}

/// The year of a release date (`2021` for `2021-02-03`).
pub fn release_year(release_date: &str) -> (r: String)
    ensures
        r@ == year_of(release_date@),
{
    let c = chars_of(release_date);
    let mut n: usize = 0;
    assert(c@.skip(0) =~= c@);
    assert(c@.take(0) =~= Seq::<char>::empty());
    while n < c.len() && c[n] != '-'
        invariant
            n <= c@.len(),
            c@ == release_date@,
            year_of(c@) == c@.take(n as int) + year_of(c@.skip(n as int)),
        decreases c@.len() - n,
    {
        assert(c@.skip(n as int).drop_first() =~= c@.skip(n + 1));
        assert(c@.take(n + 1) =~= c@.take(n as int) + seq![c@[n as int]]);
        n = n + 1;
    }
    let mut out: Vec<char> = Vec::new();
    let mut i: usize = 0;
    while i < n
        invariant
            i <= n <= c@.len(),
            out@ == c@.take(i as int),
        decreases n - i,
    {
        out.push(c[i]);
        assert(out@ =~= c@.take(i + 1));
        i = i + 1;
    }
    assert(year_of(c@.skip(n as int)) =~= Seq::<char>::empty());
    assert(c@.take(n as int) + Seq::<char>::empty() =~= c@.take(n as int));
    string_from_chars(&out)
}

/// An album, and once loaded, its tracks.
#[derive(Clone, Debug)]
pub struct Album {
    pub id: Option<String>,
    pub title: String,
    pub artists: Vec<String>,
    pub artist_ids: Vec<String>,
    pub year: String,
    pub cover_url: Option<String>,
    pub url: Option<String>,
    pub tracks: Option<Vec<Track>>,
    pub added_at: Option<i64>,
    pub total_tracks: Option<usize>,
}

impl Album {
    /// `<artists> - <title>`.
    pub fn to_string(&self) -> (r: String)
        ensures
            r@ == join_seq(views_of(self.artists@), ", "@) + " - "@ + self.title@,
    {
        let mut s = join(&self.artists, ", ");
        s.append(" - ");
        s.append(self.title.as_str());
        s
    }

    /// The saved mark and a space when saved, then the year.
    pub fn display_right(&self, saved: bool, use_nerdfont: bool) -> (r: String)
        ensures
            r@ == (if saved {
                saved_mark(saved, use_nerdfont) + " "@
            } else {
                Seq::empty()
            }) + self.year@,
    {
        let mut s = if saved {
            let mut m = saved_mark_exec(saved, use_nerdfont);
            m.append(" ");
            m
        } else {
            String::new()
        };
        s.append(self.year.as_str());
        s
    }

    /// The link to the album, when it has an id.
    pub fn share_url(&self) -> (r: Option<String>)
        ensures
            match self.id {
                Some(id) => r matches Some(u) && u@ == "https://open.spotify.com/album/"@ + id@,
                None => r is None,
            },
    {
        match &self.id {
            Some(id) => {
                let mut s = string_of("https://open.spotify.com/album/");
                s.append(id.as_str());
                Some(s)
            },
            None => None,
        }
    }

    /// The artists, each with its id, paired up in order.
    pub fn artists(&self) -> (r: Vec<Artist>)
        ensures
            r@.len() == if self.artist_ids@.len() < self.artists@.len() {
                self.artist_ids@.len()
            } else {
                self.artists@.len()
            },
            forall|i: int|
                #![trigger r@[i]]
                0 <= i < r@.len() ==> r@[i].name@ == self.artists@[i]@ && opt_view(r@[i].id)
                    == Some(self.artist_ids@[i]@) && r@[i].url is None && r@[i].tracks is None
                    && !r@[i].is_followed,
    {
        let n = if self.artist_ids.len() < self.artists.len() {
            self.artist_ids.len()
        } else {
            self.artists.len()
        };
        let mut r: Vec<Artist> = Vec::new();
        let mut i: usize = 0;
        while i < n
            invariant
                n <= self.artists@.len(),
                n <= self.artist_ids@.len(),
                i <= n,
                r@.len() == i,
                forall|k: int|
                    #![trigger r@[k]]
                    0 <= k < i ==> r@[k].name@ == self.artists@[k]@ && opt_view(r@[k].id) == Some(
                        self.artist_ids@[k]@,
                    ) && r@[k].url is None && r@[k].tracks is None && !r@[k].is_followed,
            decreases n - i,
        {
            let a = Artist::new(self.artist_ids[i].clone(), self.artists[i].clone());
            let ghost before = r@;
            r.push(a);
            assert(r@[i as int] == a);
            assert(forall|k: int| 0 <= k < i ==> r@[k] == before[k]);
            i = i + 1;
        }
        r
    }

    /// Whether the tracks are loaded in full: as many as the album has.
    pub fn tracks_complete(&self) -> (r: bool)
        ensures
            r == match (self.tracks, self.total_tracks) {
                (Some(t), Some(n)) => t@.len() == n,
                _ => false,
            },
    {
        match (&self.tracks, self.total_tracks) {
            (Some(t), Some(n)) => t.len() == n,
            _ => false,
        }
    }

    /// Records the tracks of the album once they are loaded in full.
    pub fn set_loaded_tracks(&mut self, tracks: Vec<Track>)
        ensures
            final(self).tracks matches Some(t) && t@ == tracks@,
            final(self).total_tracks == Some(tracks@.len() as usize),
            final(self).id == old(self).id,
            final(self).title == old(self).title,
            final(self).year == old(self).year,
    {
        self.total_tracks = Some(tracks.len());
        self.tracks = Some(tracks);
    }
}

impl Artist {
    /// The name.
    pub fn to_string(&self) -> (r: String)
        ensures
            r@ == self.name@,
    {
        self.name.clone()
    }

    /// The followed mark and a space when followed, then the number of saved
    /// tracks right-aligned in three places and ` saved tracks`, when the
    /// tracks are known.
    pub fn display_right(&self, followed: bool, use_nerdfont: bool) -> (r: String)
        ensures
            r@ == (if followed {
                saved_mark(followed, use_nerdfont) + " "@
            } else {
                Seq::empty()
            }) + match self.tracks {
                Some(t) => right_aligned(t@.len(), 3) + " saved tracks"@,
                None => Seq::empty(),
            },
    {
        let mut s = if followed {
            let mut m = saved_mark_exec(followed, use_nerdfont);
            m.append(" ");
            m
        } else {
            String::new()
        };
        match &self.tracks {
            Some(t) => {
                let count = right_aligned_exec(t.len(), 3);
                s.append(count.as_str());
                s.append(" saved tracks");
            },
            None => {},
        }
        s
    }
}

/// A category of playlists.
#[derive(Clone, Debug)]
pub struct Category {
    pub id: String,
    pub name: String,
}

impl Category {
    /// The name.
    pub fn display_left(&self) -> (r: String)
        ensures
            r@ == self.name@,
    {
        self.name.clone()
    }

    /// `https://open.spotify.com/genre/<id>`.
    pub fn share_url(&self) -> (r: String)
        ensures
            r@ == "https://open.spotify.com/genre/"@ + self.id@,
    {
        let mut s = string_of("https://open.spotify.com/genre/");
        s.append(self.id.as_str());
        s
    }
}

impl Playlist {
    /// Adds `new_tracks` after the loaded items, once the service added them;
    /// returns whether the items were loaded (and so changed).
    pub fn append_loaded(&mut self, new_tracks: Vec<Playable>) -> (r: bool)
        ensures
            r == old(self).tracks is Some,
            match old(self).tracks {
                Some(t) => final(self).tracks matches Some(u) && u@ == t@ + new_tracks@,
                None => final(self).tracks is None,
            },
            final(self).id == old(self).id,
            final(self).snapshot_id == old(self).snapshot_id,
            final(self).num_tracks == old(self).num_tracks,
    {
        match &mut self.tracks {
            Some(t) => {
                let mut more = new_tracks;
                t.append(&mut more);
                true
            },
            None => false,
        }
    }

    /// Removes the loaded item at `index`, once the service deleted it.
    pub fn remove_loaded(&mut self, index: usize)
        requires
            old(self).tracks matches Some(t) && index < t@.len(),
        ensures
            old(self).tracks matches Some(t) && final(self).tracks matches Some(u) && u@ == t@.remove(
                index as int,
            ),
            final(self).id == old(self).id,
            final(self).snapshot_id == old(self).snapshot_id,
            final(self).num_tracks == old(self).num_tracks,
    {
        match &mut self.tracks {
            Some(t) => {
                t.remove(index);
            },
            None => {},
        }
    }
}

} // verus!
