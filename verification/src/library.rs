//! The user's library as it is kept in memory: saved tracks and albums,
//! followed artists (and the artists of saved tracks) and playlists.
//!
//! Calls to the Web API are the caller's: a method here records what the
//! service accepted. Until the library is loaded (`is_done`), nothing counts
//! as saved and nothing is changed.
use vstd::prelude::*;

use crate::model::{
    opt_view, playable_id, same_opt_text, Album, Artist, Playable, Playlist, Track,
};
use crate::sort::{compare_text, text_order};
use crate::spotify_url::{lowercase, to_lowercase};
use crate::text::{chars_eq, chars_of, views_of};

verus! {

/// The first index of `s` whose item satisfies `pred`.
pub open spec fn first_index<T>(s: Seq<T>, pred: spec_fn(T) -> bool) -> Option<int>
    decreases s.len(),
{
    if s.len() == 0 {
        None
    } else if pred(s[0]) {
        Some(0)
    } else {
        match first_index(s.drop_first(), pred) {
            Some(i) => Some(i + 1),
            None => None,
        }
    }
}

proof fn lemma_first_index<T>(s: Seq<T>, pred: spec_fn(T) -> bool, i: int)
    requires
        0 <= i <= s.len(),
        forall|j: int| 0 <= j < i ==> !pred(#[trigger] s[j]),
        i < s.len() ==> pred(s[i]),
    ensures
        first_index(s, pred) == (if i < s.len() {
            Some(i)
        } else {
            None::<int>
        }),
    decreases s.len(),
{
    if s.len() > 0 && i > 0 {
        assert forall|j: int| 0 <= j < i - 1 implies !pred(#[trigger] s.drop_first()[j]) by {
            assert(s.drop_first()[j] == s[j + 1]);
        }
        if i < s.len() {
            assert(s.drop_first()[i - 1] == s[i]);
        }
        lemma_first_index(s.drop_first(), pred, i - 1);
        assert(!pred(s[0]));
    }
}

/// The key an artist is looked up by: its id, or the empty text.
pub open spec fn artist_key(a: Artist) -> Seq<char> {
    match a.id {
        Some(id) => id@,
        None => Seq::empty(),
    }
}

pub open spec fn has_playlist_id(id: Seq<char>) -> spec_fn(Playlist) -> bool {
    |p: Playlist| p.id@ == id
}

pub open spec fn has_album_id(id: Option<Seq<char>>) -> spec_fn(Album) -> bool {
    |a: Album| opt_view(a.id) == id
}

pub open spec fn has_artist_key(key: Seq<char>) -> spec_fn(Artist) -> bool {
    |a: Artist| artist_key(a) == key
}

pub open spec fn followed_with_id(id: Option<Seq<char>>) -> spec_fn(Artist) -> bool {
    |a: Artist| opt_view(a.id) == id && a.is_followed
}

pub open spec fn has_track_id(id: Option<Seq<char>>) -> spec_fn(Track) -> bool {
    |t: Track| opt_view(t.id) == id
}

/// Whether some item of `s` satisfies `pred`.
pub open spec fn any<T>(s: Seq<T>, pred: spec_fn(T) -> bool) -> bool {
    exists|i: int| 0 <= i < s.len() && pred(#[trigger] s[i])
}

/// The user's library.
pub struct Library {
    pub tracks: Vec<Track>,
    pub albums: Vec<Album>,
    pub artists: Vec<Artist>,
    pub playlists: Vec<Playlist>,
    /// Whether the library has been loaded.
    pub is_done: bool,
    pub user_id: Option<String>,
    pub display_name: Option<String>,
}

fn playlist_position(ps: &Vec<Playlist>, id: &str) -> (r: Option<usize>)
    ensures
        r matches Some(i) ==> i < ps@.len() && first_index(ps@, has_playlist_id(id@)) == Some(i as int),
        r is None ==> first_index(ps@, has_playlist_id(id@)) is None,
{
    let want = chars_of(id);
    let mut i: usize = 0;
    while i < ps.len()
        invariant
            want@ == id@,
            i <= ps@.len(),
            forall|j: int| 0 <= j < i ==> !has_playlist_id(id@)(#[trigger] ps@[j]),
        decreases ps@.len() - i,
    {
        let c = chars_of(ps[i].id.as_str());
        if chars_eq(&c, &want) {
            proof {
                lemma_first_index(ps@, has_playlist_id(id@), i as int);
            }
            return Some(i);
        }
        i = i + 1;
    }
    proof {
        lemma_first_index(ps@, has_playlist_id(id@), i as int);
    }
    None
}

fn album_position(albums: &Vec<Album>, id: &Option<String>) -> (r: Option<usize>)
    ensures
        r matches Some(i) ==> i < albums@.len() && first_index(albums@, has_album_id(opt_view(*id))) == Some(i as int),
        r is None ==> first_index(albums@, has_album_id(opt_view(*id))) is None,
{
    let mut i: usize = 0;
    while i < albums.len()
        invariant
            i <= albums@.len(),
            forall|j: int| 0 <= j < i ==> !has_album_id(opt_view(*id))(#[trigger] albums@[j]),
        decreases albums@.len() - i,
    {
        if same_opt_text(&albums[i].id, id) {
            proof {
                lemma_first_index(albums@, has_album_id(opt_view(*id)), i as int);
            }
            return Some(i);
        }
        i = i + 1;
    }
    proof {
        lemma_first_index(albums@, has_album_id(opt_view(*id)), i as int);
    }
    None
}

fn artist_key_position(artists: &Vec<Artist>, key: &str) -> (r: Option<usize>)
    ensures
        r matches Some(i) ==> i < artists@.len() && first_index(artists@, has_artist_key(key@)) == Some(i as int),
        r is None ==> first_index(artists@, has_artist_key(key@)) is None,
{
    let want = chars_of(key);
    let mut i: usize = 0;
    while i < artists.len()
        invariant
            want@ == key@,
            i <= artists@.len(),
            forall|j: int| 0 <= j < i ==> !has_artist_key(key@)(#[trigger] artists@[j]),
        decreases artists@.len() - i,
    {
        let k = match &artists[i].id {
            Some(s) => chars_of(s.as_str()),
            None => Vec::new(),
        };
        assert(k@ == artist_key(artists@[i as int]));
        if chars_eq(&k, &want) {
            proof {
                lemma_first_index(artists@, has_artist_key(key@), i as int);
            }
            return Some(i);
        }
        i = i + 1;
    }
    proof {
        lemma_first_index(artists@, has_artist_key(key@), i as int);
    }
    None
}

fn track_position(tracks: &Vec<Track>, id: &Option<String>) -> (r: Option<usize>)
    ensures
        r matches Some(i) ==> i < tracks@.len() && first_index(tracks@, has_track_id(opt_view(*id))) == Some(i as int),
        r is None ==> first_index(tracks@, has_track_id(opt_view(*id))) is None,
        r is None <==> !any(tracks@, has_track_id(opt_view(*id))),
{
    let mut i: usize = 0;
    while i < tracks.len()
        invariant
            i <= tracks@.len(),
            forall|j: int| 0 <= j < i ==> !has_track_id(opt_view(*id))(#[trigger] tracks@[j]),
        decreases tracks@.len() - i,
    {
        if same_opt_text(&tracks[i].id, id) {
            proof {
                lemma_first_index(tracks@, has_track_id(opt_view(*id)), i as int);
            }
            return Some(i);
        }
        i = i + 1;
    }
    proof {
        lemma_first_index(tracks@, has_track_id(opt_view(*id)), i as int);
    }
    None
}

impl Library {
    /// An empty library, not loaded yet.
    pub fn new(user_id: Option<String>, display_name: Option<String>) -> (r: Library)
        ensures
            r.tracks@.len() == 0,
            r.albums@.len() == 0,
            r.artists@.len() == 0,
            r.playlists@.len() == 0,
            !r.is_done,
            r.user_id == user_id,
            r.display_name == display_name,
    {
        Library {
            tracks: Vec::new(),
            albums: Vec::new(),
            artists: Vec::new(),
            playlists: Vec::new(),
            is_done: false,
            user_id,
            display_name,
        }
    }

    /// Whether `track` is among the saved tracks (by id), once loaded.
    pub fn is_saved_track(&self, track: &Playable) -> (r: bool)
        ensures
            r == (self.is_done && any(self.tracks@, has_track_id(opt_view(playable_id(*track))))),
    {
        if !self.is_done {
            return false;
        }
        let id = track.id();
        track_position(&self.tracks, &id).is_some()
    }

    /// Whether `album` is among the saved albums (by id), once loaded.
    pub fn is_saved_album(&self, album: &Album) -> (r: bool)
        ensures
            r == (self.is_done && first_index(self.albums@, has_album_id(opt_view(album.id)))
                is Some),
    {
        if !self.is_done {
            return false;
        }
        album_position(&self.albums, &album.id).is_some()
    }

    /// Whether `artist` is followed: some artist with its id is, once loaded.
    pub fn is_followed_artist(&self, artist: &Artist) -> (r: bool)
        ensures
            r == (self.is_done && any(self.artists@, followed_with_id(opt_view(artist.id)))),
    {
        if !self.is_done {
            return false;
        }
        let mut i: usize = 0;
        while i < self.artists.len()
            invariant
                self.is_done,
                i <= self.artists@.len(),
                forall|j: int|
                    0 <= j < i ==> !followed_with_id(opt_view(artist.id))(#[trigger] self.artists@[j]),
            decreases self.artists@.len() - i,
        {
            if same_opt_text(&self.artists[i].id, &artist.id) && self.artists[i].is_followed {
                assert(followed_with_id(opt_view(artist.id))(self.artists@[i as int]));
                return true;
            }
            i = i + 1;
        }
        false
    }

    /// Whether `playlist` is among the saved playlists (by id), once loaded.
    pub fn is_saved_playlist(&self, playlist: &Playlist) -> (r: bool)
        ensures
            r == (self.is_done && first_index(self.playlists@, has_playlist_id(playlist.id@))
                is Some),
    {
        if !self.is_done {
            return false;
        }
        playlist_position(&self.playlists, playlist.id.as_str()).is_some()
    }

    /// Whether `playlist` is one the user follows rather than owns: its owner
    /// is someone else (unknown users follow nothing).
    pub fn is_followed_playlist(&self, playlist: &Playlist) -> (r: bool)
        ensures
            r == match self.user_id {
                Some(id) => id@ != playlist.owner_id@,
                None => false,
            },
    {
        match &self.user_id {
            Some(id) => {
                let a = chars_of(id.as_str());
                let b = chars_of(playlist.owner_id.as_str());
                !chars_eq(&a, &b)
            },
            None => false,
        }
    }

    /// Whether the items of `remote` have to be loaded: there is no saved
    /// playlist with its id, or the first one has another snapshot.
    pub fn needs_download(&self, remote: &Playlist) -> (r: bool)
        ensures
            r == match first_index(self.playlists@, has_playlist_id(remote.id@)) {
                Some(i) => self.playlists@[i].snapshot_id@ != remote.snapshot_id@,
                None => true,
            },
    {
        match playlist_position(&self.playlists, remote.id.as_str()) {
            Some(i) => {
                let a = chars_of(self.playlists[i].snapshot_id.as_str());
                let b = chars_of(remote.snapshot_id.as_str());
                !chars_eq(&a, &b)
            },
            None => true,
        }
    }

    /// Replaces the first saved playlist with the id of `updated`, or adds
    /// `updated` at the end; returns its index.
    pub fn append_or_update(&mut self, updated: Playlist) -> (r: usize)
        requires
            old(self).playlists@.len() < usize::MAX,
        ensures
            match first_index(old(self).playlists@, has_playlist_id(updated.id@)) {
                Some(i) => r == i && final(self).playlists@ == old(self).playlists@.update(
                    i,
                    updated,
                ),
                None => r == old(self).playlists@.len() && final(self).playlists@ == old(
                    self,
                ).playlists@.push(updated),
            },
            final(self).tracks == old(self).tracks,
            final(self).albums == old(self).albums,
            final(self).artists == old(self).artists,
            final(self).is_done == old(self).is_done,
    {
        match playlist_position(&self.playlists, updated.id.as_str()) {
            Some(i) => {
                self.playlists.set(i, updated);
                i
            },
            None => {
                self.playlists.push(updated);
                self.playlists.len() - 1
            },
        }
    }

    /// Replaces the first saved playlist with the id of `updated`, if any.
    pub fn playlist_update(&mut self, updated: Playlist)
        ensures
            match first_index(old(self).playlists@, has_playlist_id(updated.id@)) {
                Some(i) => final(self).playlists@ == old(self).playlists@.update(i, updated),
                None => final(self).playlists@ == old(self).playlists@,
            },
            final(self).tracks == old(self).tracks,
            final(self).albums == old(self).albums,
            final(self).artists == old(self).artists,
            final(self).is_done == old(self).is_done,
    {
        match playlist_position(&self.playlists, updated.id.as_str()) {
            Some(i) => self.playlists.set(i, updated),
            None => {},
        }
    }

    /// The index of the saved playlist with id `id` that deleting it would
    /// remove, once loaded.
    pub fn deletable_playlist(&self, id: &str) -> (r: Option<usize>)
        ensures
            !self.is_done ==> r is None,
            self.is_done && r is None ==> first_index(self.playlists@, has_playlist_id(id@)) is None,
            r matches Some(i) ==> i < self.playlists@.len() && first_index(
                self.playlists@,
                has_playlist_id(id@),
            ) == Some(i as int),
    {
        if !self.is_done {
            return None;
        }
        playlist_position(&self.playlists, id)
    }

    /// Removes the saved playlist at `index` once the service deleted it.
    pub fn remove_playlist(&mut self, index: usize)
        requires
            index < old(self).playlists@.len(),
        ensures
            final(self).playlists@ == old(self).playlists@.remove(index as int),
            final(self).tracks == old(self).tracks,
            final(self).albums == old(self).albums,
            final(self).artists == old(self).artists,
            final(self).is_done == old(self).is_done,
    {
        self.playlists.remove(index);
    }

    /// Records a newly followed playlist first among the saved ones, unless
    /// one with its id is saved already; nothing changes before loading.
    pub fn follow_playlist(&mut self, playlist: Playlist)
        ensures
            (old(self).is_done && first_index(old(self).playlists@, has_playlist_id(playlist.id@))
                is None) ==> final(self).playlists@ == old(self).playlists@.insert(0, playlist),
            !(old(self).is_done && first_index(old(self).playlists@, has_playlist_id(playlist.id@))
                is None) ==> final(self).playlists@ == old(self).playlists@,
            final(self).tracks == old(self).tracks,
            final(self).albums == old(self).albums,
            final(self).artists == old(self).artists,
            final(self).is_done == old(self).is_done,
    {
        if !self.is_done {
            return;
        }
        if playlist_position(&self.playlists, playlist.id.as_str()).is_none() {
            self.playlists.insert(0, playlist);
        }
    }
}

/// What an artist is apart from its tracks: id, name, link, whether followed.
pub open spec fn artist_view(a: Artist) -> (Option<Seq<char>>, Seq<char>, Option<Seq<char>>, bool) {
    (opt_view(a.id), a.name@, opt_view(a.url), a.is_followed)
}

pub open spec fn artist_views(s: Seq<Artist>) -> Seq<(Option<Seq<char>>, Seq<char>, Option<Seq<char>>, bool)> {
    s.map_values(|a: Artist| artist_view(a))
}

/// An artist view with the id `id`.
pub open spec fn view_has_id(id: Option<Seq<char>>) -> spec_fn((Option<Seq<char>>, Seq<char>, Option<Seq<char>>, bool)) -> bool {
    |v: (Option<Seq<char>>, Seq<char>, Option<Seq<char>>, bool)| v.0 == id
}

pub open spec fn view_key(v: (Option<Seq<char>>, Seq<char>, Option<Seq<char>>, bool)) -> Seq<char> {
    match v.0 {
        Some(id) => id,
        None => Seq::empty(),
    }
}

/// The followed artists among `vs`, in order.
pub open spec fn followed_views(vs: Seq<(Option<Seq<char>>, Seq<char>, Option<Seq<char>>, bool)>) -> Seq<
    (Option<Seq<char>>, Seq<char>, Option<Seq<char>>, bool),
>
    decreases vs.len(),
{
    if vs.len() == 0 {
        Seq::empty()
    } else if vs.last().3 {
        followed_views(vs.drop_last()).push(vs.last())
    } else {
        followed_views(vs.drop_last())
    }
}

/// The artist ids of a track paired with the names, in order (as far as both go).
pub open spec fn id_name_pairs(t: Track) -> Seq<(Seq<char>, Seq<char>)> {
    let n = if t.artist_ids@.len() < t.artists@.len() {
        t.artist_ids@.len()
    } else {
        t.artists@.len()
    };
    Seq::new(n, |k: int| (t.artist_ids@[k]@, t.artists@[k]@))
}

/// The id and name pairs of all the tracks, track by track.
pub open spec fn track_artist_pairs(ts: Seq<Track>) -> Seq<(Seq<char>, Seq<char>)>
    decreases ts.len(),
{
    if ts.len() == 0 {
        Seq::empty()
    } else {
        track_artist_pairs(ts.drop_last()) + id_name_pairs(ts.last())
    }
}

/// The artists after adding, for each pair in turn, an unfollowed artist with
/// that id and name unless an artist has that id (the empty id standing for
/// an artist without one).
pub open spec fn add_pair_artists(
    vs: Seq<(Option<Seq<char>>, Seq<char>, Option<Seq<char>>, bool)>,
    pairs: Seq<(Seq<char>, Seq<char>)>,
) -> Seq<(Option<Seq<char>>, Seq<char>, Option<Seq<char>>, bool)>
    decreases pairs.len(),
{
    if pairs.len() == 0 {
        vs
    } else {
        let before = add_pair_artists(vs, pairs.drop_last());
        let (id, name) = pairs.last();
        if exists|k: int| 0 <= k < before.len() && view_key(#[trigger] before[k]) == id {
            before
        } else {
            before.push((Some(id), name, None, false))
        }
    }
}

/// The artists of the library, before they are ordered: the followed ones
/// of `vs`, then those of saved tracks that are not among them.
pub open spec fn library_artists(
    vs: Seq<(Option<Seq<char>>, Seq<char>, Option<Seq<char>>, bool)>,
    tracks: Seq<Track>,
) -> Seq<(Option<Seq<char>>, Seq<char>, Option<Seq<char>>, bool)> {
    add_pair_artists(followed_views(vs), track_artist_pairs(tracks))
}

/// Two tracks alike in every field.
pub open spec fn same_track(a: Track, b: Track) -> bool {
    &&& opt_view(a.id) == opt_view(b.id)
    &&& a.uri@ == b.uri@
    &&& a.title@ == b.title@
    &&& a.track_number == b.track_number
    &&& a.disc_number == b.disc_number
    &&& a.duration == b.duration
    &&& views_of(a.artists@) == views_of(b.artists@)
    &&& views_of(a.artist_ids@) == views_of(b.artist_ids@)
    &&& opt_view(a.album) == opt_view(b.album)
    &&& opt_view(a.album_id) == opt_view(b.album_id)
    &&& views_of(a.album_artists@) == views_of(b.album_artists@)
    &&& opt_view(a.cover_url) == opt_view(b.cover_url)
    &&& a.url@ == b.url@
    &&& a.added_at == b.added_at
    &&& a.list_index == b.list_index
}

pub open spec fn same_tracks(a: Seq<Track>, b: Seq<Track>) -> bool {
    a.len() == b.len() && forall|i: int| 0 <= i < a.len() ==> #[trigger] same_track(a[i], b[i])
}

/// The saved tracks of the artist with key `key`: those that list it among
/// their artist ids, each id once (the first track with an id is kept).
pub open spec fn artist_tracks(ts: Seq<Track>, key: Seq<char>) -> Seq<Track>
    decreases ts.len(),
{
    if ts.len() == 0 {
        Seq::empty()
    } else {
        let before = artist_tracks(ts.drop_last(), key);
        let t = ts.last();
        if views_of(t.artist_ids@).contains(key) && !any(before, has_track_id(opt_view(t.id))) {
            before.push(t)
        } else {
            before
        }
    }
}

fn copy_strings(v: &Vec<String>) -> (r: Vec<String>)
    ensures
        r@ == v@,
{
    let mut r: Vec<String> = Vec::new();
    let mut i: usize = 0;
    while i < v.len()
        invariant
            i <= v@.len(),
            r@ == v@.take(i as int),
        decreases v@.len() - i,
    {
        r.push(v[i].clone());
        assert(r@ =~= v@.take(i + 1));
        i = i + 1;
    }
    assert(v@.take(v@.len() as int) =~= v@);
    r
}

fn copy_track(t: &Track) -> (r: Track)
    ensures
        same_track(r, *t),
{
    Track {
        id: crate::model::clone_opt(&t.id),
        uri: t.uri.clone(),
        title: t.title.clone(),
        track_number: t.track_number,
        disc_number: t.disc_number,
        duration: t.duration,
        artists: copy_strings(&t.artists),
        artist_ids: copy_strings(&t.artist_ids),
        album: crate::model::clone_opt(&t.album),
        album_id: crate::model::clone_opt(&t.album_id),
        album_artists: copy_strings(&t.album_artists),
        cover_url: crate::model::clone_opt(&t.cover_url),
        url: t.url.clone(),
        added_at: t.added_at,
        list_index: t.list_index,
    }
}

/// The followed artists of `artists`, in order.
fn keep_followed(artists: Vec<Artist>) -> (r: Vec<Artist>)
    ensures
        artist_views(r@) == followed_views(artist_views(artists@)),
{
    let ghost orig = artists@;
    let n = artists.len();
    let mut src = artists;
    let mut out: Vec<Artist> = Vec::new();
    let mut i: usize = 0;
    assert(orig.skip(0) =~= orig);
    assert(artist_views(orig.take(0)) =~= Seq::empty());
    assert(artist_views(out@) =~= followed_views(artist_views(orig.take(0))));
    while src.len() > 0
        invariant
            i <= orig.len(),
            orig.len() == n,
            src@ == orig.skip(i as int),
            src@.len() == orig.len() - i,
            artist_views(out@) == followed_views(artist_views(orig.take(i as int))),
        decreases src@.len(),
    {
        let a = src.remove(0);
        assert(a == orig[i as int]);
        assert(src@ =~= orig.skip(i + 1));
        assert(artist_views(orig.take(i + 1)).drop_last() =~= artist_views(orig.take(i as int)));
        assert(artist_views(orig.take(i + 1)).last() == artist_view(a));
        if a.is_followed {
            let ghost before = out@;
            out.push(a);
            assert(artist_views(out@) =~= artist_views(before).push(artist_view(a)));
        }
        i = i + 1;
    }
    assert(orig.take(i as int) =~= orig);
    out
}

/// Adds an unfollowed artist with id `id` and name `name`, with no tracks
/// yet, unless an artist has that id (an artist without an id has the
/// empty one).
fn add_artist_if_new(artists: &mut Vec<Artist>, id: &String, name: &String)
    ensures
        (exists|k: int| 0 <= k < artist_views(old(artists)@).len() && view_key(#[trigger] artist_views(old(artists)@)[k]) == id@)
            ==> final(artists)@ == old(artists)@,
        !(exists|k: int| 0 <= k < artist_views(old(artists)@).len() && view_key(#[trigger] artist_views(old(artists)@)[k]) == id@)
            ==> {
                &&& final(artists)@.len() == old(artists)@.len() + 1
                &&& final(artists)@.drop_last() == old(artists)@
                &&& artist_view(final(artists)@.last()) == (Some(id@), name@, None::<Seq<char>>, false)
                &&& (final(artists)@.last().tracks matches Some(t) && t@.len() == 0)
            },
{
    let ghost vs = artist_views(artists@);
    match artist_key_position(artists, id.as_str()) {
        Some(j) => {
            proof {
                lemma_first_index_facts(artists@, has_artist_key(id@));
            }
            assert(vs[j as int] == artist_view(artists@[j as int]));
            assert(view_key(vs[j as int]) == id@);
        },
        None => {
            assert forall|k: int| 0 <= k < vs.len() implies view_key(#[trigger] vs[k]) != id@ by {
                assert(vs[k] == artist_view(artists@[k]));
                lemma_first_index_facts(artists@, has_artist_key(id@));
                if view_key(vs[k]) == id@ {
                    assert(has_artist_key(id@)(artists@[k]));
                }
            }
            let a = Artist {
                id: Some(id.clone()),
                name: name.clone(),
                url: None,
                tracks: Some(Vec::new()),
                is_followed: false,
            };
            artists.push(a);
            assert(artists@.drop_last() =~= old(artists)@);
        },
    }
}

proof fn lemma_first_index_facts<T>(s: Seq<T>, pred: spec_fn(T) -> bool)
    ensures
        match first_index(s, pred) {
            Some(i) => 0 <= i < s.len() && pred(s[i]) && forall|j: int| 0 <= j < i ==> !pred(#[trigger] s[j]),
            None => forall|j: int| 0 <= j < s.len() ==> !pred(#[trigger] s[j]),
        },
    decreases s.len(),
{
    if s.len() > 0 {
        lemma_first_index_facts(s.drop_first(), pred);
        assert forall|j: int| 0 < j < s.len() implies #[trigger] s[j] == s.drop_first()[j - 1] by {}
    }
}

/// An artist with an empty list of tracks.
pub open spec fn no_tracks(a: Artist) -> bool {
    a.tracks matches Some(t) && t@.len() == 0
}

/// Adds the artists of `tracks` that are not there yet (see `add_pair_artists`).
fn add_track_artists(artists: &mut Vec<Artist>, tracks: &Vec<Track>)
    ensures
        artist_views(final(artists)@) == add_pair_artists(
            artist_views(old(artists)@),
            track_artist_pairs(tracks@),
        ),
        forall|k: int|
            0 <= k < old(artists)@.len() ==> #[trigger] final(artists)@[k] == old(artists)@[k],
        forall|k: int|
            old(artists)@.len() <= k < final(artists)@.len() ==> no_tracks(#[trigger] final(artists)@[k]),
{
    let ghost base = artist_views(artists@);
    let ghost start = artists@;
    let mut i: usize = 0;
    assert(tracks@.take(0) =~= Seq::<Track>::empty());
    while i < tracks.len()
        invariant
            i <= tracks@.len(),
            base == artist_views(start),
            start.len() <= artists@.len(),
            artist_views(artists@) == add_pair_artists(base, track_artist_pairs(tracks@.take(i as int))),
            forall|k: int| 0 <= k < start.len() ==> #[trigger] artists@[k] == start[k],
            forall|k: int|
                start.len() <= k < artists@.len() ==> no_tracks(#[trigger] artists@[k]),
        decreases tracks@.len() - i,
    {
        let t = &tracks[i];
        let n = if t.artist_ids.len() < t.artists.len() {
            t.artist_ids.len()
        } else {
            t.artists.len()
        };
        let ghost before = track_artist_pairs(tracks@.take(i as int));
        let ghost inp = id_name_pairs(*t);
        assert(inp.take(0) =~= Seq::<(Seq<char>, Seq<char>)>::empty());
        assert(before + inp.take(0) =~= before);
        let mut k: usize = 0;
        while k < n
            invariant
                n == inp.len(),
                inp == id_name_pairs(*t),
                n <= t.artist_ids@.len(),
                n <= t.artists@.len(),
                k <= n,
                base == artist_views(start),
                start.len() <= artists@.len(),
                artist_views(artists@) == add_pair_artists(base, before + inp.take(k as int)),
                forall|q: int| 0 <= q < start.len() ==> #[trigger] artists@[q] == start[q],
                forall|q: int|
                    start.len() <= q < artists@.len() ==> no_tracks(#[trigger] artists@[q]),
            decreases n - k,
        {
            let ghost old_artists = artists@;
            add_artist_if_new(artists, &t.artist_ids[k], &t.artists[k]);
            let ghost pk = inp[k as int];
            assert(pk == (t.artist_ids@[k as int]@, t.artists@[k as int]@));
            assert((before + inp.take(k + 1)).drop_last() =~= before + inp.take(k as int));
            assert((before + inp.take(k + 1)).last() == pk);
            proof {
                if artists@.len() > old_artists.len() {
                    assert(artist_views(artists@) =~= artist_views(old_artists).push(
                        artist_view(artists@.last()),
                    ));
                    assert forall|q: int| 0 <= q < old_artists.len() implies #[trigger] artists@[q]
                        == old_artists[q] by {
                        assert(artists@.drop_last()[q] == artists@[q]);
                    }
                }
            }
            k = k + 1;
        }
        assert(inp.take(n as int) =~= inp);
        assert(tracks@.take(i + 1).drop_last() =~= tracks@.take(i as int));
        assert(tracks@.take(i + 1).last() == *t);
        i = i + 1;
    }
    assert(tracks@.take(tracks@.len() as int) =~= tracks@);
}

/// Gives every artist an empty list of tracks.
fn clear_artist_tracks(artists: &mut Vec<Artist>)
    ensures
        artist_views(final(artists)@) == artist_views(old(artists)@),
        final(artists)@.len() == old(artists)@.len(),
        forall|k: int|
            0 <= k < final(artists)@.len() ==> no_tracks(#[trigger] final(artists)@[k]),
{
    let ghost start = artists@;
    let mut j: usize = 0;
    while j < artists.len()
        invariant
            j <= artists@.len(),
            artists@.len() == start.len(),
            forall|k: int| 0 <= k < artists@.len() ==> #[trigger] artist_view(artists@[k]) == artist_view(start[k]),
            forall|k: int|
                0 <= k < j ==> no_tracks(#[trigger] artists@[k]),
        decreases artists@.len() - j,
    {
        let ghost prev = artists@;
        let a = &mut artists[j];
        a.tracks = Some(Vec::new());
        assert(forall|k: int| 0 <= k < artists@.len() && k != j ==> artists@[k] == prev[k]);
        assert(artist_view(artists@[j as int]) == artist_view(prev[j as int]));
        j = j + 1;
    }
    assert(artist_views(artists@) =~= artist_views(start));
}

/// Each artist's name comes no later than the names after it.
pub open spec fn names_sorted(s: Seq<Artist>) -> bool {
    forall|i: int, j: int| 0 <= i < j < s.len() ==> text_order(#[trigger] s[i].name@, #[trigger] s[j].name@) <= 0
}

/// `artists` ordered by name.
fn sort_artists_by_name(artists: Vec<Artist>) -> (r: Vec<Artist>)
    requires
        forall|k: int| 0 <= k < artists@.len() ==> no_tracks(#[trigger] artists@[k]),
    ensures
        artist_views(r@).to_multiset() == artist_views(artists@).to_multiset(),
        r@.len() == artists@.len(),
        names_sorted(r@),
        forall|k: int| 0 <= k < r@.len() ==> no_tracks(#[trigger] r@[k]),
{
    broadcast use vstd::seq_lib::group_to_multiset_ensures;

    let ghost orig = artists@;
    let n = artists.len();
    let mut src = artists;
    let mut out: Vec<Artist> = Vec::new();
    let mut i: usize = 0;
    assert(orig.skip(0) =~= orig);
    assert(artist_views(orig.take(0)) =~= Seq::empty());
    assert(artist_views(out@) =~= Seq::empty());
    while src.len() > 0
        invariant
            i <= orig.len(),
            orig.len() == n,
            src@ == orig.skip(i as int),
            src@.len() == orig.len() - i,
            out@.len() == i,
            artist_views(out@).to_multiset() == artist_views(orig.take(i as int)).to_multiset(),
            names_sorted(out@),
            forall|k: int| 0 <= k < orig.len() ==> no_tracks(#[trigger] orig[k]),
            forall|k: int| 0 <= k < out@.len() ==> no_tracks(#[trigger] out@[k]),
        decreases src@.len(),
    {
        let x = src.remove(0);
        assert(x == orig[i as int]);
        assert(src@ =~= orig.skip(i + 1));
        assert(artist_views(orig.take(i + 1)) =~= artist_views(orig.take(i as int)).push(artist_view(x)));
        proof {
            artist_views(orig.take(i as int)).to_multiset_ensures();
        }
        let xn = chars_of(x.name.as_str());
        let mut p: usize = out.len();
        while p > 0
            invariant
                p <= out@.len(),
                xn@ == x.name@,
                forall|q: int| p <= q < out@.len() ==> text_order(x.name@, (#[trigger] out@[q]).name@) < 0,
            ensures
                p <= out@.len(),
                forall|q: int| p <= q < out@.len() ==> text_order(x.name@, (#[trigger] out@[q]).name@) < 0,
                p == 0 || text_order(x.name@, out@[p - 1].name@) >= 0,
            decreases p,
        {
            let yn = chars_of(out[p - 1].name.as_str());
            if compare_text(&xn, &yn) >= 0 {
                break;
            }
            p = p - 1;
        }
        let ghost o = out@;
        out.insert(p, x);
        proof {
            let vo = artist_views(o);
            let vn = artist_views(out@);
            assert(vn =~= vo.insert(p as int, artist_view(x)));
            assert(vn.remove(p as int) =~= vo);
            vn.to_multiset_ensures();
            assert(vn.remove(p as int).to_multiset() =~= vn.to_multiset().remove(artist_view(x)));
            assert(vn[p as int] == artist_view(x));
            assert(vn.contains(artist_view(x)));
            assert(vn.to_multiset().count(artist_view(x)) > 0);
            assert(vo.to_multiset().insert(artist_view(x)) =~= vn.to_multiset());
            assert forall|a: int, b: int| 0 <= a < b < out@.len() implies text_order(
                #[trigger] out@[a].name@,
                #[trigger] out@[b].name@,
            ) <= 0 by {
                if b < p {
                    assert(out@[a] == o[a] && out@[b] == o[b]);
                } else if b == p {
                    assert(out@[a] == o[a]);
                    crate::sort::lemma_text_order_antisymmetric(x.name@, o[p - 1].name@);
                    if a < p - 1 {
                        assert(text_order(o[a].name@, o[p - 1].name@) <= 0);
                        crate::sort::lemma_text_order_transitive(o[a].name@, o[p - 1].name@, x.name@);
                    }
                } else if a == p {
                    assert(out@[b] == o[b - 1]);
                } else if a < p {
                    assert(out@[a] == o[a] && out@[b] == o[b - 1]);
                } else {
                    assert(out@[a] == o[a - 1] && out@[b] == o[b - 1]);
                }
            }
            assert forall|k: int| 0 <= k < out@.len() implies no_tracks(#[trigger] out@[k]) by {
                if k < p {
                    assert(out@[k] == o[k]);
                } else if k > p {
                    assert(out@[k] == o[k - 1]);
                }
            }
        }
        i = i + 1;
    }
    assert(orig.take(i as int) =~= orig);
    out
}

/// Whether the artist at `j` is the first one with its key: the one whose
/// tracks are filled in.
pub open spec fn first_of_key(a: Seq<Artist>, j: int) -> bool {
    first_index(a, has_artist_key(artist_key(a[j]))) == Some(j)
}

proof fn lemma_same_tracks_any(a: Seq<Track>, b: Seq<Track>, id: Option<Seq<char>>)
    requires
        same_tracks(a, b),
    ensures
        any(a, has_track_id(id)) == any(b, has_track_id(id)),
{
    if any(a, has_track_id(id)) {
        let k = choose|k: int| 0 <= k < a.len() && has_track_id(id)(#[trigger] a[k]);
        assert(same_track(a[k], b[k]));
        assert(has_track_id(id)(b[k]));
    }
    if any(b, has_track_id(id)) {
        let k = choose|k: int| 0 <= k < b.len() && has_track_id(id)(#[trigger] b[k]);
        assert(same_track(a[k], b[k]));
        assert(has_track_id(id)(a[k]));
    }
}

proof fn lemma_contains_push(s: Seq<Seq<char>>, x: Seq<char>, k: Seq<char>)
    ensures
        s.push(x).contains(k) == (s.contains(k) || x == k),
{
    if s.contains(k) {
        let i = choose|i: int| 0 <= i < s.len() && s[i] == k;
        assert(s.push(x)[i] == k);
    }
    if x == k {
        assert(s.push(x)[s.len() as int] == k);
    }
    if s.push(x).contains(k) {
        let i = choose|i: int| 0 <= i < s.push(x).len() && s.push(x)[i] == k;
        if i < s.len() {
            assert(s[i] == k);
        }
    }
}

/// Gives the first artist with each key the saved tracks of that key (see
/// `artist_tracks`), and every other artist none.
fn fill_artist_tracks(artists: &mut Vec<Artist>, tracks: &Vec<Track>)
    requires
        forall|k: int| 0 <= k < old(artists)@.len() ==> no_tracks(#[trigger] old(artists)@[k]),
    ensures
        final(artists)@.len() == old(artists)@.len(),
        forall|k: int|
            0 <= k < final(artists)@.len() ==> #[trigger] artist_view(final(artists)@[k]) == artist_view(
                old(artists)@[k],
            ),
        forall|j: int|
            #![trigger final(artists)@[j]]
            0 <= j < final(artists)@.len() ==> (final(artists)@[j].tracks matches Some(ts) && (
            first_of_key(old(artists)@, j) ==> same_tracks(
                ts@,
                artist_tracks(tracks@, artist_key(old(artists)@[j])),
            )) && (!first_of_key(old(artists)@, j) ==> ts@.len() == 0)),
{
    let ghost a = artists@;
    let n = artists.len();
    let mut lists: Vec<Vec<Track>> = Vec::new();
    let mut q: usize = 0;
    while q < n
        invariant
            q <= n,
            n == a.len(),
            lists@.len() == q,
            forall|j: int| 0 <= j < q ==> (#[trigger] lists@[j])@.len() == 0,
        decreases n - q,
    {
        lists.push(Vec::new());
        q = q + 1;
    }
    let mut i: usize = 0;
    assert(tracks@.take(0) =~= Seq::<Track>::empty());
    while i < tracks.len()
        invariant
            artists@ == a,
            n == a.len(),
            lists@.len() == n,
            i <= tracks@.len(),
            forall|j: int|
                #![trigger lists@[j]]
                0 <= j < n ==> (first_of_key(a, j) ==> same_tracks(
                    lists@[j]@,
                    artist_tracks(tracks@.take(i as int), artist_key(a[j])),
                )) && (!first_of_key(a, j) ==> lists@[j]@.len() == 0),
        decreases tracks@.len() - i,
    {
        let t = &tracks[i];
        let ghost ids = views_of(t.artist_ids@);
        let ghost ti = tracks@.take(i as int);
        let ghost ti1 = tracks@.take(i + 1);
        assert(ti1.drop_last() =~= ti);
        assert(ti1.last() == *t);
        assert(ids.take(0) =~= Seq::<Seq<char>>::empty());
        let mut m: usize = 0;
        while m < t.artist_ids.len()
            invariant
                artists@ == a,
                n == a.len(),
                lists@.len() == n,
                ids == views_of(t.artist_ids@),
                ti1.len() > 0,
                ti1.drop_last() == ti,
                ti1.last() == *t,
                m <= t.artist_ids@.len(),
                forall|j: int|
                    #![trigger lists@[j]]
                    0 <= j < n ==> (first_of_key(a, j) ==> same_tracks(
                        lists@[j]@,
                        if ids.take(m as int).contains(artist_key(a[j])) {
                            artist_tracks(ti1, artist_key(a[j]))
                        } else {
                            artist_tracks(ti, artist_key(a[j]))
                        },
                    )) && (!first_of_key(a, j) ==> lists@[j]@.len() == 0),
            decreases t.artist_ids@.len() - m,
        {
            let ghost id = t.artist_ids@[m as int]@;
            assert(ids.take(m + 1) =~= ids.take(m as int).push(id));
            assert(ids[m as int] == id);
            assert(ids.contains(id));
            let ghost before_lists = lists@;
            proof {
                lemma_first_index_facts(a, has_artist_key(id));
            }
            match artist_key_position(artists, t.artist_ids[m].as_str()) {
                Some(j0) => {
                    assert(artist_key(a[j0 as int]) == id);
                    assert(first_of_key(a, j0 as int));
                    let present = track_position(&lists[j0], &t.id).is_some();
                    let ghost key0 = artist_key(a[j0 as int]);
                    let ghost bef = artist_tracks(ti, key0);
                    proof {
                        lemma_contains_push(ids.take(m as int), id, key0);
                        if ids.take(m as int).contains(key0) {
                            lemma_same_tracks_any(lists@[j0 as int]@, artist_tracks(ti1, key0), opt_view(t.id));
                        } else {
                            lemma_same_tracks_any(lists@[j0 as int]@, bef, opt_view(t.id));
                        }
                    }
                    if !present {
                        let c = copy_track(t);
                        let l = &mut lists[j0];
                        l.push(c);
                    }
                    proof {
                        assert forall|j: int| 0 <= j < n implies (first_of_key(a, j) ==> same_tracks(
                            #[trigger] lists@[j]@,
                            if ids.take(m + 1).contains(artist_key(a[j])) {
                                artist_tracks(ti1, artist_key(a[j]))
                            } else {
                                artist_tracks(ti, artist_key(a[j]))
                            },
                        )) && (!first_of_key(a, j) ==> lists@[j]@.len() == 0) by {
                            lemma_contains_push(ids.take(m as int), id, artist_key(a[j]));
                            if j == j0 {
                                if ids.take(m as int).contains(key0) {
                                    let at1 = artist_tracks(ti1, key0);
                                    assert(ti1.len() > 0);
                                    assert(artist_tracks(ti1.drop_last(), key0) == bef);
                                    assert(views_of(ti1.last().artist_ids@).contains(key0));
                                    if !any(bef, has_track_id(opt_view(t.id))) {
                                        assert(at1 == bef.push(*t));
                                        assert(has_track_id(opt_view(t.id))(at1[bef.len() as int]));
                                    }
                                } else if !present {
                                    assert forall|k: int| 0 <= k < lists@[j]@.len() implies #[trigger] same_track(
                                        lists@[j]@[k],
                                        bef.push(*t)[k],
                                    ) by {
                                        if k < before_lists[j]@.len() {
                                            assert(lists@[j]@[k] == before_lists[j]@[k]);
                                        }
                                    }
                                }
                            } else {
                                assert(lists@[j] == before_lists[j]);
                                if first_of_key(a, j) && artist_key(a[j]) == id {
                                    assert(false);
                                }
                            }
                        }
                    }
                },
                None => {
                    proof {
                        assert forall|j: int| 0 <= j < n implies (first_of_key(a, j) ==> same_tracks(
                            #[trigger] lists@[j]@,
                            if ids.take(m + 1).contains(artist_key(a[j])) {
                                artist_tracks(ti1, artist_key(a[j]))
                            } else {
                                artist_tracks(ti, artist_key(a[j]))
                            },
                        )) && (!first_of_key(a, j) ==> lists@[j]@.len() == 0) by {
                            lemma_contains_push(ids.take(m as int), id, artist_key(a[j]));
                            if first_of_key(a, j) && artist_key(a[j]) == id {
                                assert(has_artist_key(id)(a[j]));
                            }
                        }
                    }
                },
            }
            m = m + 1;
        }
        proof {
            assert(ids.take(m as int) =~= ids);
            assert forall|j: int| 0 <= j < n implies (first_of_key(a, j) ==> same_tracks(
                #[trigger] lists@[j]@,
                artist_tracks(tracks@.take(i + 1), artist_key(a[j])),
            )) && (!first_of_key(a, j) ==> lists@[j]@.len() == 0) by {
                assert(tracks@.take(i + 1) == ti1);
            }
        }
        i = i + 1;
    }
    assert(tracks@.take(tracks@.len() as int) =~= tracks@);
    let ghost all = lists@;
    let mut j: usize = 0;
    assert(all.skip(0) =~= all);
    while j < n
        invariant
            j <= n,
            n == a.len(),
            artists@.len() == n,
            all.len() == n,
            lists@ == all.skip(j as int),
            forall|k: int| 0 <= k < n ==> #[trigger] artist_view(artists@[k]) == artist_view(a[k]),
            forall|k: int| j <= k < n ==> #[trigger] artists@[k] == a[k],
            forall|k: int| 0 <= k < j ==> (#[trigger] artists@[k]).tracks == Some(all[k]),
        decreases n - j,
    {
        let l = lists.remove(0);
        assert(l == all[j as int]);
        assert(lists@ =~= all.skip(j + 1));
        let ghost prev = artists@;
        let r = &mut artists[j];
        r.tracks = Some(l);
        assert(forall|k: int| 0 <= k < n && k != j ==> artists@[k] == prev[k]);
        j = j + 1;
    }
}

proof fn lemma_same_keys_first_index(a: Seq<Artist>, b: Seq<Artist>, k: Seq<char>)
    requires
        a.len() == b.len(),
        forall|j: int| 0 <= j < a.len() ==> #[trigger] artist_key(a[j]) == artist_key(b[j]),
    ensures
        first_index(a, has_artist_key(k)) == first_index(b, has_artist_key(k)),
    decreases a.len(),
{
    if a.len() > 0 {
        assert(artist_key(a[0]) == artist_key(b[0]));
        assert forall|j: int| 0 <= j < a.drop_first().len() implies #[trigger] artist_key(
            a.drop_first()[j],
        ) == artist_key(b.drop_first()[j]) by {
            assert(artist_key(a[j + 1]) == artist_key(b[j + 1]));
        }
        lemma_same_keys_first_index(a.drop_first(), b.drop_first(), k);
    }
}

/// The artists of a library rebuilt from `before` (their views) and the
/// saved tracks `tracks`: the followed ones and the artists of saved tracks,
/// ordered by name, the first artist with each key holding its saved tracks.
pub open spec fn artists_rebuilt(
    artists: Seq<Artist>,
    before: Seq<(Option<Seq<char>>, Seq<char>, Option<Seq<char>>, bool)>,
    tracks: Seq<Track>,
) -> bool {
    &&& artist_views(artists).to_multiset() == library_artists(before, tracks).to_multiset()
    &&& names_sorted(artists)
    &&& forall|j: int|
        #![trigger artists[j]]
        0 <= j < artists.len() ==> (artists[j].tracks matches Some(ts) && (first_of_key(artists, j)
            ==> same_tracks(ts@, artist_tracks(tracks, artist_key(artists[j])))) && (!first_of_key(
            artists,
            j,
        ) ==> ts@.len() == 0))
}

impl Library {
    /// Rebuilds the artists (see `artists_rebuilt`): unfollowed artists are
    /// dropped, the artists of saved tracks added, everything ordered by name
    /// and each artist given its saved tracks.
    pub fn populate_artists(&mut self)
        ensures
            artists_rebuilt(final(self).artists@, artist_views(old(self).artists@), old(self).tracks@),
            final(self).tracks == old(self).tracks,
            final(self).albums == old(self).albums,
            final(self).playlists == old(self).playlists,
            final(self).is_done == old(self).is_done,
            final(self).user_id == old(self).user_id,
    {
        let mut old_artists: Vec<Artist> = Vec::new();
        std::mem::swap(&mut self.artists, &mut old_artists);
        let mut kept = keep_followed(old_artists);
        add_track_artists(&mut kept, &self.tracks);
        clear_artist_tracks(&mut kept);
        let mut sorted = sort_artists_by_name(kept);
        let ghost pre = sorted@;
        fill_artist_tracks(&mut sorted, &self.tracks);
        proof {
            assert(artist_views(sorted@) =~= artist_views(pre));
            assert forall|j: int| 0 <= j < sorted@.len() implies #[trigger] artist_key(sorted@[j])
                == artist_key(pre[j]) by {
                assert(artist_view(sorted@[j]) == artist_view(pre[j]));
            }
            assert forall|i: int, j: int| 0 <= i < j < sorted@.len() implies text_order(
                #[trigger] sorted@[i].name@,
                #[trigger] sorted@[j].name@,
            ) <= 0 by {
                assert(artist_view(sorted@[i]) == artist_view(pre[i]));
                assert(artist_view(sorted@[j]) == artist_view(pre[j]));
                assert(text_order(pre[i].name@, pre[j].name@) <= 0);
            }
            assert forall|j: int| 0 <= j < sorted@.len() implies first_of_key(sorted@, j)
                == first_of_key(pre, j) by {
                lemma_same_keys_first_index(sorted@, pre, artist_key(pre[j]));
            }
        }
        self.artists = sorted;
    }
}

/// The tracks of `new` that saving adds in front of the saved `store`: those
/// whose id is neither saved nor already added, in order.
pub open spec fn fresh_tracks(store: Seq<Track>, new: Seq<Track>) -> Seq<Track>
    decreases new.len(),
{
    if new.len() == 0 {
        Seq::empty()
    } else {
        let f = fresh_tracks(store, new.drop_last());
        let t = new.last();
        if any(store, has_track_id(opt_view(t.id))) || any(f, has_track_id(opt_view(t.id))) {
            f
        } else {
            f.push(t)
        }
    }
}

/// The tracks of `store` whose id is not that of a track of `removed`.
pub open spec fn kept_tracks(store: Seq<Track>, removed: Seq<Track>) -> Seq<Track>
    decreases store.len(),
{
    if store.len() == 0 {
        Seq::empty()
    } else {
        let k = kept_tracks(store.drop_last(), removed);
        if any(removed, has_track_id(opt_view(store.last().id))) {
            k
        } else {
            k.push(store.last())
        }
    }
}

/// The albums of `store` with another id than `id`.
pub open spec fn albums_without(store: Seq<Album>, id: Option<Seq<char>>) -> Seq<Album>
    decreases store.len(),
{
    if store.len() == 0 {
        Seq::empty()
    } else {
        let k = albums_without(store.drop_last(), id);
        if opt_view(store.last().id) == id {
            k
        } else {
            k.push(store.last())
        }
    }
}

/// The key albums are ordered by: first artist, year and title run together;
/// with `fold_case` (as for the albums fetched), artist and title in lower
/// case.
pub open spec fn album_sort_key(a: Album, fold_case: bool) -> Seq<char> {
    if fold_case {
        lowercase(a.artists@[0]@) + a.year@ + lowercase(a.title@)
    } else {
        a.artists@[0]@ + a.year@ + a.title@
    }
}

pub open spec fn albums_sorted(s: Seq<Album>, fold_case: bool) -> bool {
    forall|i: int, j: int|
        0 <= i < j < s.len() ==> text_order(
            album_sort_key(#[trigger] s[i], fold_case),
            album_sort_key(#[trigger] s[j], fold_case),
        ) <= 0
}

pub open spec fn has_artists(a: Album) -> bool {
    a.artists@.len() > 0
}

/// The artists as `vs` after marking the artist at `pos` followed, or adding
/// `added` (followed) when there is none.
pub open spec fn with_followed(
    vs: Seq<(Option<Seq<char>>, Seq<char>, Option<Seq<char>>, bool)>,
    pos: Option<int>,
    added: (Option<Seq<char>>, Seq<char>, Option<Seq<char>>, bool),
) -> Seq<(Option<Seq<char>>, Seq<char>, Option<Seq<char>>, bool)> {
    match pos {
        Some(i) => vs.update(i, (vs[i].0, vs[i].1, vs[i].2, true)),
        None => vs.push((added.0, added.1, added.2, true)),
    }
}

/// The artists after merging the followed artists `fetched` in turn: each
/// marks the first artist with its id followed, or is added followed.
pub open spec fn merge_followed(
    vs: Seq<(Option<Seq<char>>, Seq<char>, Option<Seq<char>>, bool)>,
    fetched: Seq<Artist>,
) -> Seq<(Option<Seq<char>>, Seq<char>, Option<Seq<char>>, bool)>
    decreases fetched.len(),
{
    if fetched.len() == 0 {
        vs
    } else {
        let m = merge_followed(vs, fetched.drop_last());
        let a = fetched.last();
        with_followed(m, first_index(m, view_has_id(opt_view(a.id))), artist_view(a))
    }
}

proof fn lemma_any_concat(a: Seq<Track>, b: Seq<Track>, id: Option<Seq<char>>)
    ensures
        any(a + b, has_track_id(id)) == (any(a, has_track_id(id)) || any(b, has_track_id(id))),
{
    if any(a, has_track_id(id)) {
        let k = choose|k: int| 0 <= k < a.len() && has_track_id(id)(#[trigger] a[k]);
        assert((a + b)[k] == a[k]);
    }
    if any(b, has_track_id(id)) {
        let k = choose|k: int| 0 <= k < b.len() && has_track_id(id)(#[trigger] b[k]);
        assert((a + b)[a.len() + k] == b[k]);
    }
    if any(a + b, has_track_id(id)) {
        let k = choose|k: int| 0 <= k < (a + b).len() && has_track_id(id)(#[trigger] (a + b)[k]);
        if k < a.len() {
            assert((a + b)[k] == a[k]);
        } else {
            assert((a + b)[k] == b[k - a.len()]);
        }
    }
}

fn views_position(artists: &Vec<Artist>, id: &Option<String>) -> (r: Option<usize>)
    ensures
        r matches Some(i) ==> i < artists@.len() && first_index(
            artist_views(artists@),
            view_has_id(opt_view(*id)),
        ) == Some(i as int),
        r is None ==> first_index(
            artist_views(artists@),
            view_has_id(opt_view(*id)),
        ) is None,
{
    let ghost pred = view_has_id(opt_view(*id));
    let ghost vs = artist_views(artists@);
    let mut i: usize = 0;
    while i < artists.len()
        invariant
            i <= artists@.len(),
            vs == artist_views(artists@),
            pred == view_has_id(opt_view(*id)),
            forall|j: int| 0 <= j < i ==> !pred(#[trigger] vs[j]),
        decreases artists@.len() - i,
    {
        assert(vs[i as int] == artist_view(artists@[i as int]));
        if same_opt_text(&artists[i].id, id) {
            proof {
                lemma_first_index(vs, pred, i as int);
            }
            return Some(i);
        }
        i = i + 1;
    }
    proof {
        lemma_first_index(vs, pred, i as int);
    }
    None
}

impl Library {
    /// Saves `tracks`: those not saved yet (by id) go in front, in order, and
    /// the artists are rebuilt; nothing changes before loading.
    pub fn save_tracks(&mut self, tracks: Vec<Track>)
        ensures
            !old(self).is_done ==> final(self).tracks == old(self).tracks && final(self).artists
                == old(self).artists,
            old(self).is_done ==> final(self).tracks@ == fresh_tracks(old(self).tracks@, tracks@) + old(
                self,
            ).tracks@ && artists_rebuilt(
                final(self).artists@,
                artist_views(old(self).artists@),
                final(self).tracks@,
            ),
            final(self).albums == old(self).albums,
            final(self).playlists == old(self).playlists,
            final(self).is_done == old(self).is_done,
    {
        if !self.is_done {
            return;
        }
        let ghost store = self.tracks@;
        let ghost new = tracks@;
        let n = tracks.len();
        let mut src = tracks;
        let mut i: usize = 0;
        let mut j: usize = 0;
        assert(new.skip(0) =~= new);
        assert(new.take(0) =~= Seq::<Track>::empty());
        assert(self.tracks@ =~= fresh_tracks(store, new.take(0)) + store);
        while src.len() > 0
            invariant
                j <= new.len(),
                new.len() == n,
                src@ == new.skip(j as int),
                src@.len() == new.len() - j,
                i == fresh_tracks(store, new.take(j as int)).len(),
                i <= j,
                self.tracks@ == fresh_tracks(store, new.take(j as int)) + store,
                self.albums == old(self).albums,
                self.artists == old(self).artists,
                self.playlists == old(self).playlists,
                self.is_done == old(self).is_done,
                self.user_id == old(self).user_id,
            decreases src@.len(),
        {
            let t = src.remove(0);
            assert(t == new[j as int]);
            assert(src@ =~= new.skip(j + 1));
            assert(new.take(j + 1).drop_last() =~= new.take(j as int));
            assert(new.take(j + 1).last() == t);
            let ghost f = fresh_tracks(store, new.take(j as int));
            proof {
                lemma_any_concat(f, store, opt_view(t.id));
            }
            if track_position(&self.tracks, &t.id).is_none() {
                self.tracks.insert(i, t);
                assert(self.tracks@ =~= f.push(t) + store);
                i = i + 1;
            }
            j = j + 1;
        }
        assert(new.take(j as int) =~= new);
        self.populate_artists();
    }

    /// Unsaves `tracks`: the saved tracks with their ids go, and the artists
    /// are rebuilt; nothing changes before loading.
    pub fn unsave_tracks(&mut self, tracks: &Vec<Track>)
        ensures
            !old(self).is_done ==> final(self).tracks == old(self).tracks && final(self).artists
                == old(self).artists,
            old(self).is_done ==> final(self).tracks@ == kept_tracks(old(self).tracks@, tracks@)
                && artists_rebuilt(
                final(self).artists@,
                artist_views(old(self).artists@),
                final(self).tracks@,
            ),
            final(self).albums == old(self).albums,
            final(self).playlists == old(self).playlists,
            final(self).is_done == old(self).is_done,
    {
        if !self.is_done {
            return;
        }
        let mut src: Vec<Track> = Vec::new();
        std::mem::swap(&mut self.tracks, &mut src);
        let ghost store = src@;
        let n = src.len();
        let mut kept: Vec<Track> = Vec::new();
        let mut j: usize = 0;
        assert(store.skip(0) =~= store);
        assert(store.take(0) =~= Seq::<Track>::empty());
        while src.len() > 0
            invariant
                j <= store.len(),
                store.len() == n,
                src@ == store.skip(j as int),
                src@.len() == store.len() - j,
                kept@ == kept_tracks(store.take(j as int), tracks@),
            decreases src@.len(),
        {
            let t = src.remove(0);
            assert(t == store[j as int]);
            assert(src@ =~= store.skip(j + 1));
            assert(store.take(j + 1).drop_last() =~= store.take(j as int));
            assert(store.take(j + 1).last() == t);
            if track_position(tracks, &t.id).is_none() {
                kept.push(t);
            }
            j = j + 1;
        }
        assert(store.take(j as int) =~= store);
        self.tracks = kept;
        self.populate_artists();
    }

    /// Follows `artist`: the first artist with its id is marked followed, or
    /// `artist` is added followed; then the artists are rebuilt. Nothing
    /// changes before loading.
    pub fn follow_artist(&mut self, artist: &Artist)
        ensures
            !old(self).is_done ==> final(self).artists == old(self).artists,
            old(self).is_done ==> artists_rebuilt(
                final(self).artists@,
                with_followed(
                    artist_views(old(self).artists@),
                    first_index(
                        artist_views(old(self).artists@),
                        view_has_id(opt_view(artist.id)),
                    ),
                    artist_view(*artist),
                ),
                old(self).tracks@,
            ),
            final(self).tracks == old(self).tracks,
            final(self).albums == old(self).albums,
            final(self).playlists == old(self).playlists,
            final(self).is_done == old(self).is_done,
    {
        if !self.is_done {
            return;
        }
        let ghost vs = artist_views(self.artists@);
        match views_position(&self.artists, &artist.id) {
            Some(i) => {
                let ghost prev = self.artists@;
                let a = &mut self.artists[i];
                a.is_followed = true;
                proof {
                    assert(artist_views(self.artists@) =~= vs.update(
                        i as int,
                        (vs[i as int].0, vs[i as int].1, vs[i as int].2, true),
                    )) by {
                        assert forall|k: int| 0 <= k < prev.len() && k != i implies self.artists@[k]
                            == prev[k] by {}
                    }
                }
            },
            None => {
                let a = Artist {
                    id: crate::model::clone_opt(&artist.id),
                    name: artist.name.clone(),
                    url: crate::model::clone_opt(&artist.url),
                    tracks: None,
                    is_followed: true,
                };
                self.artists.push(a);
                assert(artist_views(self.artists@) =~= vs.push(
                    (opt_view(artist.id), artist.name@, opt_view(artist.url), true),
                ));
            },
        }
        self.populate_artists();
    }

    /// Unfollows `artist`: the first artist with its id is marked not
    /// followed; then the artists are rebuilt. Nothing changes before loading.
    pub fn unfollow_artist(&mut self, artist: &Artist)
        ensures
            !old(self).is_done ==> final(self).artists == old(self).artists,
            old(self).is_done ==> artists_rebuilt(
                final(self).artists@,
                match first_index(
                    artist_views(old(self).artists@),
                    view_has_id(opt_view(artist.id)),
                ) {
                    Some(i) => artist_views(old(self).artists@).update(
                        i,
                        (
                            artist_views(old(self).artists@)[i].0,
                            artist_views(old(self).artists@)[i].1,
                            artist_views(old(self).artists@)[i].2,
                            false,
                        ),
                    ),
                    None => artist_views(old(self).artists@),
                },
                old(self).tracks@,
            ),
            final(self).tracks == old(self).tracks,
            final(self).albums == old(self).albums,
            final(self).playlists == old(self).playlists,
            final(self).is_done == old(self).is_done,
    {
        if !self.is_done {
            return;
        }
        let ghost vs = artist_views(self.artists@);
        match views_position(&self.artists, &artist.id) {
            Some(i) => {
                let ghost prev = self.artists@;
                let a = &mut self.artists[i];
                a.is_followed = false;
                proof {
                    assert(artist_views(self.artists@) =~= vs.update(
                        i as int,
                        (vs[i as int].0, vs[i as int].1, vs[i as int].2, false),
                    )) by {
                        assert forall|k: int| 0 <= k < prev.len() && k != i implies self.artists@[k]
                            == prev[k] by {}
                    }
                }
            },
            None => {},
        }
        self.populate_artists();
    }

    /// Marks the artists fetched as followed, in turn (see `merge_followed`).
    pub fn merge_followed_artists(&mut self, fetched: Vec<Artist>)
        ensures
            artist_views(final(self).artists@) == merge_followed(artist_views(old(self).artists@), fetched@),
            final(self).tracks == old(self).tracks,
            final(self).albums == old(self).albums,
            final(self).playlists == old(self).playlists,
            final(self).is_done == old(self).is_done,
    {
        let ghost start = artist_views(self.artists@);
        let ghost all = fetched@;
        let n = fetched.len();
        let mut src = fetched;
        let mut j: usize = 0;
        assert(all.skip(0) =~= all);
        assert(all.take(0) =~= Seq::<Artist>::empty());
        while src.len() > 0
            invariant
                j <= all.len(),
                all.len() == n,
                src@ == all.skip(j as int),
                src@.len() == all.len() - j,
                artist_views(self.artists@) == merge_followed(start, all.take(j as int)),
                self.tracks == old(self).tracks,
                self.albums == old(self).albums,
                self.playlists == old(self).playlists,
                self.is_done == old(self).is_done,
            decreases src@.len(),
        {
            let a = src.remove(0);
            assert(a == all[j as int]);
            assert(src@ =~= all.skip(j + 1));
            assert(all.take(j + 1).drop_last() =~= all.take(j as int));
            assert(all.take(j + 1).last() == a);
            let ghost vs = artist_views(self.artists@);
            match views_position(&self.artists, &a.id) {
                Some(i) => {
                    let ghost prev = self.artists@;
                    let r = &mut self.artists[i];
                    r.is_followed = true;
                    proof {
                        assert(artist_views(self.artists@) =~= vs.update(
                            i as int,
                            (vs[i as int].0, vs[i as int].1, vs[i as int].2, true),
                        )) by {
                            assert forall|k: int| 0 <= k < prev.len() && k != i implies self.artists@[k]
                                == prev[k] by {}
                        }
                    }
                },
                None => {
                    let mut b = a;
                    b.is_followed = true;
                    let ghost bv = artist_view(b);
                    self.artists.push(b);
                    assert(artist_views(self.artists@) =~= vs.push(bv));
                },
            }
            j = j + 1;
        }
        assert(all.take(j as int) =~= all);
    }

    /// Saves `album` first among the albums unless one with its id is saved,
    /// and orders the albums by first artist, year and title; nothing changes
    /// before loading.
    pub fn save_album(&mut self, album: Album)
        requires
            has_artists(album),
            forall|k: int| 0 <= k < old(self).albums@.len() ==> has_artists(#[trigger] old(self).albums@[k]),
        ensures
            (old(self).is_done && first_index(old(self).albums@, has_album_id(opt_view(album.id))) is None)
                ==> final(self).albums@.to_multiset() == old(self).albums@.push(album).to_multiset()
                && albums_sorted(final(self).albums@, false),
            !(old(self).is_done && first_index(old(self).albums@, has_album_id(opt_view(album.id)))
                is None) ==> final(self).albums == old(self).albums,
            final(self).tracks == old(self).tracks,
            final(self).artists == old(self).artists,
            final(self).playlists == old(self).playlists,
            final(self).is_done == old(self).is_done,
    {
        if !self.is_done {
            return;
        }
        if album_position(&self.albums, &album.id).is_some() {
            return;
        }
        let mut src: Vec<Album> = Vec::new();
        std::mem::swap(&mut self.albums, &mut src);
        src.insert(0, album);
        proof {
            let o = old(self).albums@;
            assert(src@ =~= o.insert(0, album));
            o.to_multiset_ensures();
            src@.to_multiset_ensures();
            assert(src@.remove(0) =~= o);
            assert(o.push(album).to_multiset() =~= o.to_multiset().insert(album));
            assert(src@.remove(0).to_multiset() =~= src@.to_multiset().remove(album));
            assert(src@[0] == album);
            assert(src@.contains(album));
            assert(src@.to_multiset().count(album) > 0);
            assert(src@.to_multiset() =~= o.to_multiset().insert(album));
        }
        self.albums = sort_albums(src, false);
    }

    /// Unsaves `album`: the saved albums with its id go; nothing changes
    /// before loading.
    pub fn unsave_album(&mut self, album: &Album)
        ensures
            !old(self).is_done ==> final(self).albums == old(self).albums,
            old(self).is_done ==> final(self).albums@ == albums_without(old(self).albums@, opt_view(album.id)),
            final(self).tracks == old(self).tracks,
            final(self).artists == old(self).artists,
            final(self).playlists == old(self).playlists,
            final(self).is_done == old(self).is_done,
    {
        if !self.is_done {
            return;
        }
        let mut src: Vec<Album> = Vec::new();
        std::mem::swap(&mut self.albums, &mut src);
        let ghost store = src@;
        let n = src.len();
        let mut kept: Vec<Album> = Vec::new();
        let mut j: usize = 0;
        assert(store.skip(0) =~= store);
        assert(store.take(0) =~= Seq::<Album>::empty());
        while src.len() > 0
            invariant
                j <= store.len(),
                store.len() == n,
                src@ == store.skip(j as int),
                src@.len() == store.len() - j,
                kept@ == albums_without(store.take(j as int), opt_view(album.id)),
            decreases src@.len(),
        {
            let a = src.remove(0);
            assert(a == store[j as int]);
            assert(src@ =~= store.skip(j + 1));
            assert(store.take(j + 1).drop_last() =~= store.take(j as int));
            assert(store.take(j + 1).last() == a);
            if !same_opt_text(&a.id, &album.id) {
                kept.push(a);
            }
            j = j + 1;
        }
        assert(store.take(j as int) =~= store);
        self.albums = kept;
    }
}

impl Library {
    /// Whether the first page of saved tracks fetched (its ids, in order)
    /// shows the saved tracks unchanged: the service counts as many as are
    /// stored and the page starts with the stored ones.
    pub fn saved_tracks_unchanged(&self, total: usize, first_page_ids: &Vec<Option<String>>) -> (r: bool)
        requires
            total == self.tracks@.len() ==> first_page_ids@.len() <= self.tracks@.len(),
        ensures
            r == (total == self.tracks@.len() && forall|i: int|
                0 <= i < first_page_ids@.len() ==> opt_view(#[trigger] first_page_ids@[i]) == opt_view(
                    self.tracks@[i].id,
                )),
    {
        if total != self.tracks.len() {
            return false;
        }
        let mut i: usize = 0;
        while i < first_page_ids.len()
            invariant
                i <= first_page_ids@.len(),
                first_page_ids@.len() <= self.tracks@.len(),
                forall|j: int| 0 <= j < i ==> opt_view(#[trigger] first_page_ids@[j]) == opt_view(self.tracks@[j].id),
            decreases first_page_ids@.len() - i,
        {
            if !same_opt_text(&first_page_ids[i], &self.tracks[i].id) {
                return false;
            }
            i = i + 1;
        }
        true
    }

    /// Stores the saved albums fetched, ordered by first artist, year and
    /// title.
    pub fn set_fetched_albums(&mut self, albums: Vec<Album>)
        requires
            forall|k: int| 0 <= k < albums@.len() ==> has_artists(#[trigger] albums@[k]),
        ensures
            final(self).albums@.to_multiset() == albums@.to_multiset(),
            albums_sorted(final(self).albums@, true),
            final(self).tracks == old(self).tracks,
            final(self).artists == old(self).artists,
            final(self).playlists == old(self).playlists,
            final(self).is_done == old(self).is_done,
    {
        self.albums = sort_albums(albums, true);
    }
}

fn album_key_exec(a: &Album, fold_case: bool) -> (r: Vec<char>)
    requires
        has_artists(*a),
    ensures
        r@ == album_sort_key(*a, fold_case),
{
    let mut k = chars_of(a.artists[0].as_str());
    let y = chars_of(a.year.as_str());
    let mut t = chars_of(a.title.as_str());
    if fold_case {
        k = to_lowercase(&k);
        t = to_lowercase(&t);
    }
    k.extend_from_slice(&y);
    k.extend_from_slice(&t);
    k
}

/// `albums` ordered by `album_sort_key`.
fn sort_albums(albums: Vec<Album>, fold_case: bool) -> (r: Vec<Album>)
    requires
        forall|k: int| 0 <= k < albums@.len() ==> has_artists(#[trigger] albums@[k]),
    ensures
        r@.to_multiset() == albums@.to_multiset(),
        albums_sorted(r@, fold_case),
{
    broadcast use vstd::seq_lib::group_to_multiset_ensures;

    let ghost orig = albums@;
    let n = albums.len();
    let mut src = albums;
    let mut out: Vec<Album> = Vec::new();
    let mut i: usize = 0;
    assert(orig.skip(0) =~= orig);
    assert(orig.take(0) =~= Seq::<Album>::empty());
    while src.len() > 0
        invariant
            i <= orig.len(),
            orig.len() == n,
            src@ == orig.skip(i as int),
            src@.len() == orig.len() - i,
            out@.to_multiset() == orig.take(i as int).to_multiset(),
            albums_sorted(out@, fold_case),
            forall|k: int| 0 <= k < orig.len() ==> has_artists(#[trigger] orig[k]),
            forall|k: int| 0 <= k < out@.len() ==> has_artists(#[trigger] out@[k]),
        decreases src@.len(),
    {
        let x = src.remove(0);
        assert(x == orig[i as int]);
        assert(src@ =~= orig.skip(i + 1));
        assert(orig.take(i + 1) =~= orig.take(i as int).push(x));
        proof {
            orig.take(i as int).to_multiset_ensures();
        }
        let xk = album_key_exec(&x, fold_case);
        let mut p: usize = out.len();
        while p > 0
            invariant
                p <= out@.len(),
                xk@ == album_sort_key(x, fold_case),
                forall|k: int| 0 <= k < out@.len() ==> has_artists(#[trigger] out@[k]),
                forall|q: int| p <= q < out@.len() ==> text_order(album_sort_key(x, fold_case), album_sort_key(#[trigger] out@[q], fold_case)) < 0,
            ensures
                p <= out@.len(),
                forall|q: int| p <= q < out@.len() ==> text_order(album_sort_key(x, fold_case), album_sort_key(#[trigger] out@[q], fold_case)) < 0,
                p == 0 || text_order(album_sort_key(x, fold_case), album_sort_key(out@[p - 1], fold_case)) >= 0,
            decreases p,
        {
            let yk = album_key_exec(&out[p - 1], fold_case);
            if compare_text(&xk, &yk) >= 0 {
                break;
            }
            p = p - 1;
        }
        let ghost o = out@;
        out.insert(p, x);
        proof {
            assert(out@.remove(p as int) =~= o);
            out@.to_multiset_ensures();
            assert(out@.remove(p as int).to_multiset() =~= out@.to_multiset().remove(x));
            assert(out@[p as int] == x);
            assert(out@.contains(x));
            assert(out@.to_multiset().count(x) > 0);
            assert(o.to_multiset().insert(x) =~= out@.to_multiset());
            assert forall|a: int, b: int| 0 <= a < b < out@.len() implies text_order(
                album_sort_key(#[trigger] out@[a], fold_case),
                album_sort_key(#[trigger] out@[b], fold_case),
            ) <= 0 by {
                if b < p {
                    assert(out@[a] == o[a] && out@[b] == o[b]);
                } else if b == p {
                    assert(out@[a] == o[a]);
                    crate::sort::lemma_text_order_antisymmetric(album_sort_key(x, fold_case), album_sort_key(o[p - 1], fold_case));
                    if a < p - 1 {
                        assert(text_order(album_sort_key(o[a], fold_case), album_sort_key(o[p - 1], fold_case)) <= 0);
                        crate::sort::lemma_text_order_transitive(
                            album_sort_key(o[a], fold_case),
                            album_sort_key(o[p - 1], fold_case),
                            album_sort_key(x, fold_case),
                        );
                    }
                } else if a == p {
                    assert(out@[b] == o[b - 1]);
                } else if a < p {
                    assert(out@[a] == o[a] && out@[b] == o[b - 1]);
                } else {
                    assert(out@[a] == o[a - 1] && out@[b] == o[b - 1]);
                }
            }
            assert forall|k: int| 0 <= k < out@.len() implies has_artists(#[trigger] out@[k]) by {
                if k < p {
                    assert(out@[k] == o[k]);
                } else if k > p {
                    assert(out@[k] == o[k - 1]);
                }
            }
        }
        i = i + 1;
    }
    assert(orig.take(i as int) =~= orig);
    out
}

/// Every track that was saved counts as saved afterwards (by id).
pub proof fn lemma_saved_tracks_are_saved(store: Seq<Track>, new: Seq<Track>, k: int)
    requires
        0 <= k < new.len(),
    ensures
        any(fresh_tracks(store, new) + store, has_track_id(opt_view(new[k].id))),
    decreases new.len(),
{
    let id = opt_view(new[k].id);
    let f = fresh_tracks(store, new);
    lemma_any_concat(f, store, id);
    if k < new.len() - 1 {
        assert(new.drop_last()[k] == new[k]);
        lemma_saved_tracks_are_saved(store, new.drop_last(), k);
        let f0 = fresh_tracks(store, new.drop_last());
        lemma_any_concat(f0, store, id);
        if any(f0, has_track_id(id)) {
            let j = choose|j: int| 0 <= j < f0.len() && has_track_id(id)(#[trigger] f0[j]);
            if f != f0 {
                assert(f == f0.push(new.last()));
                assert(f[j] == f0[j]);
            }
        }
    } else {
        let f0 = fresh_tracks(store, new.drop_last());
        if !(any(store, has_track_id(id)) || any(f0, has_track_id(id))) {
            assert(f == f0.push(new.last()));
            assert(has_track_id(id)(f[f0.len() as int]));
        } else if any(f0, has_track_id(id)) {
            let j = choose|j: int| 0 <= j < f0.len() && has_track_id(id)(#[trigger] f0[j]);
            assert(f[j] == f0[j]);
        }
    }
}

/// No track with the id of an unsaved track stays saved.
pub proof fn lemma_unsaved_tracks_are_gone(store: Seq<Track>, removed: Seq<Track>, k: int)
    requires
        0 <= k < removed.len(),
    ensures
        !any(kept_tracks(store, removed), has_track_id(opt_view(removed[k].id))),
    decreases store.len(),
{
    let id = opt_view(removed[k].id);
    assert(has_track_id(id)(removed[k]));
    if store.len() > 0 {
        lemma_unsaved_tracks_are_gone(store.drop_last(), removed, k);
        let k0 = kept_tracks(store.drop_last(), removed);
        let r = kept_tracks(store, removed);
        if r != k0 {
            assert(r == k0.push(store.last()));
            assert(!any(removed, has_track_id(opt_view(store.last().id))));
            if any(r, has_track_id(id)) {
                let j = choose|j: int| 0 <= j < r.len() && has_track_id(id)(#[trigger] r[j]);
                if j < k0.len() {
                    assert(r[j] == k0[j]);
                } else {
                    assert(r[j] == store.last());
                }
            }
        }
    }
}

proof fn lemma_all_fresh(store: Seq<Track>, ts: Seq<Track>)
    requires
        forall|i: int| 0 <= i < ts.len() ==> !any(store, has_track_id(opt_view(#[trigger] ts[i].id))),
        forall|i: int, j: int|
            0 <= i < j < ts.len() ==> opt_view(#[trigger] ts[i].id) != opt_view(#[trigger] ts[j].id),
    ensures
        fresh_tracks(store, ts) == ts,
    decreases ts.len(),
{
    if ts.len() > 0 {
        let d = ts.drop_last();
        assert forall|i: int| 0 <= i < d.len() implies !any(store, has_track_id(opt_view(#[trigger] d[i].id))) by {
            assert(d[i] == ts[i]);
        }
        assert forall|i: int, j: int| 0 <= i < j < d.len() implies opt_view(#[trigger] d[i].id) != opt_view(
            #[trigger] d[j].id,
        ) by {
            assert(d[i] == ts[i] && d[j] == ts[j]);
        }
        lemma_all_fresh(store, d);
        let id = opt_view(ts.last().id);
        assert(!any(store, has_track_id(id)));
        if any(d, has_track_id(id)) {
            let k = choose|k: int| 0 <= k < d.len() && has_track_id(id)(#[trigger] d[k]);
            assert(d[k] == ts[k]);
            assert(opt_view(ts[k].id) != opt_view(ts[ts.len() - 1].id));
        }
        assert(d.push(ts.last()) =~= ts);
    }
}

proof fn lemma_kept_concat(a: Seq<Track>, b: Seq<Track>, removed: Seq<Track>)
    ensures
        kept_tracks(a + b, removed) == kept_tracks(a, removed) + kept_tracks(b, removed),
    decreases b.len(),
{
    if b.len() == 0 {
        assert(a + b =~= a);
        assert(kept_tracks(a, removed) + kept_tracks(b, removed) =~= kept_tracks(a, removed));
    } else {
        lemma_kept_concat(a, b.drop_last(), removed);
        assert((a + b).drop_last() =~= a + b.drop_last());
        assert((a + b).last() == b.last());
        let ka = kept_tracks(a, removed);
        let kb = kept_tracks(b.drop_last(), removed);
        assert((ka + kb).push(b.last()) =~= ka + kb.push(b.last()));
    }
}

proof fn lemma_kept_none(s: Seq<Track>, removed: Seq<Track>)
    requires
        forall|i: int| 0 <= i < s.len() ==> any(removed, has_track_id(opt_view(#[trigger] s[i].id))),
    ensures
        kept_tracks(s, removed) == Seq::<Track>::empty(),
    decreases s.len(),
{
    if s.len() > 0 {
        assert forall|i: int| 0 <= i < s.drop_last().len() implies any(
            removed,
            has_track_id(opt_view(#[trigger] s.drop_last()[i].id)),
        ) by {
            assert(s.drop_last()[i] == s[i]);
        }
        lemma_kept_none(s.drop_last(), removed);
        assert(any(removed, has_track_id(opt_view(s[s.len() - 1].id))));
    }
}

proof fn lemma_kept_all(s: Seq<Track>, removed: Seq<Track>)
    requires
        forall|i: int| 0 <= i < s.len() ==> !any(removed, has_track_id(opt_view(#[trigger] s[i].id))),
    ensures
        kept_tracks(s, removed) == s,
    decreases s.len(),
{
    if s.len() > 0 {
        assert forall|i: int| 0 <= i < s.drop_last().len() implies !any(
            removed,
            has_track_id(opt_view(#[trigger] s.drop_last()[i].id)),
        ) by {
            assert(s.drop_last()[i] == s[i]);
        }
        lemma_kept_all(s.drop_last(), removed);
        assert(!any(removed, has_track_id(opt_view(s[s.len() - 1].id))));
        assert(s.drop_last().push(s.last()) =~= s);
    }
}

/// Unsaving the tracks just saved gives the saved tracks back, when no two
/// of them share an id and none was saved before.
pub proof fn lemma_unsave_undoes_save(store: Seq<Track>, ts: Seq<Track>)
    requires
        forall|i: int| 0 <= i < ts.len() ==> !any(store, has_track_id(opt_view(#[trigger] ts[i].id))),
        forall|i: int, j: int|
            0 <= i < j < ts.len() ==> opt_view(#[trigger] ts[i].id) != opt_view(#[trigger] ts[j].id),
    ensures
        kept_tracks(fresh_tracks(store, ts) + store, ts) == store,
{
    lemma_all_fresh(store, ts);
    lemma_kept_concat(ts, store, ts);
    assert forall|i: int| 0 <= i < ts.len() implies any(ts, has_track_id(opt_view(#[trigger] ts[i].id))) by {
        assert(has_track_id(opt_view(ts[i].id))(ts[i]));
    }
    lemma_kept_none(ts, ts);
    assert forall|j: int| 0 <= j < store.len() implies !any(ts, has_track_id(opt_view(#[trigger] store[j].id))) by {
        if any(ts, has_track_id(opt_view(store[j].id))) {
            let i = choose|i: int| 0 <= i < ts.len() && has_track_id(opt_view(store[j].id))(#[trigger] ts[i]);
            assert(has_track_id(opt_view(ts[i].id))(store[j]));
            assert(any(store, has_track_id(opt_view(ts[i].id))));
        }
    }
    lemma_kept_all(store, ts);
    assert(Seq::<Track>::empty() + store =~= store);
}

/// An album saved in a loaded library counts as saved afterwards, whether it
/// was added or one with its id was saved already.
pub proof fn lemma_saved_album_is_saved(before: Seq<Album>, after: Seq<Album>, album: Album)
    requires
        first_index(before, has_album_id(opt_view(album.id))) is None ==> after.to_multiset()
            == before.push(album).to_multiset(),
        first_index(before, has_album_id(opt_view(album.id))) is Some ==> after == before,
    ensures
        first_index(after, has_album_id(opt_view(album.id))) is Some,
{
    let p = has_album_id(opt_view(album.id));
    lemma_first_index_facts(after, p);
    if first_index(before, p) is None {
        let pushed = before.push(album);
        pushed.to_multiset_ensures();
        after.to_multiset_ensures();
        assert(pushed[before.len() as int] == album);
        assert(pushed.contains(album));
        assert(pushed.to_multiset().count(album) > 0);
        assert(after.to_multiset().count(album) > 0);
        assert(after.contains(album));
        let k = choose|k: int| 0 <= k < after.len() && after[k] == album;
        assert(p(after[k]));
    }
}

proof fn lemma_albums_without_lack_id(store: Seq<Album>, id: Option<Seq<char>>)
    ensures
        forall|j: int| 0 <= j < albums_without(store, id).len() ==> opt_view(
            #[trigger] albums_without(store, id)[j].id,
        ) != id,
    decreases store.len(),
{
    if store.len() > 0 {
        lemma_albums_without_lack_id(store.drop_last(), id);
    }
}

/// After unsaving an album in a loaded library, no album with its id is saved.
pub proof fn lemma_unsaved_album_is_gone(store: Seq<Album>, id: Option<Seq<char>>)
    ensures
        first_index(albums_without(store, id), has_album_id(id)) is None,
{
    let r = albums_without(store, id);
    lemma_albums_without_lack_id(store, id);
    lemma_first_index_facts(r, has_album_id(id));
    if first_index(r, has_album_id(id)) is Some {
        let i = first_index(r, has_album_id(id)).unwrap();
        assert(opt_view(r[i].id) != id);
    }
}

proof fn lemma_followed_views_keep(vs: Seq<(Option<Seq<char>>, Seq<char>, Option<Seq<char>>, bool)>, k: int)
    requires
        0 <= k < vs.len(),
        vs[k].3,
    ensures
        followed_views(vs).contains(vs[k]),
    decreases vs.len(),
{
    if k < vs.len() - 1 {
        assert(vs.drop_last()[k] == vs[k]);
        lemma_followed_views_keep(vs.drop_last(), k);
        let f = followed_views(vs.drop_last());
        let j = choose|j: int| 0 <= j < f.len() && f[j] == vs[k];
        if vs.last().3 {
            assert(followed_views(vs)[j] == f[j]);
        }
    } else {
        let f = followed_views(vs.drop_last());
        assert(followed_views(vs)[f.len() as int] == vs[k]);
    }
}

proof fn lemma_added_artists_keep(vs: Seq<(Option<Seq<char>>, Seq<char>, Option<Seq<char>>, bool)>, pairs: Seq<(Seq<char>, Seq<char>)>, v: (Option<Seq<char>>, Seq<char>, Option<Seq<char>>, bool))
    requires
        vs.contains(v),
    ensures
        add_pair_artists(vs, pairs).contains(v),
    decreases pairs.len(),
{
    if pairs.len() > 0 {
        lemma_added_artists_keep(vs, pairs.drop_last(), v);
        let b = add_pair_artists(vs, pairs.drop_last());
        let j = choose|j: int| 0 <= j < b.len() && b[j] == v;
        let (id, name) = pairs.last();
        if !(exists|k: int| 0 <= k < b.len() && view_key(#[trigger] b[k]) == id) {
            assert(b.push((Some(id), name, None, false))[j] == v);
        }
    }
}

/// Following an artist in a loaded library makes it followed: afterwards an
/// artist with its id is followed.
pub proof fn lemma_followed_artist_is_followed(
    before: Seq<(Option<Seq<char>>, Seq<char>, Option<Seq<char>>, bool)>,
    after: Seq<Artist>,
    artist: Artist,
    tracks: Seq<Track>,
)
    requires
        artists_rebuilt(
            after,
            with_followed(before, first_index(before, view_has_id(opt_view(artist.id))), artist_view(artist)),
            tracks,
        ),
    ensures
        any(after, followed_with_id(opt_view(artist.id))),
{
    let id = opt_view(artist.id);
    let pos = first_index(before, view_has_id(id));
    let w = with_followed(before, pos, artist_view(artist));
    lemma_first_index_facts(before, view_has_id(id));
    let k: int = match pos {
        Some(i) => i,
        None => before.len() as int,
    };
    assert(0 <= k < w.len() && w[k].0 == id && w[k].3);
    lemma_followed_views_keep(w, k);
    lemma_added_artists_keep(followed_views(w), track_artist_pairs(tracks), w[k]);
    let all = library_artists(w, tracks);
    let views = artist_views(after);
    all.to_multiset_ensures();
    views.to_multiset_ensures();
    assert(all.contains(w[k]));
    assert(all.to_multiset().count(w[k]) > 0);
    assert(views.to_multiset().count(w[k]) > 0);
    assert(views.contains(w[k]));
    let j = choose|j: int| 0 <= j < views.len() && views[j] == w[k];
    assert(views[j] == artist_view(after[j]));
    assert(followed_with_id(id)(after[j]));
}

proof fn lemma_followed_views_from(vs: Seq<(Option<Seq<char>>, Seq<char>, Option<Seq<char>>, bool)>, x: (Option<Seq<char>>, Seq<char>, Option<Seq<char>>, bool))
    requires
        followed_views(vs).contains(x),
    ensures
        vs.contains(x),
    decreases vs.len(),
{
    let f = followed_views(vs.drop_last());
    if vs.len() > 0 {
        if f.contains(x) {
            lemma_followed_views_from(vs.drop_last(), x);
            let j = choose|j: int| 0 <= j < vs.drop_last().len() && vs.drop_last()[j] == x;
            assert(vs[j] == x);
        } else {
            let g = followed_views(vs);
            let j = choose|j: int| 0 <= j < g.len() && g[j] == x;
            if vs.last().3 {
                if j < f.len() {
                    assert(g[j] == f[j]);
                }
                assert(vs[vs.len() - 1] == x);
            }
        }
    }
}

proof fn lemma_added_artists_from(vs: Seq<(Option<Seq<char>>, Seq<char>, Option<Seq<char>>, bool)>, pairs: Seq<(Seq<char>, Seq<char>)>, x: (Option<Seq<char>>, Seq<char>, Option<Seq<char>>, bool))
    requires
        add_pair_artists(vs, pairs).contains(x),
    ensures
        vs.contains(x) || !x.3,
    decreases pairs.len(),
{
    if pairs.len() > 0 {
        let b = add_pair_artists(vs, pairs.drop_last());
        if b.contains(x) {
            lemma_added_artists_from(vs, pairs.drop_last(), x);
        } else {
            let g = add_pair_artists(vs, pairs);
            let j = choose|j: int| 0 <= j < g.len() && g[j] == x;
            let (id, name) = pairs.last();
            if !(exists|k: int| 0 <= k < b.len() && view_key(#[trigger] b[k]) == id) {
                if j < b.len() {
                    assert(g[j] == b[j]);
                }
            }
        }
    }
}

/// Unfollowing an artist in a loaded library, where no two artists share its
/// id, leaves no artist with its id followed.
pub proof fn lemma_unfollowed_artist_is_not_followed(
    before: Seq<(Option<Seq<char>>, Seq<char>, Option<Seq<char>>, bool)>,
    after: Seq<Artist>,
    artist: Artist,
    tracks: Seq<Track>,
)
    requires
        forall|i: int, j: int|
            0 <= i < before.len() && 0 <= j < before.len() && before[i].0 == opt_view(artist.id)
                && before[j].0 == opt_view(artist.id) ==> i == j,
        artists_rebuilt(
            after,
            match first_index(before, view_has_id(opt_view(artist.id))) {
                Some(i) => before.update(i, (before[i].0, before[i].1, before[i].2, false)),
                None => before,
            },
            tracks,
        ),
    ensures
        !any(after, followed_with_id(opt_view(artist.id))),
{
    let id = opt_view(artist.id);
    let pos = first_index(before, view_has_id(id));
    let u = match pos {
        Some(i) => before.update(i, (before[i].0, before[i].1, before[i].2, false)),
        None => before,
    };
    lemma_first_index_facts(before, view_has_id(id));
    assert forall|k: int| 0 <= k < u.len() && u[k].0 == id implies !u[k].3 by {
        if let Some(i) = pos {
            assert(before[i].0 == id);
            assert(k == i);
        } else {
            assert(!view_has_id(id)(before[k]));
        }
    }
    let all = library_artists(u, tracks);
    let views = artist_views(after);
    all.to_multiset_ensures();
    views.to_multiset_ensures();
    if any(after, followed_with_id(id)) {
        let j = choose|j: int| 0 <= j < after.len() && followed_with_id(id)(#[trigger] after[j]);
        let x = views[j];
        assert(x == artist_view(after[j]));
        assert(views.contains(x));
        assert(views.to_multiset().count(x) > 0);
        assert(all.to_multiset().count(x) > 0);
        assert(all.contains(x));
        lemma_added_artists_from(followed_views(u), track_artist_pairs(tracks), x);
        lemma_followed_views_from(u, x);
        let k = choose|k: int| 0 <= k < u.len() && u[k] == x;
        assert(u[k].0 == id && u[k].3);
    }
}

/// The ids of `initial` that are left once each id of `remote`, in turn, has
/// taken away the first equal one: the playlists no longer listed remotely.
pub open spec fn stale_ids(initial: Seq<Seq<char>>, remote: Seq<Seq<char>>) -> Seq<Seq<char>>
    decreases remote.len(),
{
    if remote.len() == 0 {
        initial
    } else {
        let s = stale_ids(initial, remote.drop_last());
        match first_index(s, |x: Seq<char>| x == remote.last()) {
            Some(i) => s.remove(i),
            None => s,
        }
    }
}

/// `ps` after removing, for each of `stale` in turn, the first playlist with
/// that id.
pub open spec fn without_stale(ps: Seq<Playlist>, stale: Seq<Seq<char>>) -> Seq<Playlist>
    decreases stale.len(),
{
    if stale.len() == 0 {
        ps
    } else {
        let p = without_stale(ps, stale.drop_last());
        match first_index(p, has_playlist_id(stale.last())) {
            Some(i) => p.remove(i),
            None => p,
        }
    }
}

/// Where a playlist comes in the remote order: after those that are not
/// listed (0), by its first place in `order` (counted from 1).
pub open spec fn order_key(order: Seq<Seq<char>>, p: Playlist) -> int {
    match first_index(order, |x: Seq<char>| x == p.id@) {
        Some(i) => i + 1,
        None => 0,
    }
}

pub open spec fn in_remote_order(order: Seq<Seq<char>>, ps: Seq<Playlist>) -> bool {
    forall|i: int, j: int|
        0 <= i < j < ps.len() ==> order_key(order, #[trigger] ps[i]) <= order_key(order, #[trigger] ps[j])
}

/// Whether a playlist has the place `k` in the remote order.
pub open spec fn at_place(order: Seq<Seq<char>>, k: int) -> spec_fn(Playlist) -> bool {
    |p: Playlist| order_key(order, p) == k
}

fn text_position(s: &Vec<String>, x: &str) -> (r: Option<usize>)
    ensures
        r matches Some(i) ==> i < s@.len() && first_index(views_of(s@), |y: Seq<char>| y == x@) == Some(i as int),
        r is None ==> first_index(views_of(s@), |y: Seq<char>| y == x@) is None,
{
    let ghost pred = |y: Seq<char>| y == x@;
    let ghost vs = views_of(s@);
    let want = chars_of(x);
    let mut i: usize = 0;
    while i < s.len()
        invariant
            i <= s@.len(),
            want@ == x@,
            vs == views_of(s@),
            pred == (|y: Seq<char>| y == x@),
            forall|j: int| 0 <= j < i ==> !pred(#[trigger] vs[j]),
        decreases s@.len() - i,
    {
        let c = chars_of(s[i].as_str());
        assert(vs[i as int] == s@[i as int]@);
        if chars_eq(&c, &want) {
            proof {
                lemma_first_index(vs, pred, i as int);
            }
            return Some(i);
        }
        i = i + 1;
    }
    proof {
        lemma_first_index(vs, pred, i as int);
    }
    None
}

/// The ids of the saved playlists `initial` that the remote list `remote_ids`
/// (in order) does not account for (see `stale_ids`).
pub fn stale_playlist_ids(initial: &Vec<Playlist>, remote_ids: &Vec<String>) -> (r: Vec<String>)
    ensures
        views_of(r@) == stale_ids(initial@.map_values(|p: Playlist| p.id@), views_of(remote_ids@)),
{
    let mut stale: Vec<String> = Vec::new();
    let mut i: usize = 0;
    while i < initial.len()
        invariant
            i <= initial@.len(),
            views_of(stale@) == initial@.take(i as int).map_values(|p: Playlist| p.id@),
        decreases initial@.len() - i,
    {
        let ghost before = stale@;
        stale.push(initial[i].id.clone());
        assert(stale@ == before.push(initial@[i as int].id));
        assert(views_of(stale@) =~= views_of(before).push(initial@[i as int].id@));
        assert(initial@.take(i + 1).map_values(|p: Playlist| p.id@) =~= initial@.take(i as int).map_values(
            |p: Playlist| p.id@,
        ).push(initial@[i as int].id@));
        i = i + 1;
    }
    assert(initial@.take(initial@.len() as int) =~= initial@);
    let ghost ids = initial@.map_values(|p: Playlist| p.id@);
    let ghost rs = views_of(remote_ids@);
    let mut j: usize = 0;
    assert(rs.take(0) =~= Seq::<Seq<char>>::empty());
    while j < remote_ids.len()
        invariant
            j <= remote_ids@.len(),
            rs == views_of(remote_ids@),
            views_of(stale@) == stale_ids(ids, rs.take(j as int)),
        decreases remote_ids@.len() - j,
    {
        assert(rs.take(j + 1).drop_last() =~= rs.take(j as int));
        assert(rs.take(j + 1).last() == remote_ids@[j as int]@);
        match text_position(&stale, remote_ids[j].as_str()) {
            Some(k) => {
                let ghost before = views_of(stale@);
                stale.remove(k);
                assert(views_of(stale@) =~= before.remove(k as int));
            },
            None => {},
        }
        j = j + 1;
    }
    assert(rs.take(remote_ids@.len() as int) =~= rs);
    stale
}

/// The place that a position in the remote order gives.
pub open spec fn key_of(pos: Option<usize>) -> int {
    match pos {
        Some(q) => q + 1,
        None => 0,
    }
}

fn key_le(a: Option<usize>, b: Option<usize>) -> (r: bool)
    ensures
        r == (key_of(a) <= key_of(b)),
{
    match (a, b) {
        (None, _) => true,
        (Some(_), None) => false,
        (Some(x), Some(y)) => x <= y,
    }
}

impl Library {
    /// Removes, for each id of `stale` in turn, the first saved playlist with
    /// that id.
    pub fn remove_stale_playlists(&mut self, stale: &Vec<String>)
        ensures
            final(self).playlists@ == without_stale(old(self).playlists@, views_of(stale@)),
            final(self).tracks == old(self).tracks,
            final(self).albums == old(self).albums,
            final(self).artists == old(self).artists,
            final(self).is_done == old(self).is_done,
    {
        let ghost ss = views_of(stale@);
        let mut j: usize = 0;
        assert(ss.take(0) =~= Seq::<Seq<char>>::empty());
        while j < stale.len()
            invariant
                j <= stale@.len(),
                ss == views_of(stale@),
                self.playlists@ == without_stale(old(self).playlists@, ss.take(j as int)),
                self.tracks == old(self).tracks,
                self.albums == old(self).albums,
                self.artists == old(self).artists,
                self.is_done == old(self).is_done,
            decreases stale@.len() - j,
        {
            assert(ss.take(j + 1).drop_last() =~= ss.take(j as int));
            assert(ss.take(j + 1).last() == stale@[j as int]@);
            match playlist_position(&self.playlists, stale[j].as_str()) {
                Some(i) => {
                    self.playlists.remove(i);
                },
                None => {},
            }
            j = j + 1;
        }
        assert(ss.take(stale@.len() as int) =~= ss);
    }

    /// Orders the saved playlists as the remote list `order` does, stably:
    /// playlists it does not list come first.
    pub fn order_playlists(&mut self, order: &Vec<String>)
        ensures
            final(self).playlists@.to_multiset() == old(self).playlists@.to_multiset(),
            in_remote_order(views_of(order@), final(self).playlists@),
            forall|k: int|
                #[trigger] final(self).playlists@.filter(at_place(views_of(order@), k)) == old(
                    self,
                ).playlists@.filter(at_place(views_of(order@), k)),
            final(self).tracks == old(self).tracks,
            final(self).albums == old(self).albums,
            final(self).artists == old(self).artists,
            final(self).is_done == old(self).is_done,
    {
        broadcast use vstd::seq_lib::group_to_multiset_ensures;

        let ghost os = views_of(order@);
        let mut src: Vec<Playlist> = Vec::new();
        std::mem::swap(&mut self.playlists, &mut src);
        let ghost orig = src@;
        let n = src.len();
        let mut out: Vec<Playlist> = Vec::new();
        let mut i: usize = 0;
        assert(orig.skip(0) =~= orig);
        assert(orig.take(0) =~= Seq::<Playlist>::empty());
        proof {
            reveal(Seq::filter);
        }
        while src.len() > 0
            invariant
                i <= orig.len(),
                orig.len() == n,
                os == views_of(order@),
                src@ == orig.skip(i as int),
                src@.len() == orig.len() - i,
                out@.to_multiset() == orig.take(i as int).to_multiset(),
                in_remote_order(os, out@),
                forall|k: int| #[trigger] out@.filter(at_place(os, k)) == orig.take(i as int).filter(at_place(os, k)),
                self.tracks == old(self).tracks,
                self.albums == old(self).albums,
                self.artists == old(self).artists,
                self.is_done == old(self).is_done,
            decreases src@.len(),
        {
            let x = src.remove(0);
            assert(x == orig[i as int]);
            assert(src@ =~= orig.skip(i + 1));
            assert(orig.take(i + 1) =~= orig.take(i as int).push(x));
            proof {
                orig.take(i as int).to_multiset_ensures();
            }
            assert(orig.take(i as int).push(x).to_multiset() =~= orig.take(i as int).to_multiset().insert(x));
            let kx = text_position(order, x.id.as_str());
            assert(key_of(kx) == order_key(os, x));
            let mut p: usize = out.len();
            while p > 0
                invariant
                    p <= out@.len(),
                    os == views_of(order@),
                    key_of(kx) == order_key(os, x),
                    forall|q: int| p <= q < out@.len() ==> key_of(kx) < order_key(os, #[trigger] out@[q]),
                ensures
                    p <= out@.len(),
                    forall|q: int| p <= q < out@.len() ==> key_of(kx) < order_key(os, #[trigger] out@[q]),
                    p == 0 || order_key(os, out@[p - 1]) <= key_of(kx),
                decreases p,
            {
                let kp = text_position(order, out[p - 1].id.as_str());
                if key_le(kp, kx) {
                    break;
                }
                p = p - 1;
            }
            let ghost o = out@;
            out.insert(p, x);
            proof {
                assert(out@.remove(p as int) =~= o);
                out@.to_multiset_ensures();
                assert(out@.remove(p as int).to_multiset() =~= out@.to_multiset().remove(x));
                assert(out@[p as int] == x);
                assert(out@.contains(x));
                assert(out@.to_multiset().count(x) > 0);
                assert(o.to_multiset().insert(x) =~= out@.to_multiset());
                assert forall|a: int, b: int| 0 <= a < b < out@.len() implies order_key(os, #[trigger] out@[a])
                    <= order_key(os, #[trigger] out@[b]) by {
                    if b < p {
                        assert(out@[a] == o[a] && out@[b] == o[b]);
                    } else if b == p {
                        assert(out@[a] == o[a]);
                        if a < p - 1 {
                            assert(order_key(os, o[a]) <= order_key(os, o[p - 1]));
                        }
                    } else if a == p {
                        assert(out@[b] == o[b - 1]);
                    } else if a < p {
                        assert(out@[a] == o[a] && out@[b] == o[b - 1]);
                    } else {
                        assert(out@[a] == o[a - 1] && out@[b] == o[b - 1]);
                    }
                }
                assert forall|k: int| #[trigger] out@.filter(at_place(os, k)) == orig.take(i + 1).filter(
                    at_place(os, k),
                ) by {
                    let pred = at_place(os, k);
                    let head = o.take(p as int);
                    let tail = o.skip(p as int);
                    assert(out@ =~= head.push(x) + tail);
                    assert(o =~= head + tail);
                    Seq::filter_distributes_over_add(head.push(x), tail, pred);
                    Seq::filter_distributes_over_add(head, tail, pred);
                    lemma_playlist_filter_push(head, x, pred);
                    lemma_playlist_filter_push(orig.take(i as int), x, pred);
                    if pred(x) {
                        assert forall|q: int| 0 <= q < tail.len() implies !pred(#[trigger] tail[q]) by {
                            assert(tail[q] == o[p + q]);
                        }
                        lemma_playlist_filter_none(tail, pred);
                        assert(head.filter(pred) + Seq::<Playlist>::empty() =~= head.filter(pred));
                        assert(head.filter(pred).push(x) + Seq::<Playlist>::empty() =~= head.filter(
                            pred,
                        ).push(x));
                    }
                }
            }
            i = i + 1;
        }
        assert(orig.take(i as int) =~= orig);
        self.playlists = out;
    }
}

proof fn lemma_playlist_filter_push(s: Seq<Playlist>, x: Playlist, pred: spec_fn(Playlist) -> bool)
    ensures
        s.push(x).filter(pred) == (if pred(x) {
            s.filter(pred).push(x)
        } else {
            s.filter(pred)
        }),
{
    reveal(Seq::filter);
    assert(s.push(x).drop_last() =~= s);
}

proof fn lemma_playlist_filter_none(s: Seq<Playlist>, pred: spec_fn(Playlist) -> bool)
    requires
        forall|k: int| 0 <= k < s.len() ==> !pred(#[trigger] s[k]),
    ensures
        s.filter(pred) == Seq::<Playlist>::empty(),
    decreases s.len(),
{
    reveal(Seq::filter);
    if s.len() > 0 {
        lemma_playlist_filter_none(s.drop_last(), pred);
    }
}

} // verus!
