//! Lyrics of the track now playing: the lines with their start times, the
//! state the lyrics view shows, and the decisions around fetching them (a
//! cache of results by track URI and the fetches under way).
use vstd::prelude::*;

use crate::model::{Playable, Track};
use crate::num::{parse_int_spec, parse_u64};
use crate::spotify_url::{lowercase, to_lowercase};
use crate::text::{chars_eq_str, chars_of, contains_str, has_infix, join, join_seq, string_of, views_of};

verus! {

/// How the lines of a text are timed.
#[derive(Clone, Copy, Debug, PartialEq, Eq, Structural)]
pub enum SyncType {
    Unsynced,
    LineSynced,
}

/// A line of lyrics and the time, in milliseconds, at which it starts.
#[derive(Clone, Debug)]
pub struct LyricLine {
    pub start_ms: u64,
    pub text: String,
}

/// The lyrics of a track.
#[derive(Clone, Debug)]
pub struct TrackLyrics {
    pub lines: Vec<LyricLine>,
    pub sync_type: SyncType,
    pub provider: String,
}

/// A line as the lyrics service sends it: its start time as text.
#[derive(Clone, Debug)]
pub struct RawLyricLine {
    pub start_time_ms: String,
    pub words: String,
}

/// Lyrics as the lyrics service sends them.
#[derive(Clone, Debug)]
pub struct RawLyrics {
    pub lines: Vec<RawLyricLine>,
    pub sync_type: SyncType,
    pub provider_display_name: String,
}

/// The number of leading lines that have started at `position_ms`.
pub open spec fn started_count(lines: Seq<LyricLine>, position_ms: u64) -> nat
    decreases lines.len(),
{
    if lines.len() > 0 && lines[0].start_ms <= position_ms {
        1 + started_count(lines.drop_first(), position_ms)
    } else {
        0
    }
}

/// Lines ordered by start time.
pub open spec fn by_start(lines: Seq<LyricLine>) -> bool {
    forall|i: int, j: int| 0 <= i < j < lines.len() ==> #[trigger] lines[i].start_ms <= #[trigger] lines[j].start_ms
}

/// The lines kept from what the service sent: those whose start time reads
/// as a number and whose words are not empty, in the order sent.
pub open spec fn kept_lines(raw: Seq<RawLyricLine>) -> Seq<LyricLine>
    decreases raw.len(),
{
    if raw.len() == 0 {
        Seq::empty()
    } else {
        let before = kept_lines(raw.drop_last());
        let l = raw.last();
        match parse_int_spec(l.start_time_ms@, false, 0, 0xffff_ffff_ffff_ffff) {
            Ok(v) => if l.words@.len() > 0 {
                before.push(LyricLine { start_ms: v as u64, text: l.words })
            } else {
                before
            },
            Err(_) => before,
        }
    }
}

/// Whether a line starts at `t`.
pub open spec fn starts_at(t: u64) -> spec_fn(LyricLine) -> bool {
    |l: LyricLine| l.start_ms == t
}

pub open spec fn line_texts(lines: Seq<LyricLine>) -> Seq<Seq<char>> {
    lines.map_values(|l: LyricLine| l.text@)
}

proof fn lemma_started_count_bound(lines: Seq<LyricLine>, position_ms: u64)
    ensures
        started_count(lines, position_ms) <= lines.len(),
        forall|k: int|
            0 <= k < started_count(lines, position_ms) ==> #[trigger] lines[k].start_ms <= position_ms,
        started_count(lines, position_ms) < lines.len() ==> lines[started_count(lines, position_ms) as int].start_ms > position_ms,
    decreases lines.len(),
{
    if lines.len() > 0 && lines[0].start_ms <= position_ms {
        lemma_started_count_bound(lines.drop_first(), position_ms);
        assert forall|k: int| 0 <= k < started_count(lines, position_ms) implies #[trigger] lines[k].start_ms
            <= position_ms by {
            if k > 0 {
                assert(lines[k] == lines.drop_first()[k - 1]);
            }
        }
    }
}

impl TrackLyrics {
    /// Whether each line has its own start time.
    pub fn is_synced(&self) -> (r: bool)
        ensures
            r == (self.sync_type == SyncType::LineSynced),
    {
        matches!(self.sync_type, SyncType::LineSynced)
    }

    /// The line to highlight at `position_ms`: the last of the lines that have
    /// started (the first line before any has started), or 0 when there are
    /// no lines.
    pub fn active_line_index(&self, position_ms: u64) -> (r: usize)
        ensures
            self.lines@.len() == 0 ==> r == 0,
            self.lines@.len() > 0 ==> r == (if started_count(self.lines@, position_ms) == 0 {
                0
            } else {
                started_count(self.lines@, position_ms) - 1
            }),
    {
        if self.lines.len() == 0 {
            return 0;
        }
        let mut n: usize = 0;
        proof {
            lemma_started_count_bound(self.lines@, position_ms);
        }
        assert(self.lines@.skip(0) =~= self.lines@);
        while n < self.lines.len() && self.lines[n].start_ms <= position_ms
            invariant
                n <= self.lines@.len(),
                started_count(self.lines@, position_ms) == n + started_count(
                    self.lines@.skip(n as int),
                    position_ms,
                ),
            decreases self.lines@.len() - n,
        {
            assert(self.lines@.skip(n as int).drop_first() =~= self.lines@.skip(n + 1));
            n = n + 1;
        }
        if n == 0 {
            0
        } else {
            n - 1
        }
    }

    /// The lines one after the other, each on a line of its own.
    pub fn as_plain_text(&self) -> (r: String)
        ensures
            r@ == join_seq(line_texts(self.lines@), "\n"@),
    {
        let mut texts: Vec<String> = Vec::new();
        let mut i: usize = 0;
        while i < self.lines.len()
            invariant
                i <= self.lines@.len(),
                texts@.len() == i,
                forall|k: int| 0 <= k < i ==> #[trigger] texts@[k]@ == self.lines@[k].text@,
            decreases self.lines@.len() - i,
        {
            texts.push(self.lines[i].text.clone());
            i = i + 1;
        }
        assert(views_of(texts@) =~= line_texts(self.lines@));
        join(&texts, "\n")
    }

    /// The lyrics shown for what the service sent: the lines whose start time
    /// reads as a number and whose words are not empty, ordered by start time;
    /// lines that start together keep the order in which they were sent.
    pub fn from_lyrics(value: RawLyrics) -> (r: TrackLyrics)
        ensures
            by_start(r.lines@),
            r.lines@.to_multiset() == kept_lines(value.lines@).to_multiset(),
            forall|t: u64| #[trigger] r.lines@.filter(starts_at(t)) == kept_lines(value.lines@).filter(starts_at(t)),
            r.sync_type == value.sync_type,
            r.provider == value.provider_display_name,
    {
        let RawLyrics { lines: raw, sync_type, provider_display_name } = value;
        let kept = keep_lines(raw);
        let lines = sort_by_start(kept);
        TrackLyrics { lines, sync_type, provider: provider_display_name }
    }
}

/// The lines of `raw` that `kept_lines` keeps.
fn keep_lines(raw: Vec<RawLyricLine>) -> (r: Vec<LyricLine>)
    ensures
        r@ == kept_lines(raw@),
{
    let ghost orig = raw@;
    let n = raw.len();
    let mut src = raw;
    let mut out: Vec<LyricLine> = Vec::new();
    let mut i: usize = 0;
    assert(orig.skip(0) =~= orig);
    assert(orig.take(0) =~= Seq::<RawLyricLine>::empty());
    while src.len() > 0
        invariant
            i <= orig.len(),
            orig.len() == n,
            src@ == orig.skip(i as int),
            src@.len() == orig.len() - i,
            out@ == kept_lines(orig.take(i as int)),
        decreases src@.len(),
    {
        let l = src.remove(0);
        assert(l == orig[i as int]);
        assert(src@ =~= orig.skip(i + 1));
        assert(orig.take(i + 1).drop_last() =~= orig.take(i as int));
        assert(orig.take(i + 1).last() == l);
        let RawLyricLine { start_time_ms, words } = l;
        let start = chars_of(start_time_ms.as_str());
        match parse_u64(&start) {
            Ok(v) => {
                if words.as_str().unicode_len() > 0 {
                    out.push(LyricLine { start_ms: v, text: words });
                }
            },
            Err(_) => {},
        }
        i = i + 1;
    }
    assert(orig.take(i as int) =~= orig);
    out
}

proof fn lemma_line_filter_push(s: Seq<LyricLine>, x: LyricLine, pred: spec_fn(LyricLine) -> bool)
    ensures
        s.push(x).filter(pred) == (if pred(x) {
            s.filter(pred).push(x)
        } else {
            s.filter(pred)
        }),
{
    reveal(Seq::filter);
    assert(s.push(x).drop_last() =~= s);
}

proof fn lemma_line_filter_none(s: Seq<LyricLine>, pred: spec_fn(LyricLine) -> bool)
    requires
        forall|k: int| 0 <= k < s.len() ==> !pred(#[trigger] s[k]),
    ensures
        s.filter(pred) == Seq::<LyricLine>::empty(),
    decreases s.len(),
{
    reveal(Seq::filter);
    if s.len() > 0 {
        lemma_line_filter_none(s.drop_last(), pred);
    }
}

/// Inserting `x` after the lines that start no later, and before those that
/// start later, keeps the lines ordered and adds `x` last among the lines
/// that start with it.
proof fn lemma_insert_line(o: Seq<LyricLine>, x: LyricLine, p: int)
    requires
        by_start(o),
        0 <= p <= o.len(),
        forall|q: int| p <= q < o.len() ==> x.start_ms < #[trigger] o[q].start_ms,
        p == 0 || o[p - 1].start_ms <= x.start_ms,
    ensures
        by_start(o.insert(p, x)),
        forall|t: u64| #[trigger] o.insert(p, x).filter(starts_at(t)) == (if x.start_ms == t {
            o.filter(starts_at(t)).push(x)
        } else {
            o.filter(starts_at(t))
        }),
{
    let n = o.insert(p, x);
    assert forall|i: int, j: int| 0 <= i < j < n.len() implies #[trigger] n[i].start_ms
        <= #[trigger] n[j].start_ms by {
        if j < p {
            assert(n[i] == o[i] && n[j] == o[j]);
        } else if j == p {
            assert(n[i] == o[i]);
            if i < p - 1 {
                assert(o[i].start_ms <= o[p - 1].start_ms);
            }
        } else if i == p {
            assert(n[j] == o[j - 1]);
        } else if i < p {
            assert(n[i] == o[i] && n[j] == o[j - 1]);
        } else {
            assert(n[i] == o[i - 1] && n[j] == o[j - 1]);
        }
    }
    assert forall|t: u64| #[trigger] n.filter(starts_at(t)) == (if x.start_ms == t {
        o.filter(starts_at(t)).push(x)
    } else {
        o.filter(starts_at(t))
    }) by {
        let pred = starts_at(t);
        let head = o.take(p);
        let tail = o.skip(p);
        assert(n =~= head.push(x) + tail);
        assert(o =~= head + tail);
        Seq::filter_distributes_over_add(head.push(x), tail, pred);
        Seq::filter_distributes_over_add(head, tail, pred);
        lemma_line_filter_push(head, x, pred);
        if x.start_ms == t {
            assert forall|k: int| 0 <= k < tail.len() implies !pred(#[trigger] tail[k]) by {
                assert(tail[k] == o[p + k]);
            }
            lemma_line_filter_none(tail, pred);
            assert(head.filter(pred) + Seq::<LyricLine>::empty() =~= head.filter(pred));
            assert(head.filter(pred).push(x) + Seq::<LyricLine>::empty() =~= head.filter(
                pred,
            ).push(x));
        }
    }
}

/// `lines` ordered by start time, stably.
fn sort_by_start(lines: Vec<LyricLine>) -> (r: Vec<LyricLine>)
    ensures
        by_start(r@),
        r@.to_multiset() == lines@.to_multiset(),
        forall|t: u64| #[trigger] r@.filter(starts_at(t)) == lines@.filter(starts_at(t)),
{
    broadcast use vstd::seq_lib::group_to_multiset_ensures;

    let ghost orig = lines@;
    let n = lines.len();
    let mut src = lines;
    let mut out: Vec<LyricLine> = Vec::new();
    let mut i: usize = 0;
    assert(orig.skip(0) =~= orig);
    assert(orig.take(0) =~= Seq::<LyricLine>::empty());
    proof {
        reveal(Seq::filter);
    }
    while src.len() > 0
        invariant
            i <= orig.len(),
            orig.len() == n,
            src@ == orig.skip(i as int),
            src@.len() == orig.len() - i,
            out@.to_multiset() == orig.take(i as int).to_multiset(),
            by_start(out@),
            forall|t: u64| #[trigger] out@.filter(starts_at(t)) == orig.take(i as int).filter(starts_at(t)),
        decreases src@.len(),
    {
        let x = src.remove(0);
        assert(x == orig[i as int]);
        assert(src@ =~= orig.skip(i + 1));
        assert(orig.take(i + 1) =~= orig.take(i as int).push(x));
        proof {
            orig.take(i as int).to_multiset_ensures();
        }
        assert(orig.take(i as int).push(x).to_multiset() =~= orig.take(
            i as int,
        ).to_multiset().insert(x));
        let mut p: usize = out.len();
        while p > 0
            invariant
                p <= out@.len(),
                forall|q: int| p <= q < out@.len() ==> x.start_ms < #[trigger] out@[q].start_ms,
            ensures
                p <= out@.len(),
                forall|q: int| p <= q < out@.len() ==> x.start_ms < #[trigger] out@[q].start_ms,
                p == 0 || out@[p - 1].start_ms <= x.start_ms,
            decreases p,
        {
            if out[p - 1].start_ms <= x.start_ms {
                break;
            }
            p = p - 1;
        }
        let ghost o = out@;
        out.insert(p, x);
        proof {
            assert(out@.remove(p as int) =~= o);
            assert(out@[p as int] == x);
            out@.to_multiset_ensures();
            assert(out@.remove(p as int).to_multiset() =~= out@.to_multiset().remove(x));
            assert(out@.contains(x));
            assert(out@.to_multiset().count(x) > 0);
            assert(o.to_multiset().insert(x) =~= out@.to_multiset());
            lemma_insert_line(o, x, p as int);
            assert forall|t: u64| #[trigger] out@.filter(starts_at(t)) == orig.take(i + 1).filter(
                starts_at(t),
            ) by {
                lemma_line_filter_push(orig.take(i as int), x, starts_at(t));
            }
        }
        i = i + 1;
    }
    assert(orig.take(i as int) =~= orig);
    out
}

/// What the lyrics view shows about its track.
#[derive(Clone, Debug)]
pub enum LyricsDisplayStatus {
    Idle,
    Loading,
    Ready,
    NoLyrics,
    Error(String),
    NotAvailable,
}

/// The lyrics view: the track it is about, its lyrics once known, and the
/// message and status shown.
#[derive(Clone, Debug)]
pub struct LyricsViewState {
    pub track_uri: Option<String>,
    pub title: String,
    pub artists: String,
    pub album: String,
    pub lyrics: Option<TrackLyrics>,
    pub message: String,
    pub status: LyricsDisplayStatus,
}

impl LyricsViewState {
    /// Whether the view is about the track with URI `uri`.
    pub open spec fn shows(&self, uri: Seq<char>) -> bool {
        self.track_uri matches Some(u) && u@ == uri
    }
}

impl Default for LyricsViewState {
    /// No track, nothing shown, idle.
    fn default() -> (r: LyricsViewState)
        ensures
            r.track_uri is None,
            r.title@.len() == 0,
            r.artists@.len() == 0,
            r.album@.len() == 0,
            r.lyrics is None,
            r.message@.len() == 0,
            r.status is Idle,
    {
        LyricsViewState {
            track_uri: None,
            title: String::new(),
            artists: String::new(),
            album: String::new(),
            lyrics: None,
            message: String::new(),
            status: LyricsDisplayStatus::Idle,
        }
    }
}

/// Whether the text of an error from the lyrics service says that there are
/// no lyrics (it mentions `not found`, in any case).
pub open spec fn says_not_found(message: Seq<char>) -> bool {
    has_infix(lowercase(message), "not found"@)
}

/// Whether an error of the lyrics service means that the track has no lyrics.
pub fn is_not_found(message: &str) -> (r: bool)
    ensures
        r == says_not_found(message@),
{
    let lower = to_lowercase(&chars_of(message));
    contains_str(&lower, "not found")
}

/// The result of asking the lyrics service for a track's lyrics: the lyrics,
/// no lyrics when the service says they are not found, or its error.
pub fn fetch_result(reply: Result<RawLyrics, String>) -> (r: Result<Option<TrackLyrics>, String>)
    ensures
        match reply {
            Ok(raw) => r matches Ok(Some(l)) && l.sync_type == raw.sync_type && l.provider
                == raw.provider_display_name && by_start(l.lines@) && l.lines@.to_multiset()
                == kept_lines(raw.lines@).to_multiset(),
            Err(e) => if says_not_found(e@) {
                r == Ok::<Option<TrackLyrics>, String>(None)
            } else {
                r == Err::<Option<TrackLyrics>, String>(e)
            },
        },
{
    match reply {
        Ok(raw) => Ok(Some(TrackLyrics::from_lyrics(raw))),
        Err(e) => {
            if is_not_found(e.as_str()) {
                Ok(None)
            } else {
                Err(e)
            }
        },
    }
}

fn same_text(a: &String, b: &str) -> (r: bool)
    ensures
        r == (a@ == b@),
{
    let c = chars_of(a.as_str());
    chars_eq_str(&c, b)
}

fn shows_exec(state: &LyricsViewState, uri: &str) -> (r: bool)
    ensures
        r == state.shows(uri@),
{
    match &state.track_uri {
        Some(u) => same_text(u, uri),
        None => false,
    }
}

/// Shows `lyrics` for the track with URI `track_uri`, if the view is still
/// about it: no lyrics (or none with lines) give the `NoLyrics` status and
/// its message; otherwise the lyrics are shown, with no message.
pub fn apply_lyrics_result(state: &mut LyricsViewState, track_uri: &str, lyrics: Option<TrackLyrics>)
    ensures
        final(state).track_uri == old(state).track_uri,
        final(state).title == old(state).title,
        final(state).artists == old(state).artists,
        final(state).album == old(state).album,
        !old(state).shows(track_uri@) ==> *final(state) == *old(state),
        old(state).shows(track_uri@) ==> match lyrics {
            Some(l) if l.lines@.len() > 0 => {
                &&& final(state).lyrics == Some(l)
                &&& final(state).message@.len() == 0
                &&& final(state).status is Ready
            },
            _ => {
                &&& final(state).lyrics is None
                &&& final(state).message@ == "No lyrics available for this track."@
                &&& final(state).status is NoLyrics
            },
        },
{
    if !shows_exec(state, track_uri) {
        return;
    }
    match lyrics {
        Some(l) => {
            if l.lines.len() == 0 {
                state.lyrics = None;
                state.message = string_of("No lyrics available for this track.");
                state.status = LyricsDisplayStatus::NoLyrics;
            } else {
                state.lyrics = Some(l);
                state.message = String::new();
                state.status = LyricsDisplayStatus::Ready;
            }
        },
        None => {
            state.lyrics = None;
            state.message = string_of("No lyrics available for this track.");
            state.status = LyricsDisplayStatus::NoLyrics;
        },
    }
}

/// The lines, timing and provider of lyrics: what a copy keeps.
pub open spec fn lyrics_view(l: TrackLyrics) -> (Seq<LyricLine>, SyncType, Seq<char>) {
    (l.lines@, l.sync_type, l.provider@)
}

pub open spec fn opt_lyrics_view(o: Option<TrackLyrics>) -> Option<(Seq<LyricLine>, SyncType, Seq<char>)> {
    match o {
        Some(l) => Some(lyrics_view(l)),
        None => None,
    }
}

fn copy_lyrics(l: &TrackLyrics) -> (r: TrackLyrics)
    ensures
        lyrics_view(r) == lyrics_view(*l),
{
    let mut lines: Vec<LyricLine> = Vec::new();
    let mut i: usize = 0;
    while i < l.lines.len()
        invariant
            i <= l.lines@.len(),
            lines@ == l.lines@.take(i as int),
        decreases l.lines@.len() - i,
    {
        lines.push(LyricLine { start_ms: l.lines[i].start_ms, text: l.lines[i].text.clone() });
        assert(lines@ =~= l.lines@.take(i + 1));
        i = i + 1;
    }
    assert(l.lines@.take(l.lines@.len() as int) =~= l.lines@);
    TrackLyrics { lines, sync_type: l.sync_type, provider: l.provider.clone() }
}

fn copy_opt_lyrics(o: &Option<TrackLyrics>) -> (r: Option<TrackLyrics>)
    ensures
        opt_lyrics_view(r) == opt_lyrics_view(*o),
{
    match o {
        Some(l) => Some(copy_lyrics(l)),
        None => None,
    }
}

/// The last entry of the cache for `uri`.
pub open spec fn find_key(c: Seq<(String, Option<TrackLyrics>)>, uri: Seq<char>) -> Option<int>
    decreases c.len(),
{
    if c.len() == 0 {
        None
    } else if c.last().0@ == uri {
        Some(c.len() - 1)
    } else {
        find_key(c.drop_last(), uri)
    }
}

/// What the cache holds for `uri`: the lyrics, or that there are none.
pub open spec fn cache_lookup(c: Seq<(String, Option<TrackLyrics>)>, uri: Seq<char>) -> Option<
    Option<TrackLyrics>,
> {
    match find_key(c, uri) {
        Some(i) => Some(c[i].1),
        None => None,
    }
}

/// The cache with `v` recorded for `key`.
pub open spec fn cache_insert(
    c: Seq<(String, Option<TrackLyrics>)>,
    key: String,
    v: Option<TrackLyrics>,
) -> Seq<(String, Option<TrackLyrics>)> {
    match find_key(c, key@) {
        Some(i) => c.update(i, (c[i].0, v)),
        None => c.push((key, v)),
    }
}

/// Whether a fetch for `uri` is under way.
pub open spec fn has_name(s: Seq<String>, uri: Seq<char>) -> bool {
    exists|i: int| 0 <= i < s.len() && #[trigger] s[i]@ == uri
}

/// The fetches under way, `uri` left out.
pub open spec fn without_name(s: Seq<String>, uri: Seq<char>) -> Seq<String>
    decreases s.len(),
{
    if s.len() == 0 {
        s
    } else if s.last()@ == uri {
        without_name(s.drop_last(), uri)
    } else {
        without_name(s.drop_last(), uri).push(s.last())
    }
}

/// Which way a request for lyrics goes.
#[derive(Clone, Copy, Debug, PartialEq, Eq, Structural)]
pub enum RequestKind {
    /// The cache has the answer.
    Cached,
    /// A fetch for the track is under way already.
    AlreadyFetching,
    /// There is no session to fetch with.
    NoSession,
    /// A fetch starts.
    Fetch,
}

pub open spec fn request_kind(
    cache: Seq<(String, Option<TrackLyrics>)>,
    inflight: Seq<String>,
    uri: Seq<char>,
    session_available: bool,
) -> RequestKind {
    if cache_lookup(cache, uri) is Some {
        RequestKind::Cached
    } else if has_name(inflight, uri) {
        RequestKind::AlreadyFetching
    } else if !session_available {
        RequestKind::NoSession
    } else {
        RequestKind::Fetch
    }
}

/// What the caller does after a step of the lyrics manager.
#[derive(Clone, Debug)]
pub enum LyricsAction {
    Nothing,
    /// The view changed: redraw it.
    Redraw,
    /// Fetch the lyrics of the track with this URI, and hand the result to
    /// `finish_fetch`.
    Fetch(String),
}

/// The lyrics view, the results fetched so far by track URI, and the fetches
/// under way.
pub struct LyricsManager {
    pub state: LyricsViewState,
    pub cache: Vec<(String, Option<TrackLyrics>)>,
    pub inflight: Vec<String>,
}

fn find_key_exec(c: &Vec<(String, Option<TrackLyrics>)>, uri: &str) -> (r: Option<usize>)
    ensures
        r matches Some(i) ==> find_key(c@, uri@) == Some(i as int),
        r is None ==> find_key(c@, uri@) is None,
        r matches Some(i) ==> i < c@.len() && c@[i as int].0@ == uri@,
{
    proof {
        lemma_find_key_range(c@, uri@);
    }
    let mut k: usize = c.len();
    assert(c@.take(k as int) =~= c@);
    while k > 0
        invariant
            k <= c@.len(),
            find_key(c@, uri@) == find_key(c@.take(k as int), uri@),
        decreases k,
    {
        assert(c@.take(k as int).last() == c@[k - 1]);
        assert(c@.take(k as int).drop_last() =~= c@.take(k - 1));
        if same_text(&c[k - 1].0, uri) {
            return Some(k - 1);
        }
        k = k - 1;
    }
    None
}

fn has_name_exec(s: &Vec<String>, uri: &str) -> (r: bool)
    ensures
        r == has_name(s@, uri@),
{
    let mut i: usize = 0;
    while i < s.len()
        invariant
            i <= s@.len(),
            forall|k: int| 0 <= k < i ==> s@[k]@ != uri@,
        decreases s@.len() - i,
    {
        if same_text(&s[i], uri) {
            return true;
        }
        i = i + 1;
    }
    false
}

fn without_name_exec(s: &Vec<String>, uri: &str) -> (r: Vec<String>)
    ensures
        r@ == without_name(s@, uri@),
{
    let mut r: Vec<String> = Vec::new();
    let mut i: usize = 0;
    assert(s@.take(0) =~= Seq::<String>::empty());
    while i < s.len()
        invariant
            i <= s@.len(),
            r@ == without_name(s@.take(i as int), uri@),
        decreases s@.len() - i,
    {
        assert(s@.take(i + 1).drop_last() =~= s@.take(i as int));
        assert(s@.take(i + 1).last() == s@[i as int]);
        if !same_text(&s[i], uri) {
            r.push(s[i].clone());
        }
        i = i + 1;
    }
    assert(s@.take(i as int) =~= s@);
    r
}

impl LyricsManager {
    /// An idle view, an empty cache and no fetches under way.
    pub fn new() -> (r: LyricsManager)
        ensures
            r.state.track_uri is None,
            r.state.lyrics is None,
            r.state.message@.len() == 0,
            r.state.status is Idle,
            r.cache@.len() == 0,
            r.inflight@.len() == 0,
    {
        LyricsManager { state: LyricsViewState::default(), cache: Vec::new(), inflight: Vec::new() }
    }

    /// The view.
    pub fn state(&self) -> (r: &LyricsViewState)
        ensures
            *r == self.state,
    {
        &self.state
    }

    /// Shows `message` as an error for the track with URI `track_uri`, if the
    /// view is still about it; the view is redrawn either way.
    pub fn set_error(&mut self, track_uri: &str, message: &str) -> (r: LyricsAction)
        ensures
            r is Redraw,
            final(self).cache == old(self).cache,
            final(self).inflight == old(self).inflight,
            final(self).state.track_uri == old(self).state.track_uri,
            final(self).state.title == old(self).state.title,
            final(self).state.artists == old(self).state.artists,
            final(self).state.album == old(self).state.album,
            !old(self).state.shows(track_uri@) ==> final(self).state == old(self).state,
            old(self).state.shows(track_uri@) ==> {
                &&& final(self).state.lyrics is None
                &&& final(self).state.message@ == message@
                &&& final(self).state.status matches LyricsDisplayStatus::Error(e) && e@ == message@
            },
    {
        if shows_exec(&self.state, track_uri) {
            self.state.lyrics = None;
            self.state.message = string_of(message);
            self.state.status = LyricsDisplayStatus::Error(string_of(message));
        }
        LyricsAction::Redraw
    }

    /// Points the view at `track`, waiting for its lyrics.
    pub fn set_track_metadata(&mut self, track: &Track)
        ensures
            final(self).cache == old(self).cache,
            final(self).inflight == old(self).inflight,
            final(self).state.shows(track.uri@),
            final(self).state.title@ == track.title@,
            final(self).state.artists@ == join_seq(views_of(track.artists@), ", "@),
            final(self).state.album@ == match track.album {
                Some(a) => a@,
                None => Seq::empty(),
            },
            final(self).state.lyrics is None,
            final(self).state.message@.len() == 0,
            final(self).state.status is Loading,
    {
        self.state.track_uri = Some(track.uri.clone());
        self.state.title = track.title.clone();
        self.state.artists = join(&track.artists, ", ");
        self.state.album = match &track.album {
            Some(a) => a.clone(),
            None => String::new(),
        };
        self.state.lyrics = None;
        self.state.message = String::new();
        self.state.status = LyricsDisplayStatus::Loading;
    }

    /// Asks for the lyrics of the track with URI `track_uri`: from the cache
    /// when it has them, else by a fetch unless one is under way already or
    /// there is no session (an error is then shown).
    pub fn request_lyrics(&mut self, track_uri: String, session_available: bool) -> (r: LyricsAction)
        ensures
            final(self).cache == old(self).cache,
            final(self).state.track_uri == old(self).state.track_uri,
            final(self).state.title == old(self).state.title,
            final(self).state.artists == old(self).state.artists,
            final(self).state.album == old(self).state.album,
            match request_kind(old(self).cache@, old(self).inflight@, track_uri@, session_available) {
                RequestKind::Cached => {
                    &&& r is Redraw
                    &&& final(self).inflight == old(self).inflight
                    &&& old(self).state.shows(track_uri@) ==> match cache_lookup(
                        old(self).cache@,
                        track_uri@,
                    ) {
                        Some(Some(l)) if l.lines@.len() > 0 => {
                            &&& opt_lyrics_view(final(self).state.lyrics) == Some(lyrics_view(l))
                            &&& final(self).state.message@.len() == 0
                            &&& final(self).state.status is Ready
                        },
                        _ => {
                            &&& final(self).state.lyrics is None
                            &&& final(self).state.message@ == "No lyrics available for this track."@
                            &&& final(self).state.status is NoLyrics
                        },
                    }
                    &&& !old(self).state.shows(track_uri@) ==> final(self).state == old(self).state
                },
                RequestKind::AlreadyFetching => {
                    &&& r is Nothing
                    &&& final(self).inflight == old(self).inflight
                    &&& final(self).state == old(self).state
                },
                RequestKind::NoSession => {
                    &&& r is Redraw
                    &&& final(self).inflight == old(self).inflight
                    &&& !old(self).state.shows(track_uri@) ==> final(self).state == old(self).state
                    &&& old(self).state.shows(track_uri@) ==> {
                        &&& final(self).state.lyrics is None
                        &&& final(self).state.message@ == "Spotify session is not available."@
                        &&& final(self).state.status matches LyricsDisplayStatus::Error(e) && e@
                            == "Spotify session is not available."@
                    }
                },
                RequestKind::Fetch => {
                    &&& r matches LyricsAction::Fetch(u) && u@ == track_uri@
                    &&& final(self).inflight@ == old(self).inflight@.push(track_uri)
                    &&& final(self).state == old(self).state
                },
            },
    {
        match find_key_exec(&self.cache, track_uri.as_str()) {
            Some(i) => {
                let cached = copy_opt_lyrics(&self.cache[i].1);
                let ghost before = self.state;
                apply_lyrics_result(&mut self.state, track_uri.as_str(), cached);
                return LyricsAction::Redraw;
            },
            None => {},
        }
        if has_name_exec(&self.inflight, track_uri.as_str()) {
            return LyricsAction::Nothing;
        }
        if !session_available {
            proof {
                reveal_strlit("Spotify session is not available.");
            }
            return self.set_error(track_uri.as_str(), "Spotify session is not available.");
        }
        self.inflight.push(track_uri.clone());
        LyricsAction::Fetch(track_uri)
    }

    /// Follows the item now playing: nothing playing leaves an idle view with
    /// a message; a podcast episode has no lyrics; a track that the view is
    /// not already about (or that it shows idle) is shown waiting for its
    /// lyrics, which are then asked for.
    pub fn sync_current_track(&mut self, playable: Option<Playable>, session_available: bool) -> (r:
        LyricsAction)
        ensures
            match playable {
                None => {
                    &&& r is Nothing
                    &&& final(self).cache == old(self).cache
                    &&& final(self).inflight == old(self).inflight
                    &&& final(self).state.track_uri is None
                    &&& final(self).state.title@.len() == 0
                    &&& final(self).state.artists@.len() == 0
                    &&& final(self).state.album@.len() == 0
                    &&& final(self).state.lyrics is None
                    &&& final(self).state.message@ == "No track is currently playing."@
                    &&& final(self).state.status is Idle
                },
                Some(Playable::Episode(e)) => {
                    &&& r is Nothing
                    &&& final(self).cache == old(self).cache
                    &&& final(self).inflight == old(self).inflight
                    &&& final(self).state.shows(e.uri@)
                    &&& final(self).state.title@ == e.name@
                    &&& final(self).state.artists@.len() == 0
                    &&& final(self).state.album@.len() == 0
                    &&& final(self).state.lyrics is None
                    &&& final(self).state.message@ == "Lyrics are not available for podcasts."@
                    &&& final(self).state.status is NotAvailable
                },
                Some(Playable::Track(t)) => if old(self).state.shows(t.uri@) && !(old(
                    self,
                ).state.status is Idle) {
                    &&& r is Nothing
                    &&& final(self).cache == old(self).cache
                    &&& final(self).inflight == old(self).inflight
                    &&& final(self).state == old(self).state
                } else {
                    &&& final(self).cache == old(self).cache
                    &&& final(self).state.shows(t.uri@)
                    &&& final(self).state.title@ == t.title@
                    &&& final(self).state.artists@ == join_seq(views_of(t.artists@), ", "@)
                    &&& final(self).state.album@ == match t.album {
                        Some(a) => a@,
                        None => Seq::empty(),
                    }
                    &&& match request_kind(old(self).cache@, old(self).inflight@, t.uri@, session_available) {
                        RequestKind::Cached => {
                            &&& r is Redraw
                            &&& final(self).inflight == old(self).inflight
                            &&& match cache_lookup(old(self).cache@, t.uri@) {
                                Some(Some(l)) if l.lines@.len() > 0 => {
                                    &&& opt_lyrics_view(final(self).state.lyrics) == Some(lyrics_view(l))
                                    &&& final(self).state.message@.len() == 0
                                    &&& final(self).state.status is Ready
                                },
                                _ => {
                                    &&& final(self).state.lyrics is None
                                    &&& final(self).state.message@ == "No lyrics available for this track."@
                                    &&& final(self).state.status is NoLyrics
                                },
                            }
                        },
                        RequestKind::AlreadyFetching => {
                            &&& r is Nothing
                            &&& final(self).inflight == old(self).inflight
                            &&& final(self).state.lyrics is None
                            &&& final(self).state.message@.len() == 0
                            &&& final(self).state.status is Loading
                        },
                        RequestKind::NoSession => {
                            &&& r is Redraw
                            &&& final(self).inflight == old(self).inflight
                            &&& final(self).state.lyrics is None
                            &&& final(self).state.message@ == "Spotify session is not available."@
                            &&& final(self).state.status matches LyricsDisplayStatus::Error(e) && e@
                                == "Spotify session is not available."@
                        },
                        RequestKind::Fetch => {
                            &&& r matches LyricsAction::Fetch(u) && u@ == t.uri@
                            &&& final(self).inflight@ == old(self).inflight@.push(t.uri)
                            &&& final(self).state.lyrics is None
                            &&& final(self).state.message@.len() == 0
                            &&& final(self).state.status is Loading
                        },
                    }
                },
            },
    {
        match playable {
            None => {
                let mut st = LyricsViewState::default();
                st.message = string_of("No track is currently playing.");
                self.state = st;
                LyricsAction::Nothing
            },
            Some(Playable::Episode(e)) => {
                let mut st = LyricsViewState::default();
                st.track_uri = Some(e.uri);
                st.title = e.name;
                st.message = string_of("Lyrics are not available for podcasts.");
                st.status = LyricsDisplayStatus::NotAvailable;
                self.state = st;
                LyricsAction::Nothing
            },
            Some(Playable::Track(t)) => {
                if shows_exec(&self.state, t.uri.as_str()) && !matches!(self.state.status, LyricsDisplayStatus::Idle) {
                    return LyricsAction::Nothing;
                }
                self.set_track_metadata(&t);
                let uri = t.uri.clone();
                self.request_lyrics(uri, session_available)
            },
        }
    }

    /// Takes in the result of a fetch for the track with URI `track_uri`:
    /// the fetch is no longer under way; an error is shown if the view is
    /// still about the track; lyrics, or their absence, are cached and shown.
    pub fn finish_fetch(&mut self, track_uri: String, result: Result<Option<TrackLyrics>, String>) -> (r:
        LyricsAction)
        ensures
            r is Redraw,
            final(self).inflight@ == without_name(old(self).inflight@, track_uri@),
            final(self).state.track_uri == old(self).state.track_uri,
            final(self).state.title == old(self).state.title,
            final(self).state.artists == old(self).state.artists,
            final(self).state.album == old(self).state.album,
            !old(self).state.shows(track_uri@) ==> final(self).state == old(self).state,
            match result {
                Err(err) => {
                    &&& final(self).cache == old(self).cache
                    &&& old(self).state.shows(track_uri@) ==> {
                        &&& final(self).state.lyrics is None
                        &&& final(self).state.message@ == "Failed to fetch lyrics: "@ + err@
                        &&& final(self).state.status matches LyricsDisplayStatus::Error(e) && e@
                            == err@
                    }
                },
                Ok(lyrics) => {
                    &&& final(self).cache@.len() == cache_insert(old(self).cache@, track_uri, lyrics).len()
                    &&& opt_lyrics_view(cache_lookup(final(self).cache@, track_uri@)->0)
                        == opt_lyrics_view(lyrics)
                    &&& forall|u: Seq<char>|
                        u != track_uri@ ==> #[trigger] cache_lookup(final(self).cache@, u)
                            == cache_lookup(old(self).cache@, u)
                    &&& old(self).state.shows(track_uri@) ==> match lyrics {
                        Some(l) if l.lines@.len() > 0 => {
                            &&& final(self).state.lyrics == Some(l)
                            &&& final(self).state.message@.len() == 0
                            &&& final(self).state.status is Ready
                        },
                        _ => {
                            &&& final(self).state.lyrics is None
                            &&& final(self).state.message@ == "No lyrics available for this track."@
                            &&& final(self).state.status is NoLyrics
                        },
                    }
                },
            },
    {
        self.inflight = without_name_exec(&self.inflight, track_uri.as_str());
        match result {
            Err(err) => {
                if shows_exec(&self.state, track_uri.as_str()) {
                    self.state.lyrics = None;
                    let mut m = string_of("Failed to fetch lyrics: ");
                    m.append(err.as_str());
                    self.state.message = m;
                    self.state.status = LyricsDisplayStatus::Error(err);
                }
            },
            Ok(lyrics) => {
                let copy = copy_opt_lyrics(&lyrics);
                let ghost c = self.cache@;
                self.cache_insert_exec(track_uri.clone(), copy);
                proof {
                    lemma_find_key_range(c, track_uri@);
                }
                assert(cache_insert(c, track_uri, copy).len() == cache_insert(c, track_uri, lyrics).len());
                apply_lyrics_result(&mut self.state, track_uri.as_str(), lyrics);
            },
        }
        LyricsAction::Redraw
    }

    fn cache_insert_exec(&mut self, key: String, v: Option<TrackLyrics>)
        ensures
            final(self).state == old(self).state,
            final(self).inflight == old(self).inflight,
            final(self).cache@.len() == cache_insert(old(self).cache@, key, v).len(),
            cache_lookup(final(self).cache@, key@) matches Some(x) && opt_lyrics_view(x) == opt_lyrics_view(v),
            forall|u: Seq<char>|
                u != key@ ==> #[trigger] cache_lookup(final(self).cache@, u) == cache_lookup(
                    old(self).cache@,
                    u,
                ),
    {
        match find_key_exec(&self.cache, key.as_str()) {
            Some(i) => {
                let ghost c = self.cache@;
                let k = self.cache[i].0.clone();
                self.cache.set(i, (k, v));
                proof {
                    lemma_find_key_update(c, i as int, v, key@);
                }
            },
            None => {
                let ghost c = self.cache@;
                self.cache.push((key, v));
                proof {
                    lemma_find_key_push(c, key, v);
                }
            },
        }
    }
}

proof fn lemma_find_key_same_keys(
    c: Seq<(String, Option<TrackLyrics>)>,
    i: int,
    v: Option<TrackLyrics>,
    u: Seq<char>,
)
    requires
        0 <= i < c.len(),
    ensures
        find_key(c.update(i, (c[i].0, v)), u) == find_key(c, u),
    decreases c.len(),
{
    let d = c.update(i, (c[i].0, v));
    if i == c.len() - 1 {
        assert(d.drop_last() =~= c.drop_last());
    } else {
        assert(d.drop_last() =~= c.drop_last().update(i, (c[i].0, v)));
        lemma_find_key_same_keys(c.drop_last(), i, v, u);
    }
}

proof fn lemma_find_key_update(
    c: Seq<(String, Option<TrackLyrics>)>,
    i: int,
    v: Option<TrackLyrics>,
    key: Seq<char>,
)
    requires
        find_key(c, key) == Some(i),
    ensures
        cache_lookup(c.update(i, (c[i].0, v)), key) == Some(v),
        forall|u: Seq<char>|
            u != key ==> #[trigger] cache_lookup(c.update(i, (c[i].0, v)), u) == cache_lookup(c, u),
{
    lemma_find_key_range(c, key);
    lemma_find_key_same_keys(c, i, v, key);
    let d = c.update(i, (c[i].0, v));
    assert forall|u: Seq<char>| u != key implies #[trigger] cache_lookup(d, u) == cache_lookup(c, u) by {
        lemma_find_key_same_keys(c, i, v, u);
        lemma_find_key_range(c, u);
    }
}

proof fn lemma_find_key_range(c: Seq<(String, Option<TrackLyrics>)>, u: Seq<char>)
    ensures
        find_key(c, u) matches Some(j) ==> 0 <= j < c.len() && c[j].0@ == u,
    decreases c.len(),
{
    if c.len() > 0 {
        lemma_find_key_range(c.drop_last(), u);
    }
}

proof fn lemma_find_key_push(c: Seq<(String, Option<TrackLyrics>)>, key: String, v: Option<TrackLyrics>)
    requires
        find_key(c, key@) is None,
    ensures
        cache_lookup(c.push((key, v)), key@) == Some(v),
        forall|u: Seq<char>|
            u != key@ ==> #[trigger] cache_lookup(c.push((key, v)), u) == cache_lookup(c, u),
{
    assert(c.push((key, v)).drop_last() =~= c);
    assert forall|u: Seq<char>| u != key@ implies #[trigger] cache_lookup(c.push((key, v)), u)
        == cache_lookup(c, u) by {
        lemma_find_key_range(c, u);
    }
}

/// A result that was fetched for a track is answered from the cache when the
/// track's lyrics are asked for again: no second fetch starts.
pub proof fn lemma_fetched_lyrics_are_reused(
    cache: Seq<(String, Option<TrackLyrics>)>,
    inflight: Seq<String>,
    track_uri: String,
    lyrics: Option<TrackLyrics>,
    session_available: bool,
)
    ensures
        request_kind(cache_insert(cache, track_uri, lyrics), inflight, track_uri@, session_available)
            == RequestKind::Cached,
{
    match find_key(cache, track_uri@) {
        Some(i) => {
            lemma_find_key_range(cache, track_uri@);
            lemma_find_key_update(cache, i, lyrics, track_uri@);
        },
        None => lemma_find_key_push(cache, track_uri, lyrics),
    }
}

/// While a fetch for a track is under way, asking again for the track's
/// lyrics (not yet cached) starts no second fetch.
pub proof fn lemma_one_fetch_at_a_time(
    cache: Seq<(String, Option<TrackLyrics>)>,
    inflight: Seq<String>,
    track_uri: String,
    session_available: bool,
)
    requires
        cache_lookup(cache, track_uri@) is None,
    ensures
        request_kind(cache, inflight.push(track_uri), track_uri@, session_available)
            == RequestKind::AlreadyFetching,
{
    assert(inflight.push(track_uri)[inflight.len() as int]@ == track_uri@);
}

/// Once a fetch has finished it is no longer under way.
pub proof fn lemma_finished_fetch_is_not_under_way(inflight: Seq<String>, track_uri: Seq<char>)
    ensures
        !has_name(without_name(inflight, track_uri), track_uri),
    decreases inflight.len(),
{
    if inflight.len() > 0 {
        lemma_finished_fetch_is_not_under_way(inflight.drop_last(), track_uri);
        let w = without_name(inflight.drop_last(), track_uri);
        if inflight.last()@ != track_uri {
            assert forall|i: int| 0 <= i < w.push(inflight.last()).len() implies #[trigger] w.push(
                inflight.last(),
            )[i]@ != track_uri by {
                if i < w.len() {
                    assert(w.push(inflight.last())[i] == w[i]);
                }
            }
        }
    }
}

} // verus!
