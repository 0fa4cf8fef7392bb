//! Sorting the items of a playlist by title, duration, album, artist or the
//! time they were added.
//!
//! Orders are written as integers: -1, 0 or 1 as the first argument comes
//! before, together with or after the second.
use vstd::prelude::*;

use crate::command::{SortDirection, SortKey};
use crate::model::{Playable, Playlist, Track};
use crate::spotify_url::{lowercase, to_lowercase};
use crate::text::{char_views, chars_eq_str, chars_of, split_chars, split_on};

verus! {

/// -1, 0 or 1 as `a` is below, equal to or above `b`.
pub open spec fn int_order(a: int, b: int) -> int {
    if a < b {
        -1
    } else if a == b {
        0
    } else {
        1
    }
}

/// `first`, unless it is 0: then `second` (ties broken by a second order).
pub open spec fn then_order(first: int, second: int) -> int {
    if first != 0 {
        first
    } else {
        second
    }
}

/// The order of `str`: lexicographic by code point (which is also the order
/// of the UTF-8 bytes).
pub open spec fn text_order(a: Seq<char>, b: Seq<char>) -> int
    decreases a.len(),
{
    if a.len() == 0 {
        if b.len() == 0 {
            0
        } else {
            -1
        }
    } else if b.len() == 0 {
        1
    } else {
        then_order(int_order(a[0] as int, b[0] as int), text_order(a.drop_first(), b.drop_first()))
    }
}

/// The order of lists of texts: lexicographic, each pair by `text_order`.
pub open spec fn list_order(a: Seq<Seq<char>>, b: Seq<Seq<char>>) -> int
    decreases a.len(),
{
    if a.len() == 0 {
        if b.len() == 0 {
            0
        } else {
            -1
        }
    } else if b.len() == 0 {
        1
    } else {
        then_order(text_order(a[0], b[0]), list_order(a.drop_first(), b.drop_first()))
    }
}

/// The order of optional texts: nothing comes first.
pub open spec fn opt_text_order(a: Option<Seq<char>>, b: Option<Seq<char>>) -> int {
    match (a, b) {
        (None, None) => 0,
        (None, Some(_)) => -1,
        (Some(_), None) => 1,
        (Some(x), Some(y)) => text_order(x, y),
    }
}

/// The order of optional times: nothing comes first.
pub open spec fn opt_time_order(a: Option<i64>, b: Option<i64>) -> int {
    match (a, b) {
        (None, None) => 0,
        (None, Some(_)) => -1,
        (Some(_), None) => 1,
        (Some(x), Some(y)) => int_order(x as int, y as int),
    }
}

/// The album name in lower case, which albums are sorted by.
pub open spec fn album_key(t: Track) -> Option<Seq<char>> {
    match t.album {
        Some(a) => Some(lowercase(a@)),
        None => None,
    }
}

/// Album (in lower case), then disc number, then track number.
pub open spec fn album_order(a: Track, b: Track) -> int {
    then_order(
        opt_text_order(album_key(a), album_key(b)),
        then_order(
            int_order(a.disc_number as int, b.disc_number as int),
            int_order(a.track_number as int, b.track_number as int),
        ),
    )
}

/// Leading words `the` left out.
pub open spec fn skip_the(words: Seq<Seq<char>>) -> Seq<Seq<char>>
    decreases words.len(),
{
    if words.len() > 0 && words[0] == "the"@ {
        skip_the(words.drop_first())
    } else {
        words
    }
}

/// An artist's name as artists are sorted: in lower case, split at spaces,
/// leading words `the` dropped, and the rest run together.
pub open spec fn sort_name(name: Seq<char>) -> Seq<char> {
    skip_the(split_on(lowercase(name), ' ')).flatten()
}

/// The artists of a track as they are sorted.
pub open spec fn artist_keys(t: Track) -> Seq<Seq<char>> {
    t.artists@.map_values(|s: String| sort_name(s@))
}

/// How two tracks compare under `key`.
pub open spec fn track_order(a: Track, b: Track, key: SortKey) -> int {
    match key {
        SortKey::Title => text_order(lowercase(a.title@), lowercase(b.title@)),
        SortKey::Duration => int_order(a.duration as int, b.duration as int),
        SortKey::Album => album_order(a, b),
        SortKey::Added => opt_time_order(a.added_at, b.added_at),
        SortKey::Artist => then_order(list_order(artist_keys(a), artist_keys(b)), album_order(a, b)),
    }
}

/// How two items compare under `key` in `direction`. Only tracks are
/// ordered: an episode ties with everything.
pub open spec fn item_order(a: Playable, b: Playable, key: SortKey, direction: SortDirection) -> int {
    match (a, b) {
        (Playable::Track(x), Playable::Track(y)) => match direction {
            SortDirection::Ascending => track_order(x, y, key),
            SortDirection::Descending => track_order(y, x, key),
        },
        _ => 0,
    }
}

pub open spec fn all_tracks(items: Seq<Playable>) -> bool {
    forall|i: int| 0 <= i < items.len() ==> #[trigger] items[i] is Track
}

/// Each item comes no later than the ones after it.
pub open spec fn is_sorted(items: Seq<Playable>, key: SortKey, direction: SortDirection) -> bool {
    forall|i: int, j: int|
        0 <= i < j < items.len() ==> #[trigger] item_order(items[i], items[j], key, direction) <= 0
}

/// Whether an item ties with `e`.
pub open spec fn ties_with(e: Playable, key: SortKey, direction: SortDirection) -> spec_fn(
    Playable,
) -> bool {
    |y: Playable| item_order(y, e, key, direction) == 0
}

/// Antisymmetry and transitivity, for each arrangement of three values, of
/// an order given by its six results on them.
pub open spec fn order_facts(ab: int, ba: int, bc: int, cb: int, ac: int, ca: int) -> bool {
    &&& ab == -ba
    &&& bc == -cb
    &&& ac == -ca
    &&& (ab <= 0 && bc <= 0 ==> ac <= 0)
    &&& (ac <= 0 && cb <= 0 ==> ab <= 0)
    &&& (ba <= 0 && ac <= 0 ==> bc <= 0)
    &&& (bc <= 0 && ca <= 0 ==> ba <= 0)
    &&& (ca <= 0 && ab <= 0 ==> cb <= 0)
    &&& (cb <= 0 && ba <= 0 ==> ca <= 0)
}

/// Ties of the first order broken by the second keep antisymmetry and
/// transitivity.
proof fn lemma_then_facts(
    xab: int,
    xba: int,
    xbc: int,
    xcb: int,
    xac: int,
    xca: int,
    yab: int,
    yba: int,
    ybc: int,
    ycb: int,
    yac: int,
    yca: int,
)
    requires
        order_facts(xab, xba, xbc, xcb, xac, xca),
        order_facts(yab, yba, ybc, ycb, yac, yca),
    ensures
        order_facts(
            then_order(xab, yab),
            then_order(xba, yba),
            then_order(xbc, ybc),
            then_order(xcb, ycb),
            then_order(xac, yac),
            then_order(xca, yca),
        ),
{
}

proof fn lemma_int_facts(a: int, b: int, c: int)
    ensures
        order_facts(
            int_order(a, b),
            int_order(b, a),
            int_order(b, c),
            int_order(c, b),
            int_order(a, c),
            int_order(c, a),
        ),
{
}

pub proof fn lemma_text_order_antisymmetric(a: Seq<char>, b: Seq<char>)
    ensures
        text_order(a, b) == -text_order(b, a),
    decreases a.len(),
{
    if a.len() > 0 && b.len() > 0 {
        lemma_text_order_antisymmetric(a.drop_first(), b.drop_first());
    }
}

pub proof fn lemma_text_order_transitive(a: Seq<char>, b: Seq<char>, c: Seq<char>)
    ensures
        text_order(a, b) <= 0 && text_order(b, c) <= 0 ==> text_order(a, c) <= 0,
    decreases a.len(),
{
    if a.len() > 0 && b.len() > 0 && c.len() > 0 {
        lemma_text_order_transitive(a.drop_first(), b.drop_first(), c.drop_first());
    }
}

proof fn lemma_text_facts(a: Seq<char>, b: Seq<char>, c: Seq<char>)
    ensures
        order_facts(
            text_order(a, b),
            text_order(b, a),
            text_order(b, c),
            text_order(c, b),
            text_order(a, c),
            text_order(c, a),
        ),
{
    lemma_text_order_antisymmetric(a, b);
    lemma_text_order_antisymmetric(b, c);
    lemma_text_order_antisymmetric(a, c);
    lemma_text_order_transitive(a, b, c);
    lemma_text_order_transitive(a, c, b);
    lemma_text_order_transitive(b, a, c);
    lemma_text_order_transitive(b, c, a);
    lemma_text_order_transitive(c, a, b);
    lemma_text_order_transitive(c, b, a);
}

pub proof fn lemma_list_order_antisymmetric(a: Seq<Seq<char>>, b: Seq<Seq<char>>)
    ensures
        list_order(a, b) == -list_order(b, a),
    decreases a.len(),
{
    if a.len() > 0 && b.len() > 0 {
        lemma_text_order_antisymmetric(a[0], b[0]);
        lemma_list_order_antisymmetric(a.drop_first(), b.drop_first());
    }
}

proof fn lemma_list_facts(a: Seq<Seq<char>>, b: Seq<Seq<char>>, c: Seq<Seq<char>>)
    ensures
        order_facts(
            list_order(a, b),
            list_order(b, a),
            list_order(b, c),
            list_order(c, b),
            list_order(a, c),
            list_order(c, a),
        ),
    decreases a.len(),
{
    if a.len() > 0 && b.len() > 0 && c.len() > 0 {
        lemma_text_facts(a[0], b[0], c[0]);
        lemma_list_facts(a.drop_first(), b.drop_first(), c.drop_first());
        lemma_then_facts(
            text_order(a[0], b[0]),
            text_order(b[0], a[0]),
            text_order(b[0], c[0]),
            text_order(c[0], b[0]),
            text_order(a[0], c[0]),
            text_order(c[0], a[0]),
            list_order(a.drop_first(), b.drop_first()),
            list_order(b.drop_first(), a.drop_first()),
            list_order(b.drop_first(), c.drop_first()),
            list_order(c.drop_first(), b.drop_first()),
            list_order(a.drop_first(), c.drop_first()),
            list_order(c.drop_first(), a.drop_first()),
        );
    } else {
        if a.len() > 0 && b.len() > 0 {
            lemma_text_order_antisymmetric(a[0], b[0]);
            lemma_list_order_antisymmetric(a.drop_first(), b.drop_first());
        }
        if b.len() > 0 && c.len() > 0 {
            lemma_text_order_antisymmetric(b[0], c[0]);
            lemma_list_order_antisymmetric(b.drop_first(), c.drop_first());
        }
        if a.len() > 0 && c.len() > 0 {
            lemma_text_order_antisymmetric(a[0], c[0]);
            lemma_list_order_antisymmetric(a.drop_first(), c.drop_first());
        }
    }
}

proof fn lemma_opt_text_facts(a: Option<Seq<char>>, b: Option<Seq<char>>, c: Option<Seq<char>>)
    ensures
        order_facts(
            opt_text_order(a, b),
            opt_text_order(b, a),
            opt_text_order(b, c),
            opt_text_order(c, b),
            opt_text_order(a, c),
            opt_text_order(c, a),
        ),
{
    match (a, b, c) {
        (Some(x), Some(y), Some(z)) => lemma_text_facts(x, y, z),
        (Some(x), Some(y), None) => lemma_text_order_antisymmetric(x, y),
        (Some(x), None, Some(z)) => lemma_text_order_antisymmetric(x, z),
        (None, Some(y), Some(z)) => lemma_text_order_antisymmetric(y, z),
        _ => {},
    }
}

proof fn lemma_album_facts(a: Track, b: Track, c: Track)
    ensures
        order_facts(
            album_order(a, b),
            album_order(b, a),
            album_order(b, c),
            album_order(c, b),
            album_order(a, c),
            album_order(c, a),
        ),
{
    let (ka, kb, kc) = (album_key(a), album_key(b), album_key(c));
    let (da, db, dc) = (a.disc_number as int, b.disc_number as int, c.disc_number as int);
    let (na, nb, nc) = (a.track_number as int, b.track_number as int, c.track_number as int);
    lemma_opt_text_facts(ka, kb, kc);
    lemma_int_facts(da, db, dc);
    lemma_int_facts(na, nb, nc);
    lemma_then_facts(
        int_order(da, db),
        int_order(db, da),
        int_order(db, dc),
        int_order(dc, db),
        int_order(da, dc),
        int_order(dc, da),
        int_order(na, nb),
        int_order(nb, na),
        int_order(nb, nc),
        int_order(nc, nb),
        int_order(na, nc),
        int_order(nc, na),
    );
    lemma_then_facts(
        opt_text_order(ka, kb),
        opt_text_order(kb, ka),
        opt_text_order(kb, kc),
        opt_text_order(kc, kb),
        opt_text_order(ka, kc),
        opt_text_order(kc, ka),
        then_order(int_order(da, db), int_order(na, nb)),
        then_order(int_order(db, da), int_order(nb, na)),
        then_order(int_order(db, dc), int_order(nb, nc)),
        then_order(int_order(dc, db), int_order(nc, nb)),
        then_order(int_order(da, dc), int_order(na, nc)),
        then_order(int_order(dc, da), int_order(nc, na)),
    );
}

proof fn lemma_track_facts(a: Track, b: Track, c: Track, key: SortKey)
    ensures
        order_facts(
            track_order(a, b, key),
            track_order(b, a, key),
            track_order(b, c, key),
            track_order(c, b, key),
            track_order(a, c, key),
            track_order(c, a, key),
        ),
{
    lemma_album_facts(a, b, c);
    match key {
        SortKey::Title => lemma_text_facts(
            lowercase(a.title@),
            lowercase(b.title@),
            lowercase(c.title@),
        ),
        SortKey::Duration => lemma_int_facts(a.duration as int, b.duration as int, c.duration as int),
        SortKey::Added => {
            match (a.added_at, b.added_at, c.added_at) {
                (Some(x), Some(y), Some(z)) => lemma_int_facts(x as int, y as int, z as int),
                _ => {},
            }
        },
        SortKey::Artist => {
            let (ka, kb, kc) = (artist_keys(a), artist_keys(b), artist_keys(c));
            lemma_list_facts(ka, kb, kc);
            lemma_then_facts(
                list_order(ka, kb),
                list_order(kb, ka),
                list_order(kb, kc),
                list_order(kc, kb),
                list_order(ka, kc),
                list_order(kc, ka),
                album_order(a, b),
                album_order(b, a),
                album_order(b, c),
                album_order(c, b),
                album_order(a, c),
                album_order(c, a),
            );
        },
        SortKey::Album => {},
    }
}

/// Under every key, the order of tracks is antisymmetric.
pub proof fn lemma_track_order_antisymmetric(a: Track, b: Track, key: SortKey)
    ensures
        track_order(a, b, key) == -track_order(b, a, key),
{
    lemma_track_facts(a, b, b, key);
}

/// Under every key, the order of tracks is transitive.
pub proof fn lemma_track_order_transitive(a: Track, b: Track, c: Track, key: SortKey)
    ensures
        track_order(a, b, key) <= 0 && track_order(b, c, key) <= 0 ==> track_order(a, c, key) <= 0,
{
    lemma_track_facts(a, b, c, key);
}

/// Items compare antisymmetrically, tracks or not.
pub proof fn lemma_item_order_antisymmetric(
    a: Playable,
    b: Playable,
    key: SortKey,
    direction: SortDirection,
)
    ensures
        item_order(a, b, key, direction) == -item_order(b, a, key, direction),
{
    match (a, b) {
        (Playable::Track(x), Playable::Track(y)) => lemma_track_order_antisymmetric(x, y, key),
        _ => {},
    }
}

/// Among tracks, the order of items is transitive in either direction.
pub proof fn lemma_item_order_transitive(
    a: Playable,
    b: Playable,
    c: Playable,
    key: SortKey,
    direction: SortDirection,
)
    requires
        a is Track,
        b is Track,
        c is Track,
    ensures
        item_order(a, b, key, direction) <= 0 && item_order(b, c, key, direction) <= 0
            ==> item_order(a, c, key, direction) <= 0,
{
    match (a, b, c) {
        (Playable::Track(x), Playable::Track(y), Playable::Track(z)) => {
            lemma_track_order_transitive(x, y, z, key);
            lemma_track_order_transitive(z, y, x, key);
        },
        _ => {},
    }
}

fn int_order_exec(a: i64, b: i64) -> (r: i8)
    ensures
        r == int_order(a as int, b as int),
{
    if a < b {
        -1
    } else if a == b {
        0
    } else {
        1
    }
}

/// `text_order` of the two texts.
pub fn compare_text(a: &[char], b: &[char]) -> (r: i8)
    ensures
        r == text_order(a@, b@),
{
    let mut i: usize = 0;
    assert(a@.skip(0) =~= a@);
    assert(b@.skip(0) =~= b@);
    while i < a.len() && i < b.len()
        invariant
            i <= a@.len(),
            i <= b@.len(),
            text_order(a@, b@) == text_order(a@.skip(i as int), b@.skip(i as int)),
        decreases a@.len() - i,
    {
        let x = a[i];
        let y = b[i];
        assert(a@.skip(i as int)[0] == x);
        assert(b@.skip(i as int)[0] == y);
        if x < y {
            return -1;
        }
        if x > y {
            return 1;
        }
        assert(a@.skip(i as int).drop_first() =~= a@.skip(i + 1));
        assert(b@.skip(i as int).drop_first() =~= b@.skip(i + 1));
        i = i + 1;
    }
    if i < a.len() {
        1
    } else if i < b.len() {
        -1
    } else {
        0
    }
}

/// `list_order` of the two lists of texts.
fn compare_lists(a: &Vec<Vec<char>>, b: &Vec<Vec<char>>) -> (r: i8)
    ensures
        r == list_order(char_views(a@), char_views(b@)),
{
    let ghost va = char_views(a@);
    let ghost vb = char_views(b@);
    let mut i: usize = 0;
    assert(va.skip(0) =~= va);
    assert(vb.skip(0) =~= vb);
    while i < a.len() && i < b.len()
        invariant
            va == char_views(a@),
            vb == char_views(b@),
            i <= a@.len(),
            i <= b@.len(),
            list_order(va, vb) == list_order(va.skip(i as int), vb.skip(i as int)),
        decreases a@.len() - i,
    {
        let c = compare_text(a[i].as_slice(), b[i].as_slice());
        assert(va.skip(i as int)[0] == a@[i as int]@);
        assert(vb.skip(i as int)[0] == b@[i as int]@);
        if c != 0 {
            return c;
        }
        assert(va.skip(i as int).drop_first() =~= va.skip(i + 1));
        assert(vb.skip(i as int).drop_first() =~= vb.skip(i + 1));
        i = i + 1;
    }
    if i < a.len() {
        1
    } else if i < b.len() {
        -1
    } else {
        0
    }
}

/// The album name of `t` in lower case, if it has one.
fn album_key_exec(t: &Track) -> (r: Option<Vec<char>>)
    ensures
        match r {
            Some(v) => album_key(*t) == Some(v@),
            None => album_key(*t) is None,
        },
{
    match &t.album {
        Some(a) => {
            let c = chars_of(a.as_str());
            Some(to_lowercase(&c))
        },
        None => None,
    }
}

/// `album_order` of the two tracks.
fn compare_album(a: &Track, b: &Track) -> (r: i8)
    ensures
        r == album_order(*a, *b),
{
    let ka = album_key_exec(a);
    let kb = album_key_exec(b);
    let first: i8 = match (&ka, &kb) {
        (None, None) => 0,
        (None, Some(_)) => -1,
        (Some(_), None) => 1,
        (Some(x), Some(y)) => compare_text(x.as_slice(), y.as_slice()),
    };
    if first != 0 {
        return first;
    }
    let disc = int_order_exec(a.disc_number as i64, b.disc_number as i64);
    if disc != 0 {
        return disc;
    }
    int_order_exec(a.track_number as i64, b.track_number as i64)
}

/// `sort_name` of `name`.
fn sort_name_exec(name: &String) -> (r: Vec<char>)
    ensures
        r@ == sort_name(name@),
{
    let c = chars_of(name.as_str());
    let lower = to_lowercase(&c);
    let words = split_chars(&lower, 0, ' ');
    let ghost ws = split_on(lower@, ' ');
    assert(lower@.skip(0) =~= lower@);
    let mut j: usize = 0;
    assert(ws.skip(0) =~= ws);
    while j < words.len() && chars_eq_str(words[j].as_slice(), "the")
        invariant
            ws == split_on(lower@, ' '),
            words@.len() == ws.len(),
            forall|i: int| 0 <= i < words@.len() ==> #[trigger] words@[i]@ == ws[i],
            j <= ws.len(),
            skip_the(ws) == skip_the(ws.skip(j as int)),
        decreases ws.len() - j,
    {
        assert(ws.skip(j as int)[0] == ws[j as int]);
        assert(ws.skip(j as int).drop_first() =~= ws.skip(j + 1));
        j = j + 1;
    }
    let ghost rest = ws.skip(j as int);
    assert(skip_the(rest) == rest) by {
        if rest.len() > 0 {
            assert(rest[0] == words@[j as int]@);
        }
    }
    let mut out: Vec<char> = Vec::new();
    let mut k: usize = j;
    assert(rest.take(0) =~= Seq::<Seq<char>>::empty());
    while k < words.len()
        invariant
            ws == split_on(lower@, ' '),
            words@.len() == ws.len(),
            forall|i: int| 0 <= i < words@.len() ==> #[trigger] words@[i]@ == ws[i],
            j <= k <= ws.len(),
            rest == ws.skip(j as int),
            out@ == rest.take(k - j).flatten(),
        decreases ws.len() - k,
    {
        let ghost before = out@;
        out.extend_from_slice(words[k].as_slice());
        assert(rest.take(k + 1 - j) =~= rest.take(k - j).push(ws[k as int]));
        proof {
            rest.take(k - j).lemma_flatten_push(ws[k as int]);
        }
        k = k + 1;
    }
    assert(rest.take(k - j) =~= rest);
    out
}

/// The artists of `t` as they are sorted.
fn artist_keys_exec(t: &Track) -> (r: Vec<Vec<char>>)
    ensures
        char_views(r@) == artist_keys(*t),
{
    let mut r: Vec<Vec<char>> = Vec::new();
    let mut i: usize = 0;
    while i < t.artists.len()
        invariant
            i <= t.artists@.len(),
            r@.len() == i,
            forall|k: int| 0 <= k < i ==> #[trigger] r@[k]@ == sort_name(t.artists@[k]@),
        decreases t.artists@.len() - i,
    {
        let n = sort_name_exec(&t.artists[i]);
        r.push(n);
        i = i + 1;
    }
    assert(char_views(r@) =~= artist_keys(*t));
    r
}

/// `track_order` of the two tracks under `key`.
fn compare_tracks(a: &Track, b: &Track, key: SortKey) -> (r: i8)
    ensures
        r == track_order(*a, *b, key),
{
    match key {
        SortKey::Title => {
            let x = to_lowercase(&chars_of(a.title.as_str()));
            let y = to_lowercase(&chars_of(b.title.as_str()));
            compare_text(x.as_slice(), y.as_slice())
        },
        SortKey::Duration => int_order_exec(a.duration as i64, b.duration as i64),
        SortKey::Album => compare_album(a, b),
        SortKey::Added => match (a.added_at, b.added_at) {
            (None, None) => 0,
            (None, Some(_)) => -1,
            (Some(_), None) => 1,
            (Some(x), Some(y)) => int_order_exec(x, y),
        },
        SortKey::Artist => {
            let x = artist_keys_exec(a);
            let y = artist_keys_exec(b);
            let first = compare_lists(&x, &y);
            if first != 0 {
                first
            } else {
                compare_album(a, b)
            }
        },
    }
}

/// How two items compare under `key` in `direction`: -1, 0 or 1 as `a`
/// comes before, together with or after `b`. Anything but two tracks ties.
pub fn compare_items(a: &Playable, b: &Playable, key: SortKey, direction: SortDirection) -> (r: i8)
    ensures
        r == item_order(*a, *b, key, direction),
{
    match (a, b) {
        (Playable::Track(x), Playable::Track(y)) => match direction {
            SortDirection::Ascending => compare_tracks(x, y, key),
            SortDirection::Descending => compare_tracks(y, x, key),
        },
        _ => 0,
    }
}

proof fn lemma_filter_push(s: Seq<Playable>, x: Playable, pred: spec_fn(Playable) -> bool)
    ensures
        s.push(x).filter(pred) == (if pred(x) {
            s.filter(pred).push(x)
        } else {
            s.filter(pred)
        }),
{
    reveal(Seq::filter);
    assert(s.push(x).drop_last() =~= s);
}

proof fn lemma_filter_none(s: Seq<Playable>, pred: spec_fn(Playable) -> bool)
    requires
        forall|k: int| 0 <= k < s.len() ==> !pred(#[trigger] s[k]),
    ensures
        s.filter(pred) == Seq::<Playable>::empty(),
    decreases s.len(),
{
    reveal(Seq::filter);
    if s.len() > 0 {
        lemma_filter_none(s.drop_last(), pred);
    }
}

/// Putting `x` in a sorted list of tracks after every item it does not come
/// before, and before every item it comes before, keeps the list sorted, and
/// adds `x` last among the items it ties with.
proof fn lemma_insert_sorted(
    o: Seq<Playable>,
    x: Playable,
    p: int,
    key: SortKey,
    direction: SortDirection,
)
    requires
        all_tracks(o),
        x is Track,
        is_sorted(o, key, direction),
        0 <= p <= o.len(),
        forall|q: int| p <= q < o.len() ==> item_order(x, #[trigger] o[q], key, direction) < 0,
        p == 0 || item_order(x, o[p - 1], key, direction) >= 0,
    ensures
        all_tracks(o.insert(p, x)),
        is_sorted(o.insert(p, x), key, direction),
        forall|e: Playable|
            e is Track ==> #[trigger] o.insert(p, x).filter(ties_with(e, key, direction)) == (if ties_with(
                e,
                key,
                direction,
            )(x) {
                o.filter(ties_with(e, key, direction)).push(x)
            } else {
                o.filter(ties_with(e, key, direction))
            }),
{
    let n = o.insert(p, x);
    assert(all_tracks(n)) by {
        assert forall|k: int| 0 <= k < n.len() implies #[trigger] n[k] is Track by {
            if k < p {
                assert(n[k] == o[k]);
            } else if k > p {
                assert(n[k] == o[k - 1]);
            }
        }
    }
    assert forall|i: int, j: int| 0 <= i < j < n.len() implies #[trigger] item_order(
        n[i],
        n[j],
        key,
        direction,
    ) <= 0 by {
        if j < p {
            assert(n[i] == o[i] && n[j] == o[j]);
        } else if j == p {
            assert(n[i] == o[i]);
            lemma_item_order_antisymmetric(x, o[p - 1], key, direction);
            if i < p - 1 {
                assert(item_order(o[i], o[p - 1], key, direction) <= 0);
                lemma_item_order_transitive(o[i], o[p - 1], x, key, direction);
            }
        } else if i == p {
            assert(n[j] == o[j - 1]);
            assert(item_order(x, o[j - 1], key, direction) < 0);
        } else if i < p {
            assert(n[i] == o[i] && n[j] == o[j - 1]);
        } else {
            assert(n[i] == o[i - 1] && n[j] == o[j - 1]);
        }
    }
    assert forall|e: Playable| e is Track implies #[trigger] n.filter(ties_with(e, key, direction))
        == (if ties_with(e, key, direction)(x) {
        o.filter(ties_with(e, key, direction)).push(x)
    } else {
        o.filter(ties_with(e, key, direction))
    }) by {
        let pred = ties_with(e, key, direction);
        let head = o.take(p);
        let tail = o.skip(p);
        assert(n =~= head.push(x) + tail);
        assert(o =~= head + tail);
        Seq::filter_distributes_over_add(head.push(x), tail, pred);
        Seq::filter_distributes_over_add(head, tail, pred);
        lemma_filter_push(head, x, pred);
        if pred(x) {
            assert forall|k: int| 0 <= k < tail.len() implies !pred(#[trigger] tail[k]) by {
                let y = tail[k];
                assert(y == o[p + k]);
                if pred(y) {
                    lemma_item_order_antisymmetric(y, e, key, direction);
                    lemma_item_order_antisymmetric(x, e, key, direction);
                    lemma_item_order_antisymmetric(x, y, key, direction);
                    lemma_item_order_transitive(y, e, x, key, direction);
                    assert(item_order(x, o[p + k], key, direction) < 0);
                }
            }
            lemma_filter_none(tail, pred);
            assert(head.filter(pred) + Seq::<Playable>::empty() =~= head.filter(pred));
            assert(head.filter(pred).push(x) + Seq::<Playable>::empty() =~= head.filter(pred).push(x));
        }
    }
}

/// Sorts `items` stably: the result holds the same items. When all of them
/// are tracks, each comes no later than those after it under `key` in
/// `direction`, and items that tie keep their order.
pub fn sort_items(items: &mut Vec<Playable>, key: SortKey, direction: SortDirection)
    ensures
        final(items)@.to_multiset() == old(items)@.to_multiset(),
        all_tracks(old(items)@) ==> is_sorted(final(items)@, key, direction),
        all_tracks(old(items)@) ==> forall|e: Playable|
            e is Track ==> #[trigger] final(items)@.filter(ties_with(e, key, direction)) == old(
                items,
            )@.filter(ties_with(e, key, direction)),
{
    broadcast use vstd::seq_lib::group_to_multiset_ensures;

    let mut src: Vec<Playable> = Vec::new();
    std::mem::swap(items, &mut src);
    let ghost orig = src@;
    let n = src.len();
    let mut out: Vec<Playable> = Vec::new();
    let mut i: usize = 0;
    assert(orig.skip(0) =~= orig);
    assert(orig.take(0) =~= Seq::<Playable>::empty());
    proof {
        reveal(Seq::filter);
    }
    while src.len() > 0
        invariant
            i <= orig.len(),
            orig.len() == n,
            src@ == orig.skip(i as int),
            src@.len() == orig.len() - i,
            out@.to_multiset() == orig.take(i as int).to_multiset(),
            all_tracks(orig) ==> all_tracks(out@) && is_sorted(out@, key, direction),
            all_tracks(orig) ==> forall|e: Playable|
                e is Track ==> #[trigger] out@.filter(ties_with(e, key, direction)) == orig.take(
                    i as int,
                ).filter(ties_with(e, key, direction)),
        decreases src@.len(),
    {
        let x = src.remove(0);
        assert(x == orig[i as int]);
        assert(src@ =~= orig.skip(i + 1));
        assert(orig.take(i + 1) =~= orig.take(i as int).push(x));
        proof {
            orig.take(i as int).to_multiset_ensures();
        }
        assert(orig.take(i as int).push(x).to_multiset() =~= orig.take(
            i as int,
        ).to_multiset().insert(x));
        let mut p: usize = out.len();
        while p > 0
            invariant
                p <= out@.len(),
                forall|q: int|
                    p <= q < out@.len() ==> item_order(x, #[trigger] out@[q], key, direction) < 0,
            ensures
                p <= out@.len(),
                forall|q: int|
                    p <= q < out@.len() ==> item_order(x, #[trigger] out@[q], key, direction) < 0,
                p == 0 || item_order(x, out@[p - 1], key, direction) >= 0,
            decreases p,
        {
            let c = compare_items(&x, &out[p - 1], key, direction);
            if c >= 0 {
                break;
            }
            p = p - 1;
        }
        let ghost o = out@;
        out.insert(p, x);
        proof {
            assert(out@.remove(p as int) =~= o);
            assert(out@[p as int] == x);
            out@.to_multiset_ensures();
            assert(out@.remove(p as int).to_multiset() =~= out@.to_multiset().remove(x));
            assert(out@.contains(x));
            assert(out@.to_multiset().count(x) > 0);
            assert(o.to_multiset().insert(x) =~= out@.to_multiset());
            if all_tracks(orig) {
                assert(x is Track);
                lemma_insert_sorted(o, x, p as int, key, direction);
                assert forall|e: Playable| e is Track implies #[trigger] out@.filter(
                    ties_with(e, key, direction),
                ) == orig.take(i + 1).filter(ties_with(e, key, direction)) by {
                    lemma_filter_push(orig.take(i as int), x, ties_with(e, key, direction));
                    assert(o.filter(ties_with(e, key, direction)) == orig.take(i as int).filter(
                        ties_with(e, key, direction),
                    ));
                }
            }
        }
        i = i + 1;
    }
    assert(orig.take(i as int) =~= orig);
    *items = out;
}

impl Playlist {
    /// Sorts the loaded items stably by `key` in `direction` (see
    /// `sort_items`); does nothing when the items are not loaded.
    pub fn sort(&mut self, key: &SortKey, direction: &SortDirection)
        ensures
            final(self).id == old(self).id,
            final(self).name == old(self).name,
            final(self).owner_id == old(self).owner_id,
            final(self).owner_name == old(self).owner_name,
            final(self).snapshot_id == old(self).snapshot_id,
            final(self).num_tracks == old(self).num_tracks,
            final(self).collaborative == old(self).collaborative,
            match (old(self).tracks, final(self).tracks) {
                (None, None) => true,
                (Some(before), Some(after)) => {
                    &&& after@.to_multiset() == before@.to_multiset()
                    &&& all_tracks(before@) ==> is_sorted(after@, *key, *direction)
                    &&& all_tracks(before@) ==> forall|e: Playable|
                        e is Track ==> #[trigger] after@.filter(ties_with(e, *key, *direction))
                            == before@.filter(ties_with(e, *key, *direction))
                },
                _ => false,
            },
    {
        let k = *key;
        let d = *direction;
        match &mut self.tracks {
            Some(c) => sort_items(c, k, d),
            None => {},
        }
    }
}


/// Titles are ordered without regard to letter case: two tracks whose titles
/// lower-case alike tie, and a title orders like any title that lower-cases
/// alike.
pub proof fn lemma_title_order_ignores_case(a: Track, b: Track, c: Track)
    ensures
        lowercase(a.title@) == lowercase(b.title@) ==> track_order(a, b, SortKey::Title) == 0,
        lowercase(a.title@) == lowercase(c.title@) ==> track_order(a, b, SortKey::Title) == track_order(
            c,
            b,
            SortKey::Title,
        ),
{
    lemma_text_facts(lowercase(a.title@), lowercase(b.title@), lowercase(c.title@));
    lemma_text_facts(lowercase(a.title@), lowercase(a.title@), lowercase(a.title@));
}

} // verus!
