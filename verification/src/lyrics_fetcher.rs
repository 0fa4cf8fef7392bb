//! Lyrics from the lyrics.ovh service: the address asked for a track, and
//! the text shown for the service's reply.
use vstd::prelude::*;

use crate::model::Track;
use crate::text::string_of;

verus! {

/// Whether a byte is kept as it is by percent-encoding: letters, digits and
/// `-`, `.`, `_`, `~`.
pub open spec fn is_unreserved(b: u8) -> bool {
    (0x30 <= b <= 0x39) || (0x41 <= b <= 0x5a) || (0x61 <= b <= 0x7a) || b == 0x2d || b == 0x2e
        || b == 0x5f || b == 0x7e
}

/// The upper-case hexadecimal digit for `d` (below 16).
pub open spec fn hex_digit(d: int) -> char {
    if d < 10 {
        (0x30 + d) as char
    } else {
        (0x41 + d - 10) as char
    }
}

/// `bytes` percent-encoded: each byte that is not unreserved is written as
/// `%` and two upper-case hexadecimal digits.
pub open spec fn percent_encoded(bytes: Seq<u8>) -> Seq<char>
    decreases bytes.len(),
{
    if bytes.len() == 0 {
        Seq::empty()
    } else {
        let b = bytes.last();
        percent_encoded(bytes.drop_last()) + if is_unreserved(b) {
            seq![b as char]
        } else {
            seq!['%', hex_digit(b as int / 16), hex_digit(b as int % 16)]
        }
    }
}

/// Calls `urlencoding::encode`. Claimed, as its source shows: the UTF-8 bytes
/// of `s` percent-encoded (see `percent_encoded`).
#[verifier::external_body]
fn url_encode(s: &str) -> (r: String)
    ensures
        r@ == percent_encoded(vstd::utf8::encode_utf8(s@)),
{
    urlencoding::encode(s).into_owned()
}

/// What `serde_json` gives for the field `key` of the JSON text `body`, written
/// as JSON (`null` when there is no such field); `None` when `body` is not JSON.
pub uninterp spec fn json_field(body: Seq<char>, key: Seq<char>) -> Option<Seq<char>>;

/// Calls `serde_json::from_str` to read `body` as a JSON value, then writes its
/// field `key` with the value's `Display`. Claimed: the result is
/// `json_field(body, key)`, a function of the two texts alone.
#[verifier::external_body]
fn read_json_field(body: &str, key: &str) -> (r: Option<String>)
    ensures
        match r {
            Some(t) => json_field(body@, key@) == Some(t@),
            None => json_field(body@, key@) is None,
        },
{
    match serde_json::from_str::<serde_json::Value>(body) {
        Ok(json) => Some(json[key].to_string()),
        Err(_) => None,
    }
}

/// Fetches lyrics from lyrics.ovh.
pub struct OVHLyricsFetcher;

impl OVHLyricsFetcher {
    /// The address that holds the lyrics of `track`: its first artist and its
    /// title, each percent-encoded.
    pub fn request_url(&self, track: &Track) -> (r: String)
        requires
            track.artists@.len() > 0,
        ensures
            r@ == "https://api.lyrics.ovh/v1/"@ + percent_encoded(
                vstd::utf8::encode_utf8(track.artists@[0]@),
            ) + "/"@ + percent_encoded(vstd::utf8::encode_utf8(track.title@)),
    {
        let mut s = string_of("https://api.lyrics.ovh/v1/");
        let artist = url_encode(track.artists[0].as_str());
        s.append(artist.as_str());
        s.append("/");
        let title = url_encode(track.title.as_str());
        s.append(title.as_str());
        s
    }

    /// The text shown for the service's reply with HTTP status `status` and
    /// content `body`: an error message unless the status is 200, else the
    /// field `lyrics` of the JSON reply, written as JSON.
    pub fn reply_text(&self, track: &Track, status: u16, body: &str) -> (r: String)
        requires
            status == 200 ==> json_field(body@, "lyrics"@) is Some,
        ensures
            status != 200 ==> r@ == "Error fetching lyrics for "@ + track.title@,
            status == 200 ==> json_field(body@, "lyrics"@) == Some(r@),
    {
        if status != 200 {
            let mut s = string_of("Error fetching lyrics for ");
            s.append(track.title.as_str());
            return s;
        }
        match read_json_field(body, "lyrics") {
            Some(t) => t,
            None => String::new(),
        }
    }

    /// As `reply_text`, or `None` when a reply with status 200 is not JSON.
    pub fn try_reply_text(&self, track: &Track, status: u16, body: &str) -> (r: Option<String>)
        ensures
            status != 200 ==> (r matches Some(t) && t@ == "Error fetching lyrics for "@ + track.title@),
            status == 200 ==> match json_field(body@, "lyrics"@) {
                Some(f) => r matches Some(t) && t@ == f,
                None => r is None,
            },
    {
        if status == 200 && read_json_field(body, "lyrics").is_none() {
            return None;
        }
        Some(self.reply_text(track, status, body))
    }
}

} // verus!
