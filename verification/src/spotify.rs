//! Kinds of Spotify entities and how a `spotify:` URI names them.
use vstd::prelude::*;

use crate::queue::PlayerStatus;
use crate::text::{chars_of, contains_str, has_infix, starts_with};

verus! {

/// The kind of entity a Spotify URI or URL refers to.
#[derive(Clone, Copy, Debug, PartialEq, Eq, Structural)]
pub enum UriType {
    Album,
    Artist,
    Track,
    Playlist,
    Show,
    Episode,
}

/// A text that is not a Spotify URI of a known kind.
#[derive(Clone, Copy, Debug, PartialEq, Eq, Structural)]
pub struct UriParseError;

impl UriParseError {
    /// The message this error displays.
    pub fn to_string(&self) -> (r: String)
        ensures
            r@ == "invalid Spotify URI"@,
    {
        String::from_str("invalid Spotify URI")
    }
}

/// The kind that the URI `s` names, tested in this order: the prefixes
/// `spotify:album:`, `spotify:artist:`, `spotify:track:`, then `spotify:`
/// together with `:playlist:` anywhere, then `spotify:show:` and
/// `spotify:episode:`.
pub open spec fn uri_type_of(s: Seq<char>) -> Result<UriType, UriParseError> {
    if "spotify:album:"@.is_prefix_of(s) {
        Ok(UriType::Album)
    } else if "spotify:artist:"@.is_prefix_of(s) {
        Ok(UriType::Artist)
    } else if "spotify:track:"@.is_prefix_of(s) {
        Ok(UriType::Track)
    } else if "spotify:"@.is_prefix_of(s) && has_infix(s, ":playlist:"@) {
        Ok(UriType::Playlist)
    } else if "spotify:show:"@.is_prefix_of(s) {
        Ok(UriType::Show)
    } else if "spotify:episode:"@.is_prefix_of(s) {
        Ok(UriType::Episode)
    } else {
        Err(UriParseError)
    }
}

impl UriType {
    /// The kind of entity that the Spotify URI `s` refers to.
    pub fn from_str(s: &str) -> (r: Result<UriType, UriParseError>)
        ensures
            r == uri_type_of(s@),
    {
        let v = chars_of(s);
        if starts_with(&v, "spotify:album:") {
            Ok(UriType::Album)
        } else if starts_with(&v, "spotify:artist:") {
            Ok(UriType::Artist)
        } else if starts_with(&v, "spotify:track:") {
            Ok(UriType::Track)
        } else if starts_with(&v, "spotify:") && contains_str(&v, ":playlist:") {
            Ok(UriType::Playlist)
        } else if starts_with(&v, "spotify:show:") {
            Ok(UriType::Show)
        } else if starts_with(&v, "spotify:episode:") {
            Ok(UriType::Episode)
        } else {
            Err(UriParseError)
        }
    }
}

impl core::str::FromStr for UriType {
    type Err = UriParseError;

    fn from_str(s: &str) -> (r: Result<UriType, UriParseError>)
        ensures
            r == uri_type_of(s@),
    {
        UriType::from_str(s)
    }
}

/// What the player reports. `Playing` holds the time playback started (in
/// milliseconds since the Unix epoch), counting back the position it started
/// at; `Paused` holds the position, in milliseconds.
#[derive(Clone, Copy, Debug, PartialEq, Eq, Structural)]
pub enum PlayerEvent {
    Playing(u64),
    Paused(u64),
    Stopped,
    FinishedTrack,
}

impl PlayerEvent {
    /// The state of the player as the queue sees it.
    pub fn status(&self) -> (r: PlayerStatus)
        ensures
            r == match *self {
                PlayerEvent::Playing(_) => PlayerStatus::Playing,
                PlayerEvent::Paused(_) => PlayerStatus::Paused,
                PlayerEvent::Stopped => PlayerStatus::Stopped,
                PlayerEvent::FinishedTrack => PlayerStatus::Other,
            },
    {
        match self {
            PlayerEvent::Playing(_) => PlayerStatus::Playing,
            PlayerEvent::Paused(_) => PlayerStatus::Paused,
            PlayerEvent::Stopped => PlayerStatus::Stopped,
            PlayerEvent::FinishedTrack => PlayerStatus::Other,
        }
    }

    /// The playback status shown to media players: a finished track still
    /// counts as playing.
    pub fn playback_status(&self) -> (r: &'static str)
        ensures
            r@ == match *self {
                PlayerEvent::Playing(_) | PlayerEvent::FinishedTrack => "Playing"@,
                PlayerEvent::Paused(_) => "Paused"@,
                PlayerEvent::Stopped => "Stopped"@,
            },
    {
        match self {
            PlayerEvent::Playing(_) | PlayerEvent::FinishedTrack => "Playing",
            PlayerEvent::Paused(_) => "Paused",
            PlayerEvent::Stopped => "Stopped",
        }
    }
}

/// The player's state and what is known of the position in the item now
/// playing: the position when paused, or the time playback started.
#[derive(Clone, Copy, Debug, PartialEq, Eq, Structural)]
pub struct PlaybackClock {
    pub status: PlayerEvent,
    pub elapsed_ms: Option<u64>,
    pub since_ms: Option<u64>,
}

impl PlaybackClock {
    /// Stopped, with nothing played.
    pub fn new() -> (r: PlaybackClock)
        ensures
            r == (PlaybackClock { status: PlayerEvent::Stopped, elapsed_ms: None, since_ms: None }),
    {
        PlaybackClock { status: PlayerEvent::Stopped, elapsed_ms: None, since_ms: None }
    }

    /// Takes in what the player reports: a pause keeps the position, playing
    /// keeps the time it started, anything else forgets both.
    pub fn update_status(&mut self, new_status: PlayerEvent)
        ensures
            final(self).status == new_status,
            match new_status {
                PlayerEvent::Paused(p) => final(self).elapsed_ms == Some(p) && final(self).since_ms is None,
                PlayerEvent::Playing(t) => final(self).since_ms == Some(t) && final(self).elapsed_ms is None,
                _ => final(self).elapsed_ms is None && final(self).since_ms is None,
            },
    {
        match new_status {
            PlayerEvent::Paused(position) => {
                self.elapsed_ms = Some(position);
                self.since_ms = None;
            },
            PlayerEvent::Playing(start) => {
                self.since_ms = Some(start);
                self.elapsed_ms = None;
            },
            PlayerEvent::Stopped | PlayerEvent::FinishedTrack => {
                self.elapsed_ms = None;
                self.since_ms = None;
            },
        }
        self.status = new_status;
    }

    /// A new item starts: the position is forgotten.
    pub fn update_track(&mut self)
        ensures
            final(self).status == old(self).status,
            final(self).elapsed_ms is None,
            final(self).since_ms is None,
    {
        self.elapsed_ms = None;
        self.since_ms = None;
    }

    /// How much of the item now playing has been played at `now_ms`: the
    /// paused position plus the time since playback started.
    pub fn current_progress(&self, now_ms: u64) -> (r: u64)
        requires
            self.since_ms matches Some(t) ==> t <= now_ms,
            (match self.elapsed_ms {
                Some(e) => e as int,
                None => 0,
            }) + (match self.since_ms {
                Some(t) => now_ms - t,
                None => 0,
            }) <= u64::MAX,
        ensures
            r == (match self.elapsed_ms {
                Some(e) => e as int,
                None => 0,
            }) + (match self.since_ms {
                Some(t) => now_ms - t,
                None => 0,
            }),
    {
        let e: u64 = match self.elapsed_ms {
            Some(e) => e,
            None => 0,
        };
        let s: u64 = match self.since_ms {
            Some(t) => now_ms - t,
            None => 0,
        };
        e + s
    }
}

} // verus!
