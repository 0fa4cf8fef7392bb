//! The system's media controls: what each of their requests amounts to, and
//! what they are shown of the item now playing and of the player's state.
use vstd::prelude::*;

use crate::model::{clone_opt, opt_view, Playable};
use crate::spotify::PlayerEvent;

verus! {

/// Which way a seek goes.
#[derive(Clone, Copy, Debug, PartialEq, Eq, Structural)]
pub enum MediaSeekDirection {
    Forward,
    Backward,
}

/// A request of the media controls (durations in seconds), or the request to
/// refresh what they show.
#[derive(Clone, Debug)]
pub enum MediaEvent {
    Update,
    Play,
    Pause,
    Toggle,
    Next,
    Previous,
    Stop,
    Seek(MediaSeekDirection),
    SeekBy(MediaSeekDirection, u64),
    SetPosition(u64),
    OpenUri(String),
    Raise,
    Quit,
}

/// What the caller carries out for a request.
#[derive(Clone, Debug)]
pub enum MediaAction {
    Nothing,
    /// Refresh what the media controls show.
    UpdateControls,
    Play,
    Pause,
    /// Toggle playback through the queue.
    TogglePlayback,
    /// Go to the next item of the queue, by hand.
    Next,
    /// Go to the previous item of the queue.
    Previous,
    /// Stop the queue.
    Stop,
    /// Seek to this position, in milliseconds.
    Seek(u32),
    OpenUri(String),
}

/// Seeking by `secs_delta` seconds from `progress_ms` in an item of
/// `duration_ms`: before the start goes to the previous item, past the end
/// to the next one. The progress is read as a 32-bit signed number of
/// milliseconds.
pub open spec fn seek_outcome(secs_delta: int, progress_ms: u64, duration_ms: u32) -> MediaAction {
    let new_position = (progress_ms as i32) + secs_delta * 1000;
    if new_position <= 0 {
        MediaAction::Previous
    } else if new_position < (duration_ms as i32) {
        MediaAction::Seek(new_position as u32)
    } else {
        MediaAction::Next
    }
}

/// Whether a seek by `secs_delta` seconds can be computed without overflow.
pub open spec fn seek_defined(secs_delta: int, progress_ms: u64) -> bool {
    &&& i32::MIN <= secs_delta * 1000 <= i32::MAX
    &&& i32::MIN <= (progress_ms as i32) + secs_delta * 1000 <= i32::MAX
}

/// What seeking by `secs_delta` seconds amounts to; nothing without an item.
pub fn seek_action(secs_delta: i32, progress_ms: u64, current_duration_ms: Option<u32>) -> (r:
    MediaAction)
    requires
        current_duration_ms is Some ==> seek_defined(secs_delta as int, progress_ms),
    ensures
        match current_duration_ms {
            Some(d) => same_action(r, seek_outcome(secs_delta as int, progress_ms, d)),
            None => r is Nothing,
        },
{
    match current_duration_ms {
        Some(d) => {
            let progress = progress_ms as i32;
            let new_position: i32 = progress + secs_delta * 1000;
            if new_position <= 0 {
                MediaAction::Previous
            } else if new_position < d as i32 {
                MediaAction::Seek(new_position as u32)
            } else {
                MediaAction::Next
            }
        },
        None => MediaAction::Nothing,
    }
}

/// Two actions alike (a URI by its text).
pub open spec fn same_action(a: MediaAction, b: MediaAction) -> bool {
    match (a, b) {
        (MediaAction::OpenUri(x), MediaAction::OpenUri(y)) => x@ == y@,
        _ => a == b,
    }
}

/// Whether a request can be handled without overflow.
pub open spec fn handle_defined(e: MediaEvent, progress_ms: u64, current_duration_ms: Option<u32>) -> bool {
    &&& (e matches MediaEvent::SeekBy(MediaSeekDirection::Backward, s) ==> (s as i32) != i32::MIN)
    &&& current_duration_ms is Some ==> match e {
        MediaEvent::Seek(MediaSeekDirection::Forward) => seek_defined(5, progress_ms),
        MediaEvent::Seek(MediaSeekDirection::Backward) => seek_defined(-5, progress_ms),
        MediaEvent::SeekBy(MediaSeekDirection::Forward, s) => seek_defined((s as i32) as int, progress_ms),
        MediaEvent::SeekBy(MediaSeekDirection::Backward, s) => (s as i32) != i32::MIN && seek_defined(
            -((s as i32) as int),
            progress_ms,
        ),
        _ => true,
    }
}

/// What a request of the media controls amounts to, given the progress in
/// the item now playing and that item's duration, if any: going back restarts
/// the item after its first five seconds; a position is only taken before
/// the end (it is compared with the duration in milliseconds although it is
/// given in seconds, and used as milliseconds).
pub fn handle_media_event(e: MediaEvent, progress_ms: u64, current_duration_ms: Option<u32>) -> (r:
    MediaAction)
    requires
        handle_defined(e, progress_ms, current_duration_ms),
    ensures
        match e {
            MediaEvent::Update => r is UpdateControls,
            MediaEvent::Play => r is Play,
            MediaEvent::Pause => r is Pause,
            MediaEvent::Toggle => r is TogglePlayback,
            MediaEvent::Next => r is Next,
            MediaEvent::Previous => if progress_ms < 5000 {
                r is Previous
            } else {
                r == MediaAction::Seek(0)
            },
            MediaEvent::Stop => r is Stop,
            MediaEvent::Seek(MediaSeekDirection::Forward) => match current_duration_ms {
                Some(d) => same_action(r, seek_outcome(5, progress_ms, d)),
                None => r is Nothing,
            },
            MediaEvent::Seek(MediaSeekDirection::Backward) => match current_duration_ms {
                Some(d) => same_action(r, seek_outcome(-5, progress_ms, d)),
                None => r is Nothing,
            },
            MediaEvent::SeekBy(MediaSeekDirection::Forward, s) => match current_duration_ms {
                Some(d) => same_action(r, seek_outcome((s as i32) as int, progress_ms, d)),
                None => r is Nothing,
            },
            MediaEvent::SeekBy(MediaSeekDirection::Backward, s) => match current_duration_ms {
                Some(d) => same_action(r, seek_outcome(-((s as i32) as int), progress_ms, d)),
                None => r is Nothing,
            },
            MediaEvent::SetPosition(s) => match current_duration_ms {
                Some(d) => if (s as u32) < d {
                    r == MediaAction::Seek(s as u32)
                } else {
                    r is Nothing
                },
                None => r is Nothing,
            },
            MediaEvent::OpenUri(u) => r matches MediaAction::OpenUri(v) && v@ == u@,
            MediaEvent::Raise | MediaEvent::Quit => r is Nothing,
        },
{
    match e {
        MediaEvent::Update => MediaAction::UpdateControls,
        MediaEvent::Play => MediaAction::Play,
        MediaEvent::Pause => MediaAction::Pause,
        MediaEvent::Toggle => MediaAction::TogglePlayback,
        MediaEvent::Next => MediaAction::Next,
        MediaEvent::Previous => {
            if progress_ms < 5000 {
                MediaAction::Previous
            } else {
                MediaAction::Seek(0)
            }
        },
        MediaEvent::Stop => MediaAction::Stop,
        MediaEvent::Seek(MediaSeekDirection::Forward) => seek_action(5, progress_ms, current_duration_ms),
        MediaEvent::Seek(MediaSeekDirection::Backward) => seek_action(-5, progress_ms, current_duration_ms),
        MediaEvent::SeekBy(MediaSeekDirection::Forward, s) => seek_action(
            s as i32,
            progress_ms,
            current_duration_ms,
        ),
        MediaEvent::SeekBy(MediaSeekDirection::Backward, s) => seek_action(
            -(s as i32),
            progress_ms,
            current_duration_ms,
        ),
        MediaEvent::SetPosition(s) => match current_duration_ms {
            Some(d) => {
                let position = s as u32;
                if position < d {
                    MediaAction::Seek(position)
                } else {
                    MediaAction::Nothing
                }
            },
            None => MediaAction::Nothing,
        },
        MediaEvent::OpenUri(u) => MediaAction::OpenUri(u),
        MediaEvent::Raise | MediaEvent::Quit => MediaAction::Nothing,
    }
}

/// The playback state shown to the media controls (positions in
/// milliseconds): a finished track counts as playing with no position.
#[derive(Clone, Copy, Debug, PartialEq, Eq, Structural)]
pub enum MediaPlayback {
    Playing(Option<u64>),
    Paused(Option<u64>),
    Stopped,
}

/// The playback state for the player's `status` and the progress now.
pub fn playback_of(status: PlayerEvent, progress_ms: u64) -> (r: MediaPlayback)
    ensures
        r == match status {
            PlayerEvent::FinishedTrack => MediaPlayback::Playing(None),
            PlayerEvent::Paused(p) => MediaPlayback::Paused(Some(p)),
            PlayerEvent::Playing(_) => MediaPlayback::Playing(Some(progress_ms)),
            PlayerEvent::Stopped => MediaPlayback::Stopped,
        },
{
    match status {
        PlayerEvent::FinishedTrack => MediaPlayback::Playing(None),
        PlayerEvent::Paused(p) => MediaPlayback::Paused(Some(p)),
        PlayerEvent::Playing(_) => MediaPlayback::Playing(Some(progress_ms)),
        PlayerEvent::Stopped => MediaPlayback::Stopped,
    }
}

/// The id of the track to fetch in full before showing `playable`: a track
/// without a cover URL (an unknown id counts as the empty one); an episode,
/// or a track with a cover, is shown as it is.
pub fn full_track_to_fetch(playable: &Playable) -> (r: Option<String>)
    ensures
        match playable {
            Playable::Track(t) => if t.cover_url is None {
                r matches Some(id) && id@ == match t.id {
                    Some(i) => i@,
                    None => Seq::empty(),
                }
            } else {
                r is None
            },
            Playable::Episode(_) => r is None,
        },
{
    match playable {
        Playable::Track(t) => {
            if t.cover_url.is_none() {
                match &t.id {
                    Some(i) => Some(i.clone()),
                    None => Some(String::new()),
                }
            } else {
                None
            }
        },
        Playable::Episode(_) => None,
    }
}

/// What the media controls show of an item. The duration is given in
/// seconds; it holds the number of milliseconds of the item.
#[derive(Clone, Debug)]
pub struct MediaMetadata {
    pub title: Option<String>,
    pub album: Option<String>,
    pub artist: Option<String>,
    pub duration_secs: Option<u64>,
    pub cover_url: Option<String>,
}

/// What the media controls show of `playable`: its title, and for a track
/// its album and first album artist.
pub fn metadata_of(playable: Option<&Playable>) -> (r: MediaMetadata)
    ensures
        match playable {
            None => r.title is None && r.album is None && r.artist is None && r.duration_secs is None
                && r.cover_url is None,
            Some(Playable::Track(t)) => {
                &&& opt_view(r.title) == Some(t.title@)
                &&& opt_view(r.album) == opt_view(t.album)
                &&& opt_view(r.artist) == (if t.album_artists@.len() > 0 {
                    Some(t.album_artists@[0]@)
                } else {
                    None
                })
                &&& r.duration_secs == Some(t.duration as u64)
                &&& opt_view(r.cover_url) == opt_view(t.cover_url)
            },
            Some(Playable::Episode(e)) => {
                &&& opt_view(r.title) == Some(e.name@)
                &&& r.album is None
                &&& r.artist is None
                &&& r.duration_secs == Some(e.duration as u64)
                &&& opt_view(r.cover_url) == opt_view(e.cover_url)
            },
        },
{
    match playable {
        None => MediaMetadata { title: None, album: None, artist: None, duration_secs: None, cover_url: None },
        Some(Playable::Track(t)) => MediaMetadata {
            title: Some(t.title.clone()),
            album: clone_opt(&t.album),
            artist: if t.album_artists.len() > 0 {
                Some(t.album_artists[0].clone())
            } else {
                None
            },
            duration_secs: Some(t.duration as u64),
            cover_url: clone_opt(&t.cover_url),
        },
        Some(Playable::Episode(e)) => MediaMetadata {
            title: Some(e.name.clone()),
            album: None,
            artist: None,
            duration_secs: Some(e.duration as u64),
            cover_url: clone_opt(&e.cover_url),
        },
    }
}

} // verus!
