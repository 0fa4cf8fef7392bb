//! Settings: the values read from the configuration file that the logic
//! uses, and the user state kept between runs.
use vstd::prelude::*;

use crate::command::{SortDirection, SortKey};
use crate::model::Playable;
use crate::queue::{QueueState, RepeatSetting};

verus! {

/// The Spotify client id this program registers as.
pub const CLIENT_ID: &'static str = "d420a117a32841c2b3474932e49fb54b";

/// The version of the saved user state that this program writes.
pub const CACHE_VERSION: u16 = 1;

/// How playback was left when the state was saved, or how it should start.
#[derive(Clone, Copy, Debug, PartialEq, Eq, Structural)]
pub enum PlaybackState {
    Playing,
    Paused,
    Stopped,
    Default,
}

/// The tabs of the library view.
#[derive(Clone, Copy, Debug, PartialEq, Eq, Structural)]
pub enum LibraryTab {
    Tracks,
    Albums,
    Artists,
    Playlists,
    Podcasts,
}

/// What the status bar shows of the item now playing.
#[derive(Clone, Copy, Debug, PartialEq, Eq, Structural)]
pub enum ActiveField {
    Title,
    Artists,
    Album,
    Default,
}

/// Which fields the status bar shows on its left and in its center, and
/// whether it shows the time on the right.
#[derive(Clone, Debug)]
pub struct ActiveFields {
    pub left: Option<Vec<ActiveField>>,
    pub center: Option<Vec<ActiveField>>,
    pub right: Option<bool>,
}

impl ActiveFields {
    /// Artists and title on the left, the album in the center, the time on
    /// the right.
    pub fn default() -> (r: ActiveFields)
        ensures
            r.left matches Some(l) && l@ == seq![ActiveField::Artists, ActiveField::Title],
            r.center matches Some(c) && c@ == seq![ActiveField::Album],
            r.right == Some(true),
    {
        let mut left: Vec<ActiveField> = Vec::new();
        left.push(ActiveField::Artists);
        left.push(ActiveField::Title);
        let mut center: Vec<ActiveField> = Vec::new();
        center.push(ActiveField::Album);
        assert(left@ =~= seq![ActiveField::Artists, ActiveField::Title]);
        assert(center@ =~= seq![ActiveField::Album]);
        ActiveFields { left: Some(left), center: Some(center), right: Some(true) }
    }
}

/// Colors of the interface, each by name; what is not set keeps the default.
#[derive(Clone, Debug)]
pub struct ConfigTheme {
    pub background: Option<String>,
    pub primary: Option<String>,
    pub secondary: Option<String>,
    pub title: Option<String>,
    pub playing: Option<String>,
    pub playing_selected: Option<String>,
    pub playing_bg: Option<String>,
    pub highlight: Option<String>,
    pub highlight_bg: Option<String>,
    pub error: Option<String>,
    pub error_bg: Option<String>,
    pub statusbar_progress: Option<String>,
    pub statusbar_progress_bg: Option<String>,
    pub statusbar: Option<String>,
    pub statusbar_bg: Option<String>,
    pub cmdline: Option<String>,
    pub cmdline_bg: Option<String>,
    pub search_match: Option<String>,
}

impl Default for ConfigTheme {
    /// Nothing set.
    fn default() -> (r: ConfigTheme)
        ensures
            r.background is None && r.primary is None && r.secondary is None && r.title is None
                && r.playing is None && r.playing_selected is None && r.playing_bg is None
                && r.highlight is None && r.highlight_bg is None && r.error is None
                && r.error_bg is None && r.statusbar_progress is None
                && r.statusbar_progress_bg is None && r.statusbar is None && r.statusbar_bg is None
                && r.cmdline is None && r.cmdline_bg is None && r.search_match is None,
    {
        ConfigTheme {
            background: None,
            primary: None,
            secondary: None,
            title: None,
            playing: None,
            playing_selected: None,
            playing_bg: None,
            highlight: None,
            highlight_bg: None,
            error: None,
            error_bg: None,
            statusbar_progress: None,
            statusbar_progress_bg: None,
            statusbar: None,
            statusbar_bg: None,
            cmdline: None,
            cmdline_bg: None,
            search_match: None,
        }
    }
}

/// How a playlist is sorted.
#[derive(Clone, Copy, Debug, PartialEq, Eq, Structural)]
pub struct SortingOrder {
    pub key: SortKey,
    pub direction: SortDirection,
}

/// What is kept between runs.
pub struct UserState {
    pub volume: u16,
    pub shuffle: bool,
    pub repeat: RepeatSetting,
    pub queuestate: QueueState<Playable>,
    /// The sorting order of each playlist, by playlist id; an id occurs at
    /// most once.
    pub playlist_orders: Vec<(String, SortingOrder)>,
    pub cache_version: u16,
    pub playback_state: PlaybackState,
}

impl UserState {
    /// Each playlist id has at most one sorting order.
    pub open spec fn wf(&self) -> bool {
        forall|i: int, j: int|
            0 <= i < j < self.playlist_orders@.len() ==> #[trigger] self.playlist_orders@[i].0@
                != #[trigger] self.playlist_orders@[j].0@
    }

    /// Full volume, no shuffle, no repeat, an empty queue, no sorting orders,
    /// no cache version and no saved playback state.
    pub fn default() -> (r: UserState)
        ensures
            r.wf(),
            r.volume == u16::MAX,
            !r.shuffle,
            r.repeat == RepeatSetting::Off,
            r.queuestate.current_track is None,
            r.queuestate.random_order is None,
            r.queuestate.track_progress_ms == 0,
            r.queuestate.queue@.len() == 0,
            r.playlist_orders@.len() == 0,
            r.cache_version == 0,
            r.playback_state == PlaybackState::Default,
    {
        UserState {
            volume: u16::MAX,
            shuffle: false,
            repeat: RepeatSetting::Off,
            queuestate: QueueState {
                current_track: None,
                random_order: None,
                track_progress_ms: 0,
                queue: Vec::new(),
            },
            playlist_orders: Vec::new(),
            cache_version: 0,
            playback_state: PlaybackState::Default,
        }
    }

    /// The settings of the configuration file take precedence over the saved
    /// state: each one that is set replaces the saved value.
    pub fn apply_config(
        &mut self,
        shuffle: Option<bool>,
        repeat: Option<RepeatSetting>,
        playback_state: Option<PlaybackState>,
    )
        ensures
            final(self).shuffle == match shuffle {
                Some(s) => s,
                None => old(self).shuffle,
            },
            final(self).repeat == match repeat {
                Some(r) => r,
                None => old(self).repeat,
            },
            final(self).playback_state == match playback_state {
                Some(p) => p,
                None => old(self).playback_state,
            },
            final(self).volume == old(self).volume,
            final(self).queuestate == old(self).queuestate,
            final(self).playlist_orders == old(self).playlist_orders,
            final(self).cache_version == old(self).cache_version,
    {
        if let Some(s) = shuffle {
            self.shuffle = s;
        }
        if let Some(r) = repeat {
            self.repeat = r;
        }
        if let Some(p) = playback_state {
            self.playback_state = p;
        }
    }

    /// Before the state is saved it is marked with the current cache version.
    pub fn stamp_cache_version(&mut self)
        ensures
            final(self).cache_version == CACHE_VERSION,
            final(self).volume == old(self).volume,
            final(self).shuffle == old(self).shuffle,
            final(self).repeat == old(self).repeat,
            final(self).queuestate == old(self).queuestate,
            final(self).playlist_orders == old(self).playlist_orders,
            final(self).playback_state == old(self).playback_state,
    {
        self.cache_version = CACHE_VERSION;
    }

    /// Whether the library caches were written in the current format and
    /// may be loaded; older ones are ignored.
    pub fn cache_is_current(&self) -> (r: bool)
        ensures
            r == (self.cache_version >= CACHE_VERSION),
    {
        self.cache_version >= CACHE_VERSION
    }
}

} // verus!
