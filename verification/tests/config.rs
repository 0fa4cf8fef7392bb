use ncspot::config::{ActiveField, ActiveFields, ConfigTheme, PlaybackState, UserState, CACHE_VERSION};
use ncspot::queue::RepeatSetting;

#[test]
fn active_fields_default() {
    let a = ActiveFields::default();
    assert_eq!(a.left, Some(vec![ActiveField::Artists, ActiveField::Title]));
    assert_eq!(a.center, Some(vec![ActiveField::Album]));
    assert_eq!(a.right, Some(true));
}

#[test]
fn user_state_default() {
    let s = UserState::default();
    assert_eq!(s.volume, u16::MAX);
    assert!(!s.shuffle);
    assert_eq!(s.repeat, RepeatSetting::Off);
    assert_eq!(s.cache_version, 0);
    assert_eq!(s.playback_state, PlaybackState::Default);
    assert!(s.queuestate.queue.is_empty());
    assert!(s.playlist_orders.is_empty());
}

#[test]
fn configuration_overrides_saved_state() {
    let mut s = UserState::default();
    s.apply_config(Some(true), None, Some(PlaybackState::Paused));
    assert!(s.shuffle);
    assert_eq!(s.repeat, RepeatSetting::Off);
    assert_eq!(s.playback_state, PlaybackState::Paused);
    s.apply_config(None, Some(RepeatSetting::RepeatTrack), None);
    assert!(s.shuffle);
    assert_eq!(s.repeat, RepeatSetting::RepeatTrack);
    s.stamp_cache_version();
    assert_eq!(s.cache_version, CACHE_VERSION);
}

#[test]
fn theme_default_sets_nothing() {
    let t = ConfigTheme::default();
    assert!(t.background.is_none());
    assert!(t.search_match.is_none());
}

#[test]
fn old_caches_are_ignored() {
    let mut s = UserState::default();
    assert!(!s.cache_is_current());
    s.stamp_cache_version();
    assert!(s.cache_is_current());
}
