use ncspot::config::PlaybackState;
use ncspot::queue::{PlayerAction, PlayerStatus, Queue, QueueState, RepeatSetting, ResumeAction};

fn queue_of(n: usize, current: Option<usize>, repeat: RepeatSetting) -> Queue<u32> {
    Queue::new(
        QueueState {
            current_track: current,
            random_order: None,
            track_progress_ms: 0,
            queue: (0..n as u32).collect(),
        },
        repeat,
        false,
    )
}

#[test]
fn next_and_previous_follow_the_queue() {
    let q = queue_of(3, Some(1), RepeatSetting::Off);
    assert_eq!(q.next_index(), Some(2));
    assert_eq!(q.previous_index(), Some(0));
    let q = queue_of(3, Some(2), RepeatSetting::Off);
    assert_eq!(q.next_index(), None);
    let q = queue_of(3, None, RepeatSetting::Off);
    assert_eq!(q.next_index(), None);
}

#[test]
fn next_at_the_end_stops_or_wraps() {
    let mut q = queue_of(3, Some(2), RepeatSetting::Off);
    assert_eq!(q.next(false), PlayerAction::Stop);
    let mut q = queue_of(3, Some(2), RepeatSetting::RepeatPlaylist);
    assert_eq!(q.next(false), PlayerAction::Load(0));
    assert_eq!(q.get_current_index(), Some(0));
}

#[test]
fn repeat_track_plays_the_same_item_unless_skipped() {
    let mut q = queue_of(3, Some(1), RepeatSetting::RepeatTrack);
    assert_eq!(q.next(false), PlayerAction::Load(1));
    assert_eq!(q.next(true), PlayerAction::Load(2));
    assert_eq!(q.get_repeat(), RepeatSetting::RepeatPlaylist);
}

#[test]
fn previous_at_the_start_replays_or_wraps() {
    let mut q = queue_of(3, Some(0), RepeatSetting::Off);
    assert_eq!(q.previous(), PlayerAction::Load(0));
    let mut q = queue_of(3, Some(0), RepeatSetting::RepeatPlaylist);
    assert_eq!(q.previous(), PlayerAction::Load(2));
}

#[test]
fn play_out_of_range_does_nothing() {
    let mut q = queue_of(3, Some(0), RepeatSetting::Off);
    assert_eq!(q.play(7, false, false), PlayerAction::Nothing);
    assert_eq!(q.get_current_index(), Some(0));
    assert_eq!(q.play(2, false, false), PlayerAction::Load(2));
}

#[test]
fn insert_after_current_is_played_next() {
    let mut q = queue_of(3, Some(0), RepeatSetting::Off);
    q.insert_after_current(9);
    assert_eq!(q.queue, vec![0, 9, 1, 2]);
    assert_eq!(q.next_index(), Some(1));
}

#[test]
fn remove_keeps_the_current_item() {
    let mut q = queue_of(4, Some(2), RepeatSetting::Off);
    assert_eq!(q.remove(0), PlayerAction::Nothing);
    assert_eq!(q.queue, vec![1, 2, 3]);
    assert_eq!(q.get_current(), Some(&2));
}

#[test]
fn removing_the_last_item_stops() {
    let mut q = queue_of(1, Some(0), RepeatSetting::Off);
    assert_eq!(q.remove(0), PlayerAction::Stop);
    assert_eq!(q.get_current_index(), None);
}

#[test]
fn shift_keeps_the_current_item() {
    let mut q = queue_of(4, Some(1), RepeatSetting::Off);
    q.shift(1, 3);
    assert_eq!(q.queue, vec![0, 2, 3, 1]);
    assert_eq!(q.get_current(), Some(&1));
    // The current item lies between the two positions.
    let mut q = queue_of(4, Some(1), RepeatSetting::Off);
    q.shift(0, 3);
    assert_eq!(q.queue, vec![1, 2, 3, 0]);
    assert_eq!(q.get_current(), Some(&1));
    let mut q = queue_of(4, Some(2), RepeatSetting::Off);
    q.shift(3, 0);
    assert_eq!(q.queue, vec![3, 0, 1, 2]);
    assert_eq!(q.get_current(), Some(&2));
}

#[test]
fn clear_stops_playback() {
    let mut q = queue_of(3, Some(1), RepeatSetting::Off);
    assert_eq!(q.clear(), PlayerAction::Stop);
    assert_eq!(q.len(), 0);
    assert_eq!(q.get_current_index(), None);
}

#[test]
fn append_next_returns_the_number_of_added_items() {
    let mut q = queue_of(3, Some(0), RepeatSetting::Off);
    let added = q.append_next(vec![7, 8]);
    assert_eq!(added, 2);
    assert_eq!(q.queue, vec![0, 7, 8, 1, 2]);
    let mut q = queue_of(2, None, RepeatSetting::Off);
    assert_eq!(q.append_next(vec![5]), 1);
    assert_eq!(q.queue, vec![0, 1, 5]);
}

#[test]
fn appended_items_join_the_shuffled_order() {
    let mut q = Queue::new(
        QueueState { current_track: Some(1), random_order: Some(vec![1, 2, 0]), track_progress_ms: 0, queue: vec![10, 11, 12] },
        RepeatSetting::Off,
        true,
    );
    q.append(13);
    assert_eq!(q.get_random_order(), Some(vec![1, 2, 0, 3]));
    // Two items after the current one (index 1): they take indices 2 and 3,
    // the old items 2 and 3 move to 4 and 5, and the new ones play next.
    assert_eq!(q.append_next(vec![20, 21]), 2);
    assert_eq!(q.queue, vec![10, 11, 20, 21, 12, 13]);
    assert_eq!(q.get_random_order(), Some(vec![1, 2, 3, 4, 0, 5]));
    assert_eq!(q.next_index(), Some(2));
}

#[test]
fn shuffle_order_starts_at_the_current_item() {
    let mut q = queue_of(5, Some(3), RepeatSetting::Off);
    q.set_shuffle(true);
    let order = q.get_random_order().unwrap();
    assert_eq!(order.len(), 5);
    assert_eq!(order[0], 3);
    let mut sorted = order.clone();
    sorted.sort();
    assert_eq!(sorted, vec![0, 1, 2, 3, 4]);
    q.set_shuffle(false);
    assert!(q.get_random_order().is_none());
}

#[test]
fn toggleplayback_depends_on_the_player() {
    let mut q = queue_of(3, Some(1), RepeatSetting::Off);
    assert_eq!(q.toggleplayback(PlayerStatus::Playing), PlayerAction::TogglePlayback);
    assert_eq!(q.toggleplayback(PlayerStatus::Paused), PlayerAction::TogglePlayback);
}

#[test]
fn resume_loads_the_saved_item() {
    let q = queue_of(3, Some(1), RepeatSetting::Off);
    assert_eq!(
        q.resume_action(PlaybackState::Playing, 1234),
        Some(ResumeAction { index: 1, start_playing: true, position_ms: 1234, stop: false })
    );
    assert_eq!(
        q.resume_action(PlaybackState::Stopped, 0),
        Some(ResumeAction { index: 1, start_playing: false, position_ms: 0, stop: true })
    );
    let q = queue_of(3, None, RepeatSetting::Off);
    assert_eq!(q.resume_action(PlaybackState::Playing, 0), None);
}

#[test]
fn repeat_setting_names() {
    assert_eq!(RepeatSetting::Off.to_string(), "None");
    assert_eq!(RepeatSetting::RepeatPlaylist.to_string(), "RepeatPlaylist");
    assert_eq!(RepeatSetting::RepeatTrack.to_string(), "RepeatTrack");
}

#[test]
fn repeat_and_shuffle_settings_are_kept() {
    let mut q = queue_of(3, Some(0), RepeatSetting::Off);
    assert!(!q.get_shuffle());
    q.set_repeat(RepeatSetting::RepeatTrack);
    assert_eq!(q.get_repeat(), RepeatSetting::RepeatTrack);
}

#[test]
fn preload_request_names_the_next_item() {
    let q = queue_of(3, Some(1), RepeatSetting::Off);
    assert_eq!(q.handle_event(ncspot::queue::QueueEvent::PreloadTrackRequest), Some(2));
    let q = queue_of(3, Some(2), RepeatSetting::Off);
    assert_eq!(q.handle_event(ncspot::queue::QueueEvent::PreloadTrackRequest), None);
}

#[test]
fn previous_undoes_next() {
    let mut q = queue_of(4, Some(1), RepeatSetting::Off);
    assert_eq!(q.next(true), PlayerAction::Load(2));
    assert_eq!(q.previous(), PlayerAction::Load(1));
    assert_eq!(q.get_current_index(), Some(1));
    let mut q = queue_of(4, Some(3), RepeatSetting::RepeatPlaylist);
    assert_eq!(q.next(true), PlayerAction::Load(0));
    assert_eq!(q.previous(), PlayerAction::Load(3));
}
