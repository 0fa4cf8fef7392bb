use ncspot::command::{Command, SeekDirection};
use ncspot::commands::{
    default_keybindings, get_bindings, handle_default_command, parse_key, parse_keybinding,
    seek_relative_target, toggle_action, DefaultAction, Event, Key, ToggleAction, VOLUME_PERCENT,
};
use ncspot::queue::{PlayerStatus, RepeatSetting};

#[test]
fn keys_are_read_by_name() {
    assert_eq!(parse_key("Enter"), Event::Key(Key::Enter));
    assert_eq!(parse_key("Space"), Event::Char(' '));
    assert_eq!(parse_key("F12"), Event::Key(Key::F12));
    assert_eq!(parse_key("x"), Event::Char('x'));
    assert_eq!(parse_key("xyz"), Event::Char('x'));
}

#[test]
fn keybindings_with_modifiers() {
    assert_eq!(parse_keybinding("Shift+p"), Some(Event::Char('P')));
    assert_eq!(parse_keybinding("Ctrl+s"), Some(Event::CtrlChar('s')));
    assert_eq!(parse_keybinding("Alt+Left"), Some(Event::Alt(Key::Left)));
    assert_eq!(parse_keybinding("Ctrl+Up"), Some(Event::Ctrl(Key::Up)));
    assert_eq!(parse_keybinding("Super+a"), None);
    assert_eq!(parse_keybinding("+"), Some(Event::Char('+')));
    assert_eq!(parse_keybinding("a+b+c"), Some(Event::Char('a')));
}

#[test]
fn default_bindings_hold_the_usual_keys() {
    let kb = default_keybindings();
    let q = kb.find("q").unwrap();
    assert!(matches!(kb.entries[q].1[0], Command::Quit));
    let f = kb.find("f").unwrap();
    assert!(matches!(kb.entries[f].1[0], Command::Seek(SeekDirection::Relative(1000))));
    assert!(kb.find("no such key").is_none());
}

#[test]
fn custom_bindings_replace_defaults() {
    let custom = vec![
        ("q".to_string(), "stop; next".to_string()),
        ("y".to_string(), "not a command".to_string()),
    ];
    let kb = get_bindings(None, &custom);
    let q = kb.find("q").unwrap();
    assert_eq!(kb.entries[q].1.len(), 2);
    assert!(kb.find("y").is_none());
    let kb = get_bindings(Some(false), &custom);
    assert!(kb.find("f").is_none());
    assert!(kb.find("q").is_some());
}

#[test]
fn default_commands_decide_the_action() {
    assert!(matches!(
        handle_default_command(&Command::Previous, false, RepeatSetting::Off, 0, 1000),
        DefaultAction::Previous
    ));
    assert!(matches!(
        handle_default_command(&Command::Previous, false, RepeatSetting::Off, 0, 6000),
        DefaultAction::SeekTo(0)
    ));
    assert!(matches!(
        handle_default_command(&Command::Shuffle(None), true, RepeatSetting::Off, 0, 0),
        DefaultAction::SetShuffle(false)
    ));
    assert!(matches!(
        handle_default_command(&Command::Repeat(None), false, RepeatSetting::RepeatTrack, 0, 0),
        DefaultAction::SetRepeat(RepeatSetting::Off)
    ));
    assert!(matches!(
        handle_default_command(&Command::VolumeUp(1), false, RepeatSetting::Off, 100, 0),
        DefaultAction::SetVolume(v) if v == 100 + VOLUME_PERCENT
    ));
    assert!(matches!(
        handle_default_command(&Command::VolumeUp(10), false, RepeatSetting::Off, 65000, 0),
        DefaultAction::SetVolume(u16::MAX)
    ));
    assert!(matches!(
        handle_default_command(&Command::VolumeDown(5), false, RepeatSetting::Off, 10, 0),
        DefaultAction::SetVolume(0)
    ));
}

#[test]
fn relative_seek_stops_at_the_start() {
    assert_eq!(seek_relative_target(5000, -10000), 0);
    assert_eq!(seek_relative_target(5000, 1000), 6000);
}

#[test]
fn toggle_depends_on_the_player() {
    assert_eq!(toggle_action(PlayerStatus::Playing), ToggleAction::Pause);
    assert_eq!(toggle_action(PlayerStatus::Paused), ToggleAction::Play);
    assert_eq!(toggle_action(PlayerStatus::Stopped), ToggleAction::Nothing);
}

#[test]
fn every_default_key_reads() {
    let kb = default_keybindings();
    assert_eq!(kb.entries.len(), 56);
    for (key, _) in &kb.entries {
        assert!(parse_keybinding(key).is_some(), "{key}");
    }
}
