use ncspot::application::{command_key, initial_screen, loop_actions, submit_cmdline, LoopAction};
use ncspot::command::{Command, CommandParseError, JumpMode};
use ncspot::events::Event;
use ncspot::queue::QueueEvent;
use ncspot::spotify::PlayerEvent;

fn screens() -> Vec<String> {
    vec!["search".to_string(), "library".to_string(), "queue".to_string()]
}

#[test]
fn initial_screen_is_the_configured_one_when_it_exists() {
    assert_eq!(initial_screen(&Some("queue".to_string()), &screens()), "queue");
    assert_eq!(initial_screen(&Some("search".to_string()), &screens()), "search");
}

#[test]
fn initial_screen_falls_back_to_the_library() {
    assert_eq!(initial_screen(&None, &screens()), "library");
    assert_eq!(initial_screen(&Some("cover".to_string()), &screens()), "library");
    assert_eq!(initial_screen(&Some("".to_string()), &screens()), "library");
}

#[test]
fn command_key_defaults_to_colon() {
    assert_eq!(command_key(None), ':');
    assert_eq!(command_key(Some('!')), '!');
}

#[test]
fn slash_line_is_a_search_query() {
    let cmds = submit_cmdline("/daft punk").unwrap();
    assert_eq!(cmds.len(), 1);
    assert!(matches!(cmds[0], Command::Jump(JumpMode::Query(ref q)) if q == "daft punk"));
    let cmds = submit_cmdline("/").unwrap();
    assert!(matches!(cmds[0], Command::Jump(JumpMode::Query(ref q)) if q.is_empty()));
}

#[test]
fn other_lines_are_commands_after_the_key() {
    let cmds = submit_cmdline(":stop; next").unwrap();
    assert_eq!(cmds.len(), 2);
    assert!(matches!(cmds[0], Command::Stop));
    assert!(matches!(cmds[1], Command::Next));
    assert_eq!(submit_cmdline(":").unwrap().len(), 0);
    assert!(matches!(
        submit_cmdline(":nonsense"),
        Err(CommandParseError::NoSuchCommand { ref cmd }) if cmd == "nonsense"
    ));
}

#[test]
fn finished_track_moves_on() {
    let actions = loop_actions(Event::Player(PlayerEvent::FinishedTrack));
    assert_eq!(actions.len(), 2);
    assert!(matches!(actions[0], LoopAction::ReportPlayerEvent(PlayerEvent::FinishedTrack)));
    assert!(matches!(actions[1], LoopAction::NextTrack));
    let actions = loop_actions(Event::Player(PlayerEvent::Paused(5)));
    assert_eq!(actions.len(), 1);
    assert!(matches!(actions[0], LoopAction::ReportPlayerEvent(PlayerEvent::Paused(5))));
}

#[test]
fn other_events_go_where_they_belong() {
    let actions = loop_actions(Event::Queue(QueueEvent::PreloadTrackRequest));
    assert!(matches!(actions[..], [LoopAction::HandleQueueEvent(QueueEvent::PreloadTrackRequest)]));
    let actions = loop_actions(Event::SessionDied);
    assert!(matches!(actions[..], [LoopAction::RestartWorker]));
    let actions = loop_actions(Event::IpcInput("play; quit".to_string()));
    match &actions[..] {
        [LoopAction::RunCommands(cmds)] => {
            assert_eq!(cmds.len(), 2);
            assert!(matches!(cmds[0], Command::Play));
            assert!(matches!(cmds[1], Command::Quit));
        }
        _ => panic!("expected commands"),
    }
    let actions = loop_actions(Event::IpcInput("frobnicate".to_string()));
    assert!(matches!(
        actions[..],
        [LoopAction::LogParseError(CommandParseError::NoSuchCommand { ref cmd })] if cmd == "frobnicate"
    ));
}
