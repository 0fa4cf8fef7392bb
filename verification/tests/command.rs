use ncspot::command::{
    handle_aliases, parse, register_aliases, AliasMap, Command, CommandParseError, GotoMode,
    InsertSource, JumpMode, MoveAmount, MoveMode, SeekDirection, ShiftMode, SortDirection, SortKey,
    TargetMode,
};
use ncspot::queue::RepeatSetting;
use ncspot::spotify::UriType;

fn one(input: &str) -> Command {
    let mut cmds = parse(input).unwrap();
    assert_eq!(cmds.len(), 1);
    cmds.remove(0)
}

#[test]
fn parses_simple_commands() {
    assert!(matches!(one("quit"), Command::Quit));
    assert!(matches!(one("q"), Command::Quit));
    assert!(matches!(one("  playpause "), Command::TogglePlay));
    assert!(matches!(one("pause"), Command::TogglePlay));
    assert!(matches!(one("update"), Command::UpdateLibrary));
    assert!(matches!(one("add current"), Command::AddCurrent));
    assert!(matches!(one("save queue"), Command::SaveQueue));
    assert!(matches!(one("similar selected"), Command::ShowRecommendations(TargetMode::Selected)));
}

#[test]
fn separates_commands_and_escapes_separators() {
    let cmds = parse("stop; next").unwrap();
    assert_eq!(cmds.len(), 2);
    assert!(matches!(cmds[0], Command::Stop));
    assert!(matches!(cmds[1], Command::Next));
    let cmds = parse("search a;;b").unwrap();
    assert_eq!(cmds.len(), 1);
    assert!(matches!(cmds[0], Command::Search(ref s) if s == "a;b"));
    assert_eq!(parse("").unwrap().len(), 0);
}

#[test]
fn parses_seek() {
    assert!(matches!(one("seek +10"), Command::Seek(SeekDirection::Relative(10))));
    assert!(matches!(one("seek -1000"), Command::Seek(SeekDirection::Relative(-1000))));
    assert!(matches!(one("seek 2000"), Command::Seek(SeekDirection::Absolute(2000))));
    assert!(matches!(one("seek +1m"), Command::Seek(SeekDirection::Relative(60000))));
    assert!(matches!(one("seek 1s"), Command::Seek(SeekDirection::Absolute(1000))));
    assert!(matches!(
        parse("seek"),
        Err(CommandParseError::InsufficientArgs { ref cmd, hint: Some(ref h) }) if cmd == "seek" && h == "a duration"
    ));
    assert!(matches!(parse("seek +3000000000"), Err(CommandParseError::ArgParseError { .. })));
}

#[test]
fn parses_volume_repeat_and_shuffle() {
    assert!(matches!(one("volup"), Command::VolumeUp(1)));
    assert!(matches!(one("voldown 5"), Command::VolumeDown(5)));
    assert!(matches!(
        parse("volup x"),
        Err(CommandParseError::ArgParseError { ref arg, ref err }) if arg == "x" && err == "invalid digit found in string"
    ));
    assert!(matches!(one("repeat"), Command::Repeat(None)));
    assert!(matches!(one("loop track"), Command::Repeat(Some(RepeatSetting::RepeatTrack))));
    assert!(matches!(one("repeat off"), Command::Repeat(Some(RepeatSetting::Off))));
    assert!(matches!(one("shuffle on"), Command::Shuffle(Some(true))));
    assert!(matches!(
        parse("shuffle maybe"),
        Err(CommandParseError::BadEnumArg { optional: true, .. })
    ));
}

#[test]
fn parses_move_and_shift() {
    assert!(matches!(one("move up"), Command::Move(MoveMode::Up, MoveAmount::Integer(1))));
    assert!(matches!(one("move down 5"), Command::Move(MoveMode::Down, MoveAmount::Integer(5))));
    assert!(matches!(one("move top"), Command::Move(MoveMode::Up, MoveAmount::Extreme)));
    assert!(matches!(one("move pageup 0.5"), Command::Move(MoveMode::Up, MoveAmount::Float(ref f)) if f == "0.5"));
    assert!(matches!(one("move playing"), Command::Move(MoveMode::Playing, MoveAmount::Integer(1))));
    assert!(matches!(one("shift down 2"), Command::Shift(ShiftMode::Down, Some(2))));
    assert!(matches!(one("shift up"), Command::Shift(ShiftMode::Up, None)));
}

#[test]
fn parses_sort_goto_and_insert() {
    assert!(matches!(one("sort title"), Command::Sort(SortKey::Title, SortDirection::Ascending)));
    assert!(matches!(one("sort artist desc"), Command::Sort(SortKey::Artist, SortDirection::Descending)));
    assert!(matches!(one("goto album"), Command::Goto(GotoMode::Album)));
    assert!(matches!(
        one("insert https://open.spotify.com/track/6fRJg3R90w0juYoCJXxj2d"),
        Command::Insert(InsertSource::Input(ref u)) if u.uri_type == UriType::Track
    ));
    assert!(matches!(parse("insert nope"), Err(CommandParseError::ArgParseError { ref err, .. }) if err == "Invalid Spotify URL"));
    assert!(matches!(one("jump a b"), Command::Jump(JumpMode::Query(ref q)) if q == "a b"));
    assert!(matches!(one("newplaylist My List"), Command::NewPlaylist(ref n) if n == "My List"));
}

#[test]
fn unknown_command_is_an_error() {
    let err = parse("frobnicate").unwrap_err();
    assert!(matches!(err, CommandParseError::NoSuchCommand { ref cmd } if cmd == "frobnicate"));
    assert_eq!(err.to_string(), "No such command \"frobnicate\"");
}

#[test]
fn parse_error_messages() {
    let e = CommandParseError::InsufficientArgs { cmd: "goto".to_string(), hint: Some("album|artist".to_string()) };
    assert_eq!(e.to_string(), "\"goto\" requires additional arguments: album|artist");
    let e = CommandParseError::InsufficientArgs { cmd: "x".to_string(), hint: None };
    assert_eq!(e.to_string(), "\"x\" requires additional arguments");
    let e = CommandParseError::BadEnumArg { arg: "z".to_string(), accept: vec!["on".to_string(), "off".to_string()], optional: true };
    assert_eq!(e.to_string(), "Argument \"z\" should be one of on|off or be omitted");
    let e = CommandParseError::BadEnumArg { arg: "z".to_string(), accept: vec!["a".to_string()], optional: false };
    assert_eq!(e.to_string(), "Argument \"z\" should be one of a");
    let e = CommandParseError::ArgParseError { arg: "x".to_string(), err: "bad".to_string() };
    assert_eq!(e.to_string(), "Error with argument \"x\": bad");
}

#[test]
fn commands_are_written_back() {
    assert_eq!(one("seek +10").to_string(), "seek +10");
    assert_eq!(one("seek -10").to_string(), "seek -10");
    assert_eq!(one("shift up").to_string(), "shift up 1");
    assert_eq!(one("move bottom").to_string(), "move bottom");
    assert_eq!(one("move left 3").to_string(), "move left 3");
    assert_eq!(one("shuffle off").to_string(), "shuffle off");
    assert_eq!(one("repeat list").to_string(), "repeat RepeatPlaylist");
    assert_eq!(one("sort duration d").to_string(), "sort duration descending");
    assert_eq!(Command::TogglePlay.to_string(), "playpause");
    assert_eq!(Command::TogglePlay.basename(), "playpause");
}

#[test]
fn aliases_resolve_to_commands() {
    assert_eq!(handle_aliases("x"), "quit");
    assert_eq!(handle_aliases("toggleplayback"), "playpause");
    assert_eq!(handle_aliases("loop"), "repeat");
    assert_eq!(handle_aliases("next"), "next");
    let mut m = AliasMap::new();
    register_aliases(&mut m, "quit", vec!["bye", "exit"]);
    assert_eq!(m.get(&"exit".chars().collect::<Vec<char>>()), Some("quit".to_string()));
    assert_eq!(m.get(&"stay".chars().collect::<Vec<char>>()), None);
}

#[test]
fn joined_lines_give_commands_in_order_and_the_first_error() {
    let both = parse("stop;next").unwrap();
    assert!(matches!(both[..], [Command::Stop, Command::Next]));
    assert!(matches!(parse("stop;frob"), Err(CommandParseError::NoSuchCommand { ref cmd }) if cmd == "frob"));
    assert!(matches!(parse("frob;nope"), Err(CommandParseError::NoSuchCommand { ref cmd }) if cmd == "frob"));
}

#[test]
fn plain_commands_read_back() {
    let cmds = vec![
        Command::Quit,
        Command::TogglePlay,
        Command::SaveCurrent,
        Command::AddCurrent,
        Command::Jump(JumpMode::Previous),
        Command::Shuffle(Some(false)),
        Command::Repeat(None),
        Command::Reconnect,
        Command::VolumeUp(7),
        Command::VolumeDown(65535),
        Command::Open(TargetMode::Selected),
        Command::ShowRecommendations(TargetMode::Current),
        Command::Goto(GotoMode::Artist),
        Command::Sort(SortKey::Duration, SortDirection::Descending),
        Command::Move(MoveMode::Up, MoveAmount::Extreme),
        Command::Move(MoveMode::Left, MoveAmount::Integer(-3)),
        Command::Shift(ShiftMode::Down, Some(2)),
    ];
    for c in cmds {
        let text = c.to_string();
        let back = parse(&text).unwrap();
        assert_eq!(back.len(), 1);
        assert_eq!(back[0].to_string(), text);
    }
}

#[test]
fn duration_results_become_seek_milliseconds() {
    let raw: Vec<char> = "1m".chars().collect();
    assert!(matches!(ncspot::command::millis_from_duration(&raw, Ok(60000)), Ok(60000)));
    assert!(matches!(
        ncspot::command::millis_from_duration(&raw, Ok(5_000_000_000)),
        Err(CommandParseError::ArgParseError { ref arg, ref err }) if arg == "1m" && err == "Duration value too large"
    ));
    assert!(matches!(
        ncspot::command::millis_from_duration(&raw, Err("bad".to_string())),
        Err(CommandParseError::ArgParseError { ref err, .. }) if err == "bad"
    ));
}
