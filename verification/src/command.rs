//! The commands a user can type or bind to keys, how they are written and
//! how a command line is read into them.
use vstd::prelude::*;

use crate::num::{int_error_message, int_text, int_to_string, parse_i32, parse_int_spec, parse_u16, parse_u32};
use crate::queue::{repeat_name, RepeatSetting};
use crate::spotify::UriType;
use crate::spotify_url::{link_from_text, type_segment, SpotifyUrl};
use crate::text::{
    char_views, chars_eq_str, chars_of, join, join_chars, join_seq, split_whitespace, split_ws,
    string_from_chars, string_of, trim, trim_from, views_of,
};

verus! {

#[derive(Clone, Copy, Debug, PartialEq, Eq, Structural)]
pub enum TargetMode {
    Current,
    Selected,
}

#[derive(Clone, Copy, Debug, PartialEq, Eq, Structural)]
pub enum MoveMode {
    Up,
    Down,
    Left,
    Right,
    Playing,
}

/// How far to move. `Float` holds the decimal text of a floating-point
/// number as the user wrote it (it is known to be a valid `f32` literal).
#[derive(Clone, Debug)]
pub enum MoveAmount {
    Integer(i32),
    Float(String),
    Extreme,
}

impl MoveAmount {
    /// One step.
    pub fn default() -> (r: MoveAmount)
        ensures
            r.view() == MoveAmountView::Integer(1),
    {
        MoveAmount::Integer(1)
    }
}

/// Keys that can be used to sort songs on.
#[derive(Clone, Copy, Debug, PartialEq, Eq, Structural)]
pub enum SortKey {
    Title,
    Duration,
    Artist,
    Album,
    Added,
}

#[derive(Clone, Copy, Debug, PartialEq, Eq, Structural)]
pub enum SortDirection {
    Ascending,
    Descending,
}

#[derive(Clone, Debug)]
pub enum JumpMode {
    Previous,
    Next,
    Query(String),
}

#[derive(Clone, Copy, Debug, PartialEq, Eq, Structural)]
pub enum ShiftMode {
    Up,
    Down,
}

#[derive(Clone, Copy, Debug, PartialEq, Eq, Structural)]
pub enum GotoMode {
    Album,
    Artist,
}

#[derive(Clone, Copy, Debug, PartialEq, Eq, Structural)]
pub enum SeekDirection {
    Relative(i32),
    Absolute(u32),
}

#[derive(Clone, Debug)]
pub enum InsertSource {
    Clipboard,
    Input(SpotifyUrl),
}

#[derive(Clone, Debug)]
pub enum Command {
    Quit,
    TogglePlay,
    Stop,
    Previous,
    Next,
    Clear,
    Queue,
    PlayNext,
    Play,
    UpdateLibrary,
    Save,
    SaveCurrent,
    SaveQueue,
    Add,
    AddCurrent,
    Delete,
    Focus(String),
    Seek(SeekDirection),
    VolumeUp(u16),
    VolumeDown(u16),
    Repeat(Option<RepeatSetting>),
    Shuffle(Option<bool>),
    Share(TargetMode),
    Back,
    Open(TargetMode),
    Goto(GotoMode),
    Move(MoveMode, MoveAmount),
    Shift(ShiftMode, Option<i32>),
    Search(String),
    Jump(JumpMode),
    Help,
    ReloadConfig,
    Noop,
    Insert(InsertSource),
    NewPlaylist(String),
    Sort(SortKey, SortDirection),
    Logout,
    ShowRecommendations(TargetMode),
    Redraw,
    Execute(String),
    Reconnect,
}

/// Why a command line could not be read.
#[derive(Clone, Debug)]
pub enum CommandParseError {
    NoSuchCommand { cmd: String },
    InsufficientArgs { cmd: String, hint: Option<String> },
    BadEnumArg { arg: String, accept: Vec<String>, optional: bool },
    ArgParseError { arg: String, err: String },
}

// ---------------------------------------------------------------------------
// Mathematical views of the command types: text as `Seq<char>`.
pub enum MoveAmountView {
    Integer(i32),
    Float(Seq<char>),
    Extreme,
}

pub enum JumpModeView {
    Previous,
    Next,
    Query(Seq<char>),
}

pub enum InsertSourceView {
    Clipboard,
    Input(Seq<char>, crate::spotify::UriType),
}

pub enum CommandView {
    Quit,
    TogglePlay,
    Stop,
    Previous,
    Next,
    Clear,
    Queue,
    PlayNext,
    Play,
    UpdateLibrary,
    Save,
    SaveCurrent,
    SaveQueue,
    Add,
    AddCurrent,
    Delete,
    Focus(Seq<char>),
    Seek(SeekDirection),
    VolumeUp(u16),
    VolumeDown(u16),
    Repeat(Option<RepeatSetting>),
    Shuffle(Option<bool>),
    Share(TargetMode),
    Back,
    Open(TargetMode),
    Goto(GotoMode),
    Move(MoveMode, MoveAmountView),
    Shift(ShiftMode, Option<i32>),
    Search(Seq<char>),
    Jump(JumpModeView),
    Help,
    ReloadConfig,
    Noop,
    Insert(InsertSourceView),
    NewPlaylist(Seq<char>),
    Sort(SortKey, SortDirection),
    Logout,
    ShowRecommendations(TargetMode),
    Redraw,
    Execute(Seq<char>),
    Reconnect,
}

pub enum ParseErrorView {
    NoSuchCommand { cmd: Seq<char> },
    InsufficientArgs { cmd: Seq<char>, hint: Option<Seq<char>> },
    BadEnumArg { arg: Seq<char>, accept: Seq<Seq<char>>, optional: bool },
    ArgParseError { arg: Seq<char>, err: Seq<char> },
}

impl MoveAmount {
    pub open spec fn view(&self) -> MoveAmountView {
        match self {
            MoveAmount::Integer(i) => MoveAmountView::Integer(*i),
            MoveAmount::Float(s) => MoveAmountView::Float(s@),
            MoveAmount::Extreme => MoveAmountView::Extreme,
        }
    }
}

impl JumpMode {
    pub open spec fn view(&self) -> JumpModeView {
        match self {
            JumpMode::Previous => JumpModeView::Previous,
            JumpMode::Next => JumpModeView::Next,
            JumpMode::Query(s) => JumpModeView::Query(s@),
        }
    }
}

impl InsertSource {
    pub open spec fn view(&self) -> InsertSourceView {
        match self {
            InsertSource::Clipboard => InsertSourceView::Clipboard,
            InsertSource::Input(u) => InsertSourceView::Input(u.id@, u.uri_type),
        }
    }
}

impl Command {
    pub open spec fn view(&self) -> CommandView {
        match self {
            Command::Quit => CommandView::Quit,
            Command::TogglePlay => CommandView::TogglePlay,
            Command::Stop => CommandView::Stop,
            Command::Previous => CommandView::Previous,
            Command::Next => CommandView::Next,
            Command::Clear => CommandView::Clear,
            Command::Queue => CommandView::Queue,
            Command::PlayNext => CommandView::PlayNext,
            Command::Play => CommandView::Play,
            Command::UpdateLibrary => CommandView::UpdateLibrary,
            Command::Save => CommandView::Save,
            Command::SaveCurrent => CommandView::SaveCurrent,
            Command::SaveQueue => CommandView::SaveQueue,
            Command::Add => CommandView::Add,
            Command::AddCurrent => CommandView::AddCurrent,
            Command::Delete => CommandView::Delete,
            Command::Focus(s) => CommandView::Focus(s@),
            Command::Seek(d) => CommandView::Seek(*d),
            Command::VolumeUp(a) => CommandView::VolumeUp(*a),
            Command::VolumeDown(a) => CommandView::VolumeDown(*a),
            Command::Repeat(m) => CommandView::Repeat(*m),
            Command::Shuffle(b) => CommandView::Shuffle(*b),
            Command::Share(m) => CommandView::Share(*m),
            Command::Back => CommandView::Back,
            Command::Open(m) => CommandView::Open(*m),
            Command::Goto(m) => CommandView::Goto(*m),
            Command::Move(m, a) => CommandView::Move(*m, a.view()),
            Command::Shift(m, a) => CommandView::Shift(*m, *a),
            Command::Search(s) => CommandView::Search(s@),
            Command::Jump(j) => CommandView::Jump(j.view()),
            Command::Help => CommandView::Help,
            Command::ReloadConfig => CommandView::ReloadConfig,
            Command::Noop => CommandView::Noop,
            Command::Insert(i) => CommandView::Insert(i.view()),
            Command::NewPlaylist(s) => CommandView::NewPlaylist(s@),
            Command::Sort(k, d) => CommandView::Sort(*k, *d),
            Command::Logout => CommandView::Logout,
            Command::ShowRecommendations(m) => CommandView::ShowRecommendations(*m),
            Command::Redraw => CommandView::Redraw,
            Command::Execute(s) => CommandView::Execute(s@),
            Command::Reconnect => CommandView::Reconnect,
        }
    }
}

impl CommandParseError {
    pub open spec fn view(&self) -> ParseErrorView {
        match self {
            CommandParseError::NoSuchCommand { cmd } => ParseErrorView::NoSuchCommand { cmd: cmd@ },
            CommandParseError::InsufficientArgs { cmd, hint } => ParseErrorView::InsufficientArgs {
                cmd: cmd@,
                hint: match hint {
                    Some(h) => Some(h@),
                    None => None,
                },
            },
            CommandParseError::BadEnumArg { arg, accept, optional } => ParseErrorView::BadEnumArg {
                arg: arg@,
                accept: views_of(accept@),
                optional: *optional,
            },
            CommandParseError::ArgParseError { arg, err } => ParseErrorView::ArgParseError {
                arg: arg@,
                err: err@,
            },
        }
    }
}

/// The message that a parse error displays.
pub open spec fn parse_error_text(e: ParseErrorView) -> Seq<char> {
    match e {
        ParseErrorView::NoSuchCommand { cmd } => "No such command \""@ + cmd + "\""@,
        ParseErrorView::InsufficientArgs { cmd, hint } => match hint {
            Some(h) => "\""@ + cmd + "\" requires additional arguments: "@ + h,
            None => "\""@ + cmd + "\" requires additional arguments"@,
        },
        ParseErrorView::BadEnumArg { arg, accept, optional } => if optional {
            "Argument \""@ + arg + "\" should be one of "@ + join_seq(accept, "|"@)
                + " or be omitted"@
        } else {
            "Argument \""@ + arg + "\" should be one of "@ + join_seq(accept, "|"@)
        },
        ParseErrorView::ArgParseError { arg, err } => "Error with argument \""@ + arg + "\": "@
            + err,
    }
}

impl CommandParseError {
    /// The message this error displays.
    pub fn to_string(&self) -> (r: String)
        ensures
            r@ == parse_error_text(self.view()),
    {
        match self {
            CommandParseError::NoSuchCommand { cmd } => {
                let mut s = string_of("No such command \"");
                s.append(cmd.as_str());
                s.append("\"");
                s
            },
            CommandParseError::InsufficientArgs { cmd, hint } => {
                let mut s = string_of("\"");
                s.append(cmd.as_str());
                match hint {
                    Some(h) => {
                        s.append("\" requires additional arguments: ");
                        s.append(h.as_str());
                    },
                    None => {
                        s.append("\" requires additional arguments");
                    },
                }
                s
            },
            CommandParseError::BadEnumArg { arg, accept, optional } => {
                let mut s = string_of("Argument \"");
                s.append(arg.as_str());
                s.append("\" should be one of ");
                let joined = join(accept, "|");
                s.append(joined.as_str());
                if *optional {
                    s.append(" or be omitted");
                }
                s
            },
            CommandParseError::ArgParseError { arg, err } => {
                let mut s = string_of("Error with argument \"");
                s.append(arg.as_str());
                s.append("\": ");
                s.append(err.as_str());
                s
            },
        }
    }
}

// ---------------------------------------------------------------------------
// Writing commands.
/// The name a command is written with.
pub open spec fn basename_of(c: CommandView) -> Seq<char> {
    match c {
        CommandView::Quit => "quit"@,
        CommandView::TogglePlay => "playpause"@,
        CommandView::Stop => "stop"@,
        CommandView::Previous => "previous"@,
        CommandView::Next => "next"@,
        CommandView::Clear => "clear"@,
        CommandView::Queue => "queue"@,
        CommandView::PlayNext => "playnext"@,
        CommandView::Play => "play"@,
        CommandView::UpdateLibrary => "update"@,
        CommandView::Save => "save"@,
        CommandView::SaveCurrent => "save current"@,
        CommandView::SaveQueue => "save queue"@,
        CommandView::Add => "add"@,
        CommandView::AddCurrent => "add current"@,
        CommandView::Delete => "delete"@,
        CommandView::Focus(_) => "focus"@,
        CommandView::Seek(_) => "seek"@,
        CommandView::VolumeUp(_) => "volup"@,
        CommandView::VolumeDown(_) => "voldown"@,
        CommandView::Repeat(_) => "repeat"@,
        CommandView::Shuffle(_) => "shuffle"@,
        CommandView::Share(_) => "share"@,
        CommandView::Back => "back"@,
        CommandView::Open(_) => "open"@,
        CommandView::Goto(_) => "goto"@,
        CommandView::Move(_, _) => "move"@,
        CommandView::Shift(_, _) => "shift"@,
        CommandView::Search(_) => "search"@,
        CommandView::Jump(JumpModeView::Previous) => "jumpprevious"@,
        CommandView::Jump(JumpModeView::Next) => "jumpnext"@,
        CommandView::Jump(JumpModeView::Query(_)) => "jump"@,
        CommandView::Help => "help"@,
        CommandView::ReloadConfig => "reload"@,
        CommandView::Noop => "noop"@,
        CommandView::Insert(_) => "insert"@,
        CommandView::NewPlaylist(_) => "newplaylist"@,
        CommandView::Sort(_, _) => "sort"@,
        CommandView::Logout => "logout"@,
        CommandView::ShowRecommendations(_) => "similar"@,
        CommandView::Redraw => "redraw"@,
        CommandView::Execute(_) => "exec"@,
        CommandView::Reconnect => "reconnect"@,
    }
}

pub open spec fn target_mode_text(m: TargetMode) -> Seq<char> {
    match m {
        TargetMode::Current => "current"@,
        TargetMode::Selected => "selected"@,
    }
}

pub open spec fn move_mode_text(m: MoveMode) -> Seq<char> {
    match m {
        MoveMode::Up => "up"@,
        MoveMode::Down => "down"@,
        MoveMode::Left => "left"@,
        MoveMode::Right => "right"@,
        MoveMode::Playing => "playing"@,
    }
}

pub open spec fn sort_key_text(k: SortKey) -> Seq<char> {
    match k {
        SortKey::Title => "title"@,
        SortKey::Duration => "duration"@,
        SortKey::Artist => "artist"@,
        SortKey::Album => "album"@,
        SortKey::Added => "added"@,
    }
}

pub open spec fn sort_direction_text(d: SortDirection) -> Seq<char> {
    match d {
        SortDirection::Ascending => "ascending"@,
        SortDirection::Descending => "descending"@,
    }
}

pub open spec fn shift_mode_text(m: ShiftMode) -> Seq<char> {
    match m {
        ShiftMode::Up => "up"@,
        ShiftMode::Down => "down"@,
    }
}

pub open spec fn goto_mode_text(m: GotoMode) -> Seq<char> {
    match m {
        GotoMode::Album => "album"@,
        GotoMode::Artist => "artist"@,
    }
}

/// How a seek target is written: absolute positions as they are, relative
/// ones with a `+` when positive.
pub open spec fn seek_text(d: SeekDirection) -> Seq<char> {
    match d {
        SeekDirection::Absolute(p) => int_text(p as int),
        SeekDirection::Relative(delta) => if delta > 0 {
            "+"@ + int_text(delta as int)
        } else {
            int_text(delta as int)
        },
    }
}

/// How an insert source is written: a link as its URL, the clipboard as nothing.
pub open spec fn insert_source_text(s: InsertSourceView) -> Seq<char> {
    match s {
        InsertSourceView::Clipboard => Seq::empty(),
        InsertSourceView::Input(id, t) => "https://open.spotify.com/"@ + type_segment(t) + "/"@
            + id,
    }
}

/// The words written after a command's name.
pub open spec fn extra_words(c: CommandView) -> Seq<Seq<char>> {
    match c {
        CommandView::Focus(tab) => seq![tab],
        CommandView::Seek(d) => seq![seek_text(d)],
        CommandView::VolumeUp(a) => seq![int_text(a as int)],
        CommandView::VolumeDown(a) => seq![int_text(a as int)],
        CommandView::Repeat(m) => match m {
            Some(m) => seq![repeat_name(m)],
            None => Seq::empty(),
        },
        CommandView::Shuffle(b) => match b {
            Some(b) => seq![if b { "on"@ } else { "off"@ }],
            None => Seq::empty(),
        },
        CommandView::Share(m) => seq![target_mode_text(m)],
        CommandView::Open(m) => seq![target_mode_text(m)],
        CommandView::Goto(m) => seq![goto_mode_text(m)],
        CommandView::Move(m, a) => match (m, a) {
            (MoveMode::Playing, _) => seq!["playing"@],
            (MoveMode::Up, MoveAmountView::Extreme) => seq!["top"@],
            (MoveMode::Down, MoveAmountView::Extreme) => seq!["bottom"@],
            (MoveMode::Left, MoveAmountView::Extreme) => seq!["leftmost"@],
            (MoveMode::Right, MoveAmountView::Extreme) => seq!["rightmost"@],
            (m, MoveAmountView::Float(t)) => seq![move_mode_text(m), t],
            (m, MoveAmountView::Integer(i)) => seq![move_mode_text(m), int_text(i as int)],
        },
        CommandView::Shift(m, a) => seq![
            shift_mode_text(m),
            int_text(
                match a {
                    Some(v) => v as int,
                    None => 1,
                },
            ),
        ],
        CommandView::Search(t) => seq![t],
        CommandView::Jump(j) => match j {
            JumpModeView::Query(t) => seq![t],
            _ => Seq::empty(),
        },
        CommandView::Insert(s) => seq![insert_source_text(s)],
        CommandView::NewPlaylist(n) => seq![n],
        CommandView::Sort(k, d) => seq![sort_key_text(k), sort_direction_text(d)],
        CommandView::ShowRecommendations(m) => seq![target_mode_text(m)],
        CommandView::Execute(t) => seq![t],
        _ => Seq::empty(),
    }
}

/// How a command is written: its name and its arguments, separated by spaces.
pub open spec fn command_text(c: CommandView) -> Seq<char> {
    join_seq(seq![basename_of(c)] + extra_words(c), " "@)
}

impl TargetMode {
    pub fn to_string(&self) -> (r: String)
        ensures
            r@ == target_mode_text(*self),
    {
        match self {
            TargetMode::Current => string_of("current"),
            TargetMode::Selected => string_of("selected"),
        }
    }
}

impl MoveMode {
    pub fn to_string(&self) -> (r: String)
        ensures
            r@ == move_mode_text(*self),
    {
        match self {
            MoveMode::Up => string_of("up"),
            MoveMode::Down => string_of("down"),
            MoveMode::Left => string_of("left"),
            MoveMode::Right => string_of("right"),
            MoveMode::Playing => string_of("playing"),
        }
    }
}

impl SortKey {
    pub fn to_string(&self) -> (r: String)
        ensures
            r@ == sort_key_text(*self),
    {
        match self {
            SortKey::Title => string_of("title"),
            SortKey::Duration => string_of("duration"),
            SortKey::Artist => string_of("artist"),
            SortKey::Album => string_of("album"),
            SortKey::Added => string_of("added"),
        }
    }
}

impl SortDirection {
    pub fn to_string(&self) -> (r: String)
        ensures
            r@ == sort_direction_text(*self),
    {
        match self {
            SortDirection::Ascending => string_of("ascending"),
            SortDirection::Descending => string_of("descending"),
        }
    }
}

impl ShiftMode {
    pub fn to_string(&self) -> (r: String)
        ensures
            r@ == shift_mode_text(*self),
    {
        match self {
            ShiftMode::Up => string_of("up"),
            ShiftMode::Down => string_of("down"),
        }
    }
}

impl GotoMode {
    pub fn to_string(&self) -> (r: String)
        ensures
            r@ == goto_mode_text(*self),
    {
        match self {
            GotoMode::Album => string_of("album"),
            GotoMode::Artist => string_of("artist"),
        }
    }
}

impl SeekDirection {
    pub fn to_string(&self) -> (r: String)
        ensures
            r@ == seek_text(*self),
    {
        match self {
            SeekDirection::Absolute(pos) => int_to_string(*pos as i64),
            SeekDirection::Relative(delta) => {
                if *delta > 0 {
                    let mut s = string_of("+");
                    let t = int_to_string(*delta as i64);
                    s.append(t.as_str());
                    s
                } else {
                    int_to_string(*delta as i64)
                }
            },
        }
    }
}

impl InsertSource {
    pub fn to_string(&self) -> (r: String)
        ensures
            r@ == insert_source_text(self.view()),
    {
        match self {
            InsertSource::Clipboard => String::new(),
            InsertSource::Input(url) => url.to_string(),
        }
    }
}

impl Command {
    /// The name the command is written with.
    pub fn basename(&self) -> (r: &'static str)
        ensures
            r@ == basename_of(self.view()),
    {
        match self {
            Command::Quit => "quit",
            Command::TogglePlay => "playpause",
            Command::Stop => "stop",
            Command::Previous => "previous",
            Command::Next => "next",
            Command::Clear => "clear",
            Command::Queue => "queue",
            Command::PlayNext => "playnext",
            Command::Play => "play",
            Command::UpdateLibrary => "update",
            Command::Save => "save",
            Command::SaveCurrent => "save current",
            Command::SaveQueue => "save queue",
            Command::Add => "add",
            Command::AddCurrent => "add current",
            Command::Delete => "delete",
            Command::Focus(_) => "focus",
            Command::Seek(_) => "seek",
            Command::VolumeUp(_) => "volup",
            Command::VolumeDown(_) => "voldown",
            Command::Repeat(_) => "repeat",
            Command::Shuffle(_) => "shuffle",
            Command::Share(_) => "share",
            Command::Back => "back",
            Command::Open(_) => "open",
            Command::Goto(_) => "goto",
            Command::Move(_, _) => "move",
            Command::Shift(_, _) => "shift",
            Command::Search(_) => "search",
            Command::Jump(JumpMode::Previous) => "jumpprevious",
            Command::Jump(JumpMode::Next) => "jumpnext",
            Command::Jump(JumpMode::Query(_)) => "jump",
            Command::Help => "help",
            Command::ReloadConfig => "reload",
            Command::Noop => "noop",
            Command::Insert(_) => "insert",
            Command::NewPlaylist(_) => "newplaylist",
            Command::Sort(_, _) => "sort",
            Command::Logout => "logout",
            Command::ShowRecommendations(_) => "similar",
            Command::Redraw => "redraw",
            Command::Execute(_) => "exec",
            Command::Reconnect => "reconnect",
        }
    }

    fn extra_words_exec(&self) -> (r: Vec<String>)
        ensures
            views_of(r@) == extra_words(self.view()),
    {
        let mut v: Vec<String> = Vec::new();
        match self {
            Command::Focus(tab) => v.push(tab.clone()),
            Command::Seek(d) => v.push(d.to_string()),
            Command::VolumeUp(a) => v.push(int_to_string(*a as i64)),
            Command::VolumeDown(a) => v.push(int_to_string(*a as i64)),
            Command::Repeat(m) => match m {
                Some(m) => v.push(m.to_string()),
                None => {},
            },
            Command::Shuffle(b) => match b {
                Some(b) => v.push(
                    if *b {
                        string_of("on")
                    } else {
                        string_of("off")
                    },
                ),
                None => {},
            },
            Command::Share(m) => v.push(m.to_string()),
            Command::Open(m) => v.push(m.to_string()),
            Command::Goto(m) => v.push(m.to_string()),
            Command::Move(m, a) => match (m, a) {
                (MoveMode::Playing, _) => v.push(string_of("playing")),
                (MoveMode::Up, MoveAmount::Extreme) => v.push(string_of("top")),
                (MoveMode::Down, MoveAmount::Extreme) => v.push(string_of("bottom")),
                (MoveMode::Left, MoveAmount::Extreme) => v.push(string_of("leftmost")),
                (MoveMode::Right, MoveAmount::Extreme) => v.push(string_of("rightmost")),
                (m, MoveAmount::Float(t)) => {
                    v.push(m.to_string());
                    v.push(t.clone());
                },
                (m, MoveAmount::Integer(i)) => {
                    v.push(m.to_string());
                    v.push(int_to_string(*i as i64));
                },
            },
            Command::Shift(m, a) => {
                v.push(m.to_string());
                let n: i32 = match a {
                    Some(x) => *x,
                    None => 1,
                };
                v.push(int_to_string(n as i64));
            },
            Command::Search(t) => v.push(t.clone()),
            Command::Jump(j) => match j {
                JumpMode::Query(t) => v.push(t.clone()),
                _ => {},
            },
            Command::Insert(s) => v.push(s.to_string()),
            Command::NewPlaylist(n) => v.push(n.clone()),
            Command::Sort(k, d) => {
                v.push(k.to_string());
                v.push(d.to_string());
            },
            Command::ShowRecommendations(m) => v.push(m.to_string()),
            Command::Execute(t) => v.push(t.clone()),
            _ => {},
        }
        assert(views_of(v@) =~= extra_words(self.view()));
        v
    }

    /// The command written out: its name, then its arguments, separated by spaces.
    pub fn to_string(&self) -> (r: String)
        ensures
            r@ == command_text(self.view()),
    {
        let mut tokens: Vec<String> = Vec::new();
        tokens.push(string_of(self.basename()));
        let mut extras = self.extra_words_exec();
        tokens.append(&mut extras);
        assert(views_of(tokens@) =~= seq![basename_of(self.view())] + extra_words(self.view()));
        join(&tokens, " ")
    }
}


// ---------------------------------------------------------------------------
// Reading commands.
/// What `parse_duration::parse` gives for the text `s`: the duration in
/// milliseconds, or the text of the error it reports.
pub uninterp spec fn fancy_duration(s: Seq<char>) -> Result<u128, Seq<char>>;

/// Calls `parse_duration::parse` and converts its result: the duration's
/// `as_millis()`, or the error's `to_string()`. Claimed: the result is
/// `fancy_duration(s)`, a function of `s` alone.
#[verifier::external_body]
fn parse_fancy_duration(s: &[char]) -> (r: Result<u128, String>)
    ensures
        match fancy_duration(s@) {
            Ok(ms) => r == Ok::<u128, String>(ms),
            Err(e) => r matches Err(x) && x@ == e,
        },
{
    let text: String = s.iter().collect();
    match parse_duration::parse(&text) {
        Ok(d) => Ok(d.as_millis()),
        Err(e) => Err(e.to_string()),
    }
}

/// The names that stand for other commands.
pub open spec fn canonical_name(s: Seq<char>) -> Seq<char> {
    if s == "q"@ || s == "x"@ {
        "quit"@
    } else if s == "pause"@ || s == "toggleplay"@ || s == "toggleplayback"@ {
        "playpause"@
    } else if s == "loop"@ {
        "repeat"@
    } else {
        s
    }
}

/// The command lines found in `s`, split at `;`, where `;;` stands for a
/// literal `;`; the flag says whether the scan has just read a single `;`.
pub open spec fn segment_scan(s: Seq<char>) -> (Seq<Seq<char>>, bool)
    decreases s.len(),
{
    if s.len() == 0 {
        (seq![Seq::empty()], false)
    } else {
        let (ins, sep) = segment_scan(s.drop_last());
        let c = s.last();
        if !sep && c == ';' {
            (ins, true)
        } else if !sep || c == ';' {
            (ins.update(ins.len() - 1, ins.last().push(c)), false)
        } else {
            (ins.push(seq![c]), false)
        }
    }
}

pub open spec fn command_inputs(s: Seq<char>) -> Seq<Seq<char>> {
    segment_scan(s).0
}

pub open spec fn insufficient(cmd: Seq<char>, hint: Seq<char>) -> ParseErrorView {
    ParseErrorView::InsufficientArgs { cmd, hint: Some(hint) }
}

pub open spec fn bad_enum(arg: Seq<char>, accept: Seq<Seq<char>>, optional: bool) -> ParseErrorView {
    ParseErrorView::BadEnumArg { arg, accept, optional }
}

pub open spec fn arg_error(arg: Seq<char>, err: Seq<char>) -> ParseErrorView {
    ParseErrorView::ArgParseError { arg, err }
}

pub open spec fn too_large(arg: Seq<char>) -> ParseErrorView {
    arg_error(arg, "Duration value too large"@)
}

/// The milliseconds that a seek argument stands for: a plain number of
/// milliseconds, or else a duration as `parse_duration` reads it.
pub open spec fn millis_of(raw: Seq<char>) -> Result<u32, ParseErrorView> {
    match parse_int_spec(raw, false, 0, 0xffff_ffff) {
        Ok(v) => Ok(v as u32),
        Err(_) => duration_millis(raw, fancy_duration(raw)),
    }
}

/// The milliseconds of a seek argument `raw` that `parse_duration` read as
/// `parsed`: its error names the argument, and more than `u32::MAX`
/// milliseconds is too large.
pub open spec fn duration_millis(raw: Seq<char>, parsed: Result<u128, Seq<char>>) -> Result<u32, ParseErrorView> {
    match parsed {
        Err(msg) => Err(arg_error(raw, msg)),
        Ok(ms) => if ms <= 0xffff_ffff {
            Ok(ms as u32)
        } else {
            Err(too_large(raw))
        },
    }
}

/// Takes what `parse_duration` gave for the seek argument `raw` and turns it
/// into milliseconds, or into the error a seek command reports.
pub fn millis_from_duration(raw: &[char], parsed: Result<u128, String>) -> (r: Result<u32, CommandParseError>)
    ensures
        match duration_millis(
            raw@,
            match parsed {
                Ok(ms) => Ok(ms),
                Err(m) => Err(m@),
            },
        ) {
            Ok(m) => r == Ok::<u32, CommandParseError>(m),
            Err(e) => r matches Err(x) && x.view() == e,
        },
{
    match parsed {
        Err(msg) => Err(arg_err(raw, msg)),
        Ok(ms) => {
            if ms <= 0xffff_ffff {
                Ok(ms as u32)
            } else {
                proof {
                    reveal_strlit("Duration value too large");
                }
                Err(arg_err(raw, string_of("Duration value too large")))
            }
        },
    }
}

/// `seek <duration>`: `+` or `-` in front makes the seek relative.
pub open spec fn seek_spec(args: Seq<Seq<char>>) -> Result<CommandView, ParseErrorView> {
    if args.len() == 0 {
        Err(insufficient("seek"@, "a duration"@))
    } else {
        let arg = join_seq(args, " "@);
        let signed = arg.len() > 0 && (arg[0] == '+' || arg[0] == '-');
        let raw = if signed {
            trim(arg.drop_first())
        } else {
            arg
        };
        match millis_of(raw) {
            Err(e) => Err(e),
            Ok(m) => {
                if signed {
                    if m <= 0x7fff_ffff {
                        if arg[0] == '+' {
                            Ok(CommandView::Seek(SeekDirection::Relative(m as i32)))
                        } else {
                            Ok(CommandView::Seek(SeekDirection::Relative(-(m as int) as i32)))
                        }
                    } else {
                        Err(too_large(raw))
                    }
                } else {
                    Ok(CommandView::Seek(SeekDirection::Absolute(m)))
                }
            },
        }
    }
}

/// `volup [n]` and `voldown [n]`: the amount, `1` by default.
pub open spec fn volume_amount_spec(args: Seq<Seq<char>>) -> Result<u16, ParseErrorView> {
    if args.len() == 0 {
        Ok(1)
    } else {
        match parse_int_spec(args[0], false, 0, 0xffff) {
            Ok(v) => Ok(v as u16),
            Err(e) => Err(arg_error(args[0], int_error_message(e))),
        }
    }
}

pub open spec fn repeat_accept() -> Seq<Seq<char>> {
    seq!["list"@, "playlist"@, "queue"@, "track"@, "once"@, "single"@, "none"@, "off"@]
}

pub open spec fn repeat_spec(args: Seq<Seq<char>>) -> Result<CommandView, ParseErrorView> {
    if args.len() == 0 {
        Ok(CommandView::Repeat(None))
    } else {
        let a = args[0];
        if a == "list"@ || a == "playlist"@ || a == "queue"@ {
            Ok(CommandView::Repeat(Some(RepeatSetting::RepeatPlaylist)))
        } else if a == "track"@ || a == "once"@ || a == "single"@ {
            Ok(CommandView::Repeat(Some(RepeatSetting::RepeatTrack)))
        } else if a == "none"@ || a == "off"@ {
            Ok(CommandView::Repeat(Some(RepeatSetting::Off)))
        } else {
            Err(bad_enum(a, repeat_accept(), true))
        }
    }
}

pub open spec fn shuffle_spec(args: Seq<Seq<char>>) -> Result<CommandView, ParseErrorView> {
    if args.len() == 0 {
        Ok(CommandView::Shuffle(None))
    } else if args[0] == "on"@ {
        Ok(CommandView::Shuffle(Some(true)))
    } else if args[0] == "off"@ {
        Ok(CommandView::Shuffle(Some(false)))
    } else {
        Err(bad_enum(args[0], seq!["on"@, "off"@], true))
    }
}

/// The `selected|current` argument of `share`, `open` and `similar`.
pub open spec fn target_spec(cmd: Seq<char>, args: Seq<Seq<char>>) -> Result<TargetMode, ParseErrorView> {
    if args.len() == 0 {
        Err(insufficient(cmd, "selected|current"@))
    } else if args[0] == "selected"@ {
        Ok(TargetMode::Selected)
    } else if args[0] == "current"@ {
        Ok(TargetMode::Current)
    } else {
        Err(bad_enum(args[0], seq!["selected"@, "current"@], false))
    }
}

pub open spec fn goto_spec(args: Seq<Seq<char>>) -> Result<CommandView, ParseErrorView> {
    if args.len() == 0 {
        Err(insufficient("goto"@, "album|artist"@))
    } else if args[0] == "album"@ {
        Ok(CommandView::Goto(GotoMode::Album))
    } else if args[0] == "artist"@ {
        Ok(CommandView::Goto(GotoMode::Artist))
    } else {
        Err(bad_enum(args[0], seq!["album"@, "artist"@], false))
    }
}

pub open spec fn move_accept() -> Seq<Seq<char>> {
    seq![
        "playing"@,
        "top"@,
        "bottom"@,
        "leftmost"@,
        "rightmost"@,
        "pageup"@,
        "pagedown"@,
        "pageleft"@,
        "pageright"@,
        "up"@,
        "down"@,
        "left"@,
        "right"@,
    ]
}

pub open spec fn move_mode_of(a: Seq<char>) -> Option<MoveMode> {
    if a == "playing"@ {
        Some(MoveMode::Playing)
    } else if a == "top"@ || a == "pageup"@ || a == "up"@ {
        Some(MoveMode::Up)
    } else if a == "bottom"@ || a == "pagedown"@ || a == "down"@ {
        Some(MoveMode::Down)
    } else if a == "leftmost"@ || a == "pageleft"@ || a == "left"@ {
        Some(MoveMode::Left)
    } else if a == "rightmost"@ || a == "pageright"@ || a == "right"@ {
        Some(MoveMode::Right)
    } else {
        None
    }
}

/// The message `ParseFloatError` displays for a text that is not a float.
pub open spec fn float_error_message(s: Seq<char>) -> Seq<char> {
    if s.len() == 0 {
        "cannot parse float from empty string"@
    } else {
        "invalid float literal"@
    }
}

pub open spec fn move_amount_spec(a: Seq<char>, args: Seq<Seq<char>>) -> Result<
    MoveAmountView,
    ParseErrorView,
> {
    if a == "playing"@ {
        Ok(MoveAmountView::Integer(1))
    } else if a == "top"@ || a == "bottom"@ || a == "leftmost"@ || a == "rightmost"@ {
        Ok(MoveAmountView::Extreme)
    } else if a == "pageup"@ || a == "pagedown"@ || a == "pageleft"@ || a == "pageright"@ {
        if args.len() > 1 {
            if crate::float_text::is_float_text(args[1]) {
                Ok(MoveAmountView::Float(args[1]))
            } else {
                Err(arg_error(args[1], float_error_message(args[1])))
            }
        } else {
            Ok(MoveAmountView::Integer(1))
        }
    } else {
        if args.len() > 1 {
            match parse_int_spec(args[1], true, -0x8000_0000, 0x7fff_ffff) {
                Ok(v) => Ok(MoveAmountView::Integer(v as i32)),
                Err(e) => Err(arg_error(args[1], int_error_message(e))),
            }
        } else {
            Ok(MoveAmountView::Integer(1))
        }
    }
}

pub open spec fn move_spec(args: Seq<Seq<char>>) -> Result<CommandView, ParseErrorView> {
    if args.len() == 0 {
        Err(insufficient("move"@, "a direction"@))
    } else {
        match move_mode_of(args[0]) {
            None => Err(bad_enum(args[0], move_accept(), false)),
            Some(m) => match move_amount_spec(args[0], args) {
                Ok(a) => Ok(CommandView::Move(m, a)),
                Err(e) => Err(e),
            },
        }
    }
}

pub open spec fn shift_spec(args: Seq<Seq<char>>) -> Result<CommandView, ParseErrorView> {
    if args.len() == 0 {
        Err(insufficient("shift"@, "up|down"@))
    } else {
        let dir = if args[0] == "up"@ {
            Some(ShiftMode::Up)
        } else if args[0] == "down"@ {
            Some(ShiftMode::Down)
        } else {
            None
        };
        match dir {
            None => Err(bad_enum(args[0], seq!["up"@, "down"@], false)),
            Some(d) => {
                if args.len() > 1 {
                    match parse_int_spec(args[1], true, -0x8000_0000, 0x7fff_ffff) {
                        Ok(v) => Ok(CommandView::Shift(d, Some(v as i32))),
                        Err(e) => Err(arg_error(args[1], int_error_message(e))),
                    }
                } else {
                    Ok(CommandView::Shift(d, None))
                }
            },
        }
    }
}

pub open spec fn insert_spec(args: Seq<Seq<char>>) -> Result<CommandView, ParseErrorView> {
    if args.len() == 0 {
        Ok(CommandView::Insert(InsertSourceView::Clipboard))
    } else {
        match link_from_text(args[0]) {
            Some((id, t)) => Ok(CommandView::Insert(InsertSourceView::Input(id, t))),
            None => Err(arg_error(args[0], "Invalid Spotify URL"@)),
        }
    }
}

pub open spec fn sort_key_accept() -> Seq<Seq<char>> {
    seq!["title"@, "duration"@, "album"@, "added"@, "artist"@]
}

pub open spec fn sort_direction_accept() -> Seq<Seq<char>> {
    seq!["a"@, "asc"@, "ascending"@, "d"@, "desc"@, "descending"@]
}

pub open spec fn sort_spec(args: Seq<Seq<char>>) -> Result<CommandView, ParseErrorView> {
    if args.len() == 0 {
        Err(insufficient("sort"@, "a sort key"@))
    } else {
        let k = args[0];
        let key = if k == "title"@ {
            Some(SortKey::Title)
        } else if k == "duration"@ {
            Some(SortKey::Duration)
        } else if k == "album"@ {
            Some(SortKey::Album)
        } else if k == "added"@ {
            Some(SortKey::Added)
        } else if k == "artist"@ {
            Some(SortKey::Artist)
        } else {
            None
        };
        match key {
            None => Err(bad_enum(k, sort_key_accept(), false)),
            Some(key) => {
                if args.len() > 1 {
                    let d = args[1];
                    if d == "a"@ || d == "asc"@ || d == "ascending"@ {
                        Ok(CommandView::Sort(key, SortDirection::Ascending))
                    } else if d == "d"@ || d == "desc"@ || d == "descending"@ {
                        Ok(CommandView::Sort(key, SortDirection::Descending))
                    } else {
                        Err(bad_enum(d, sort_direction_accept(), true))
                    }
                } else {
                    Ok(CommandView::Sort(key, SortDirection::Ascending))
                }
            },
        }
    }
}

/// Reads one command from its words: the first word names the command
/// (aliases resolved), the others are its arguments.
pub open spec fn parse_words_spec(words: Seq<Seq<char>>) -> Result<CommandView, ParseErrorView> {
    let c = canonical_name(words[0]);
    let args = words.drop_first();
    if c == "quit"@ {
        Ok(CommandView::Quit)
    } else if c == "playpause"@ {
        Ok(CommandView::TogglePlay)
    } else if c == "stop"@ {
        Ok(CommandView::Stop)
    } else if c == "previous"@ {
        Ok(CommandView::Previous)
    } else if c == "next"@ {
        Ok(CommandView::Next)
    } else if c == "clear"@ {
        Ok(CommandView::Clear)
    } else if c == "queue"@ {
        Ok(CommandView::Queue)
    } else if c == "playnext"@ {
        Ok(CommandView::PlayNext)
    } else if c == "play"@ {
        Ok(CommandView::Play)
    } else if c == "update"@ {
        Ok(CommandView::UpdateLibrary)
    } else if c == "add"@ {
        if args.len() == 0 {
            Ok(CommandView::Add)
        } else if args[0] == "current"@ {
            Ok(CommandView::AddCurrent)
        } else {
            Err(bad_enum(args[0], seq!["current"@], true))
        }
    } else if c == "save"@ {
        if args.len() == 0 {
            Ok(CommandView::Save)
        } else if args[0] == "queue"@ {
            Ok(CommandView::SaveQueue)
        } else if args[0] == "current"@ {
            Ok(CommandView::SaveCurrent)
        } else {
            Err(bad_enum(args[0], seq!["queue"@, "current"@], true))
        }
    } else if c == "delete"@ {
        Ok(CommandView::Delete)
    } else if c == "focus"@ {
        if args.len() == 0 {
            Err(insufficient("focus"@, "queue|search|library"@))
        } else {
            Ok(CommandView::Focus(args[0]))
        }
    } else if c == "seek"@ {
        seek_spec(args)
    } else if c == "volup"@ {
        match volume_amount_spec(args) {
            Ok(a) => Ok(CommandView::VolumeUp(a)),
            Err(e) => Err(e),
        }
    } else if c == "voldown"@ {
        match volume_amount_spec(args) {
            Ok(a) => Ok(CommandView::VolumeDown(a)),
            Err(e) => Err(e),
        }
    } else if c == "repeat"@ {
        repeat_spec(args)
    } else if c == "shuffle"@ {
        shuffle_spec(args)
    } else if c == "share"@ {
        match target_spec("share"@, args) {
            Ok(m) => Ok(CommandView::Share(m)),
            Err(e) => Err(e),
        }
    } else if c == "back"@ {
        Ok(CommandView::Back)
    } else if c == "open"@ {
        match target_spec("open"@, args) {
            Ok(m) => Ok(CommandView::Open(m)),
            Err(e) => Err(e),
        }
    } else if c == "goto"@ {
        goto_spec(args)
    } else if c == "move"@ {
        move_spec(args)
    } else if c == "shift"@ {
        shift_spec(args)
    } else if c == "search"@ {
        Ok(CommandView::Search(join_seq(args, " "@)))
    } else if c == "jumpprevious"@ {
        Ok(CommandView::Jump(JumpModeView::Previous))
    } else if c == "jumpnext"@ {
        Ok(CommandView::Jump(JumpModeView::Next))
    } else if c == "jump"@ {
        Ok(CommandView::Jump(JumpModeView::Query(join_seq(args, " "@))))
    } else if c == "help"@ {
        Ok(CommandView::Help)
    } else if c == "reload"@ {
        Ok(CommandView::ReloadConfig)
    } else if c == "noop"@ {
        Ok(CommandView::Noop)
    } else if c == "insert"@ {
        insert_spec(args)
    } else if c == "newplaylist"@ {
        if args.len() > 0 {
            Ok(CommandView::NewPlaylist(join_seq(args, " "@)))
        } else {
            Err(insufficient("newplaylist"@, "a name"@))
        }
    } else if c == "sort"@ {
        sort_spec(args)
    } else if c == "logout"@ {
        Ok(CommandView::Logout)
    } else if c == "similar"@ {
        match target_spec("similar"@, args) {
            Ok(m) => Ok(CommandView::ShowRecommendations(m)),
            Err(e) => Err(e),
        }
    } else if c == "redraw"@ {
        Ok(CommandView::Redraw)
    } else if c == "exec"@ {
        Ok(CommandView::Execute(join_seq(args, " "@)))
    } else if c == "reconnect"@ {
        Ok(CommandView::Reconnect)
    } else {
        Err(ParseErrorView::NoSuchCommand { cmd: c })
    }
}

/// Reads the command lines `inputs` in order; blank lines give no command and
/// the first error ends the reading.
pub open spec fn parse_inputs_spec(inputs: Seq<Seq<char>>) -> Result<Seq<CommandView>, ParseErrorView>
    decreases inputs.len(),
{
    if inputs.len() == 0 {
        Ok(Seq::empty())
    } else {
        match parse_inputs_spec(inputs.drop_last()) {
            Err(e) => Err(e),
            Ok(cs) => {
                let words = split_ws(inputs.last());
                if words.len() == 0 {
                    Ok(cs)
                } else {
                    match parse_words_spec(words) {
                        Ok(c) => Ok(cs.push(c)),
                        Err(e) => Err(e),
                    }
                }
            },
        }
    }
}

/// What `parse` gives for the text `input`.
pub open spec fn parse_spec(input: Seq<char>) -> Result<Seq<CommandView>, ParseErrorView> {
    parse_inputs_spec(command_inputs(input))
}

pub open spec fn result_is(r: Result<Command, CommandParseError>, s: Result<CommandView, ParseErrorView>) -> bool {
    match s {
        Ok(c) => r matches Ok(x) && x.view() == c,
        Err(e) => r matches Err(x) && x.view() == e,
    }
}

fn push_str(v: &mut Vec<String>, s: &str)
    ensures
        views_of(final(v)@) == views_of(old(v)@).push(s@),
{
    v.push(string_of(s));
    assert(views_of(v@) =~= views_of(old(v)@).push(s@));
}

fn hint(cmd: &str, h: &str) -> (r: CommandParseError)
    ensures
        r.view() == insufficient(cmd@, h@),
{
    CommandParseError::InsufficientArgs { cmd: string_of(cmd), hint: Some(string_of(h)) }
}

fn arg_err(arg: &[char], err: String) -> (r: CommandParseError)
    ensures
        r.view() == arg_error(arg@, err@),
{
    CommandParseError::ArgParseError { arg: string_from_chars(arg), err }
}

fn seek_parse(args: &[Vec<char>]) -> (r: Result<Command, CommandParseError>)
    ensures
        result_is(r, seek_spec(char_views(args@))),
{
    if args.len() == 0 {
        return Err(hint("seek", "a duration"));
    }
    let arg = join_chars(args, " ");
    let signed = arg.len() > 0 && (arg[0] == '+' || arg[0] == '-');
    let raw = if signed {
        assert(arg@.skip(1) =~= arg@.drop_first());
        trim_from(&arg, 1)
    } else {
        arg.clone()
    };
    let millis: u32 = match parse_u32(&raw) {
        Ok(m) => m,
        Err(_) => match millis_from_duration(&raw, parse_fancy_duration(&raw)) {
            Ok(m) => m,
            Err(e) => return Err(e),
        },
    };
    if signed {
        if millis <= 0x7fff_ffff {
            if arg[0] == '+' {
                Ok(Command::Seek(SeekDirection::Relative(millis as i32)))
            } else {
                Ok(Command::Seek(SeekDirection::Relative(-(millis as i32))))
            }
        } else {
            Err(arg_err(&raw, string_of("Duration value too large")))
        }
    } else {
        Ok(Command::Seek(SeekDirection::Absolute(millis)))
    }
}

fn volume_amount(args: &[Vec<char>]) -> (r: Result<u16, CommandParseError>)
    ensures
        match volume_amount_spec(char_views(args@)) {
            Ok(a) => r == Ok::<u16, CommandParseError>(a),
            Err(e) => r matches Err(x) && x.view() == e,
        },
{
    if args.len() == 0 {
        return Ok(1);
    }
    match parse_u16(&args[0]) {
        Ok(v) => Ok(v),
        Err(e) => Err(arg_err(&args[0], e.message())),
    }
}

fn repeat_parse(args: &[Vec<char>]) -> (r: Result<Command, CommandParseError>)
    ensures
        result_is(r, repeat_spec(char_views(args@))),
{
    if args.len() == 0 {
        return Ok(Command::Repeat(None));
    }
    let a = &args[0];
    if chars_eq_str(a, "list") || chars_eq_str(a, "playlist") || chars_eq_str(a, "queue") {
        Ok(Command::Repeat(Some(RepeatSetting::RepeatPlaylist)))
    } else if chars_eq_str(a, "track") || chars_eq_str(a, "once") || chars_eq_str(a, "single") {
        Ok(Command::Repeat(Some(RepeatSetting::RepeatTrack)))
    } else if chars_eq_str(a, "none") || chars_eq_str(a, "off") {
        Ok(Command::Repeat(Some(RepeatSetting::Off)))
    } else {
        let mut accept: Vec<String> = Vec::new();
        push_str(&mut accept, "list");
        push_str(&mut accept, "playlist");
        push_str(&mut accept, "queue");
        push_str(&mut accept, "track");
        push_str(&mut accept, "once");
        push_str(&mut accept, "single");
        push_str(&mut accept, "none");
        push_str(&mut accept, "off");
        assert(views_of(accept@) =~= repeat_accept());
        Err(CommandParseError::BadEnumArg { arg: string_from_chars(a), accept, optional: true })
    }
}

fn shuffle_parse(args: &[Vec<char>]) -> (r: Result<Command, CommandParseError>)
    ensures
        result_is(r, shuffle_spec(char_views(args@))),
{
    if args.len() == 0 {
        Ok(Command::Shuffle(None))
    } else if chars_eq_str(&args[0], "on") {
        Ok(Command::Shuffle(Some(true)))
    } else if chars_eq_str(&args[0], "off") {
        Ok(Command::Shuffle(Some(false)))
    } else {
        let mut accept: Vec<String> = Vec::new();
        push_str(&mut accept, "on");
        push_str(&mut accept, "off");
        assert(views_of(accept@) =~= seq!["on"@, "off"@]);
        Err(CommandParseError::BadEnumArg { arg: string_from_chars(&args[0]), accept, optional: true })
    }
}

fn target_parse(cmd: &str, args: &[Vec<char>]) -> (r: Result<TargetMode, CommandParseError>)
    ensures
        match target_spec(cmd@, char_views(args@)) {
            Ok(m) => r == Ok::<TargetMode, CommandParseError>(m),
            Err(e) => r matches Err(x) && x.view() == e,
        },
{
    if args.len() == 0 {
        Err(hint(cmd, "selected|current"))
    } else if chars_eq_str(&args[0], "selected") {
        Ok(TargetMode::Selected)
    } else if chars_eq_str(&args[0], "current") {
        Ok(TargetMode::Current)
    } else {
        let mut accept: Vec<String> = Vec::new();
        push_str(&mut accept, "selected");
        push_str(&mut accept, "current");
        assert(views_of(accept@) =~= seq!["selected"@, "current"@]);
        Err(CommandParseError::BadEnumArg { arg: string_from_chars(&args[0]), accept, optional: false })
    }
}

fn goto_parse(args: &[Vec<char>]) -> (r: Result<Command, CommandParseError>)
    ensures
        result_is(r, goto_spec(char_views(args@))),
{
    if args.len() == 0 {
        Err(hint("goto", "album|artist"))
    } else if chars_eq_str(&args[0], "album") {
        Ok(Command::Goto(GotoMode::Album))
    } else if chars_eq_str(&args[0], "artist") {
        Ok(Command::Goto(GotoMode::Artist))
    } else {
        let mut accept: Vec<String> = Vec::new();
        push_str(&mut accept, "album");
        push_str(&mut accept, "artist");
        assert(views_of(accept@) =~= seq!["album"@, "artist"@]);
        Err(CommandParseError::BadEnumArg { arg: string_from_chars(&args[0]), accept, optional: false })
    }
}

fn move_parse(args: &[Vec<char>]) -> (r: Result<Command, CommandParseError>)
    ensures
        result_is(r, move_spec(char_views(args@))),
{
    if args.len() == 0 {
        return Err(hint("move", "a direction"));
    }
    let a = &args[0];
    let mode = if chars_eq_str(a, "playing") {
        MoveMode::Playing
    } else if chars_eq_str(a, "top") || chars_eq_str(a, "pageup") || chars_eq_str(a, "up") {
        MoveMode::Up
    } else if chars_eq_str(a, "bottom") || chars_eq_str(a, "pagedown") || chars_eq_str(a, "down") {
        MoveMode::Down
    } else if chars_eq_str(a, "leftmost") || chars_eq_str(a, "pageleft") || chars_eq_str(a, "left") {
        MoveMode::Left
    } else if chars_eq_str(a, "rightmost") || chars_eq_str(a, "pageright") || chars_eq_str(
        a,
        "right",
    ) {
        MoveMode::Right
    } else {
        let mut accept: Vec<String> = Vec::new();
        push_str(&mut accept, "playing");
        push_str(&mut accept, "top");
        push_str(&mut accept, "bottom");
        push_str(&mut accept, "leftmost");
        push_str(&mut accept, "rightmost");
        push_str(&mut accept, "pageup");
        push_str(&mut accept, "pagedown");
        push_str(&mut accept, "pageleft");
        push_str(&mut accept, "pageright");
        push_str(&mut accept, "up");
        push_str(&mut accept, "down");
        push_str(&mut accept, "left");
        push_str(&mut accept, "right");
        assert(views_of(accept@) =~= move_accept());
        return Err(CommandParseError::BadEnumArg { arg: string_from_chars(a), accept, optional: false });
    };
    let amount = if chars_eq_str(a, "playing") {
        MoveAmount::default()
    } else if chars_eq_str(a, "top") || chars_eq_str(a, "bottom") || chars_eq_str(a, "leftmost")
        || chars_eq_str(a, "rightmost") {
        MoveAmount::Extreme
    } else if chars_eq_str(a, "pageup") || chars_eq_str(a, "pagedown") || chars_eq_str(
        a,
        "pageleft",
    ) || chars_eq_str(a, "pageright") {
        if args.len() > 1 {
            if crate::float_text::check_float_text(&args[1]) {
                MoveAmount::Float(string_from_chars(&args[1]))
            } else {
                let msg = if args[1].len() == 0 {
                    string_of("cannot parse float from empty string")
                } else {
                    string_of("invalid float literal")
                };
                return Err(arg_err(&args[1], msg));
            }
        } else {
            MoveAmount::default()
        }
    } else {
        if args.len() > 1 {
            match parse_i32(&args[1]) {
                Ok(v) => MoveAmount::Integer(v),
                Err(e) => return Err(arg_err(&args[1], e.message())),
            }
        } else {
            MoveAmount::default()
        }
    };
    Ok(Command::Move(mode, amount))
}

fn shift_parse(args: &[Vec<char>]) -> (r: Result<Command, CommandParseError>)
    ensures
        result_is(r, shift_spec(char_views(args@))),
{
    if args.len() == 0 {
        return Err(hint("shift", "up|down"));
    }
    let dir = if chars_eq_str(&args[0], "up") {
        ShiftMode::Up
    } else if chars_eq_str(&args[0], "down") {
        ShiftMode::Down
    } else {
        let mut accept: Vec<String> = Vec::new();
        push_str(&mut accept, "up");
        push_str(&mut accept, "down");
        assert(views_of(accept@) =~= seq!["up"@, "down"@]);
        return Err(CommandParseError::BadEnumArg { arg: string_from_chars(&args[0]), accept, optional: false });
    };
    if args.len() > 1 {
        match parse_i32(&args[1]) {
            Ok(v) => Ok(Command::Shift(dir, Some(v))),
            Err(e) => Err(arg_err(&args[1], e.message())),
        }
    } else {
        Ok(Command::Shift(dir, None))
    }
}

fn insert_parse(args: &[Vec<char>]) -> (r: Result<Command, CommandParseError>)
    ensures
        result_is(r, insert_spec(char_views(args@))),
{
    if args.len() == 0 {
        return Ok(Command::Insert(InsertSource::Clipboard));
    }
    let text = string_from_chars(&args[0]);
    match SpotifyUrl::from_url(text.as_str()) {
        Some(url) => Ok(Command::Insert(InsertSource::Input(url))),
        None => Err(arg_err(&args[0], string_of("Invalid Spotify URL"))),
    }
}

fn sort_parse(args: &[Vec<char>]) -> (r: Result<Command, CommandParseError>)
    ensures
        result_is(r, sort_spec(char_views(args@))),
{
    if args.len() == 0 {
        return Err(hint("sort", "a sort key"));
    }
    let k = &args[0];
    let key = if chars_eq_str(k, "title") {
        SortKey::Title
    } else if chars_eq_str(k, "duration") {
        SortKey::Duration
    } else if chars_eq_str(k, "album") {
        SortKey::Album
    } else if chars_eq_str(k, "added") {
        SortKey::Added
    } else if chars_eq_str(k, "artist") {
        SortKey::Artist
    } else {
        let mut accept: Vec<String> = Vec::new();
        push_str(&mut accept, "title");
        push_str(&mut accept, "duration");
        push_str(&mut accept, "album");
        push_str(&mut accept, "added");
        push_str(&mut accept, "artist");
        assert(views_of(accept@) =~= sort_key_accept());
        return Err(CommandParseError::BadEnumArg { arg: string_from_chars(k), accept, optional: false });
    };
    if args.len() > 1 {
        let d = &args[1];
        if chars_eq_str(d, "a") || chars_eq_str(d, "asc") || chars_eq_str(d, "ascending") {
            Ok(Command::Sort(key, SortDirection::Ascending))
        } else if chars_eq_str(d, "d") || chars_eq_str(d, "desc") || chars_eq_str(d, "descending") {
            Ok(Command::Sort(key, SortDirection::Descending))
        } else {
            let mut accept: Vec<String> = Vec::new();
            push_str(&mut accept, "a");
            push_str(&mut accept, "asc");
            push_str(&mut accept, "ascending");
            push_str(&mut accept, "d");
            push_str(&mut accept, "desc");
            push_str(&mut accept, "descending");
            assert(views_of(accept@) =~= sort_direction_accept());
            Err(CommandParseError::BadEnumArg { arg: string_from_chars(d), accept, optional: true })
        }
    } else {
        Ok(Command::Sort(key, SortDirection::Ascending))
    }
}


/// A table of command aliases: each entry maps a name to the command it
/// stands for; a later entry for the same name replaces an earlier one.
pub struct AliasMap {
    pub entries: Vec<(String, String)>,
}

/// The mapping that a list of alias entries describes.
pub open spec fn alias_view(e: Seq<(String, String)>) -> Map<Seq<char>, Seq<char>>
    decreases e.len(),
{
    if e.len() == 0 {
        Map::empty()
    } else {
        alias_view(e.drop_last()).insert(e.last().0@, e.last().1@)
    }
}

proof fn lemma_alias_lookup(e: Seq<(String, String)>, k: Seq<char>, j: int)
    requires
        -1 <= j < e.len(),
        forall|i: int| j < i < e.len() ==> (#[trigger] e[i]).0@ != k,
        j >= 0 ==> e[j].0@ == k,
    ensures
        j >= 0 ==> (alias_view(e).contains_key(k) && alias_view(e)[k] == e[j].1@),
        j < 0 ==> !alias_view(e).contains_key(k),
    decreases e.len(),
{
    if e.len() > 0 {
        if j == e.len() - 1 {
        } else {
            lemma_alias_lookup(e.drop_last(), k, j);
        }
    }
}

impl AliasMap {
    pub open spec fn view(&self) -> Map<Seq<char>, Seq<char>> {
        alias_view(self.entries@)
    }

    pub fn new() -> (r: AliasMap)
        ensures
            r.view() == Map::<Seq<char>, Seq<char>>::empty(),
    {
        AliasMap { entries: Vec::new() }
    }

    /// Makes `name` stand for `cmd`.
    pub fn insert(&mut self, name: &str, cmd: &str)
        ensures
            final(self).view() == old(self).view().insert(name@, cmd@),
    {
        self.entries.push((string_of(name), string_of(cmd)));
        assert(self.entries@.drop_last() =~= old(self).entries@);
    }

    /// The command that `name` stands for, if any.
    pub fn get(&self, name: &[char]) -> (r: Option<String>)
        ensures
            match r {
                Some(v) => self.view().contains_key(name@) && self.view()[name@] == v@,
                None => !self.view().contains_key(name@),
            },
    {
        let mut i = self.entries.len();
        while i > 0
            invariant
                i <= self.entries@.len(),
                forall|k: int| i <= k < self.entries@.len() ==> (#[trigger] self.entries@[k]).0@
                    != name@,
            decreases i,
        {
            let key = chars_of(self.entries[i - 1].0.as_str());
            if crate::text::chars_eq(&key, name) {
                proof {
                    lemma_alias_lookup(self.entries@, name@, i - 1);
                }
                return Some(self.entries[i - 1].1.clone());
            }
            i = i - 1;
        }
        proof {
            lemma_alias_lookup(self.entries@, name@, -1);
        }
        None
    }
}

/// The aliases after making each of `names` stand for `cmd`, in order.
pub open spec fn aliases_after(m: Map<Seq<char>, Seq<char>>, cmd: Seq<char>, names: Seq<&str>) -> Map<
    Seq<char>,
    Seq<char>,
>
    decreases names.len(),
{
    if names.len() == 0 {
        m
    } else {
        aliases_after(m, cmd, names.drop_last()).insert(names.last()@, cmd)
    }
}

/// Makes each of `names` stand for the command `cmd`.
pub fn register_aliases(map: &mut AliasMap, cmd: &str, names: Vec<&str>)
    ensures
        final(map).view() == aliases_after(old(map).view(), cmd@, names@),
{
    let mut i: usize = 0;
    while i < names.len()
        invariant
            i <= names@.len(),
            map.view() == aliases_after(old(map).view(), cmd@, names@.take(i as int)),
        decreases names@.len() - i,
    {
        map.insert(names[i], cmd);
        assert(names@.take(i + 1).drop_last() =~= names@.take(i as int));
        i = i + 1;
    }
    assert(names@.take(names@.len() as int) =~= names@);
}

/// The command that `input` names: aliases are resolved (`q` and `x` stand
/// for `quit`; `pause`, `toggleplay` and `toggleplayback` for `playpause`;
/// `loop` for `repeat`), any other name stands for itself.
pub fn handle_aliases(input: &str) -> (r: String)
    ensures
        r@ == canonical_name(input@),
    decreases (if canonical_name(input@) == input@ { 0int } else { 1int }),
{
    proof {
        reveal_strlit("q");
        reveal_strlit("x");
        reveal_strlit("quit");
        reveal_strlit("pause");
        reveal_strlit("toggleplay");
        reveal_strlit("toggleplayback");
        reveal_strlit("playpause");
        reveal_strlit("loop");
        reveal_strlit("repeat");
    }
    let mut m = AliasMap::new();
    let mut names: Vec<&str> = Vec::new();
    names.push("q");
    names.push("x");
    proof {
        assert(names@.drop_last() =~= seq!["q"]);
        assert(names@.drop_last().drop_last() =~= Seq::<&str>::empty());
    }
    register_aliases(&mut m, "quit", names);
    let ghost m1 = Map::<Seq<char>, Seq<char>>::empty().insert("q"@, "quit"@).insert("x"@, "quit"@);
    assert(m.view() == m1) by {
        reveal_with_fuel(aliases_after, 3);
    }
    let mut names: Vec<&str> = Vec::new();
    names.push("pause");
    names.push("toggleplay");
    names.push("toggleplayback");
    proof {
        assert(names@.drop_last() =~= seq!["pause", "toggleplay"]);
        assert(names@.drop_last().drop_last() =~= seq!["pause"]);
        assert(names@.drop_last().drop_last().drop_last() =~= Seq::<&str>::empty());
    }
    register_aliases(&mut m, "playpause", names);
    let ghost m2 = m1.insert("pause"@, "playpause"@).insert("toggleplay"@, "playpause"@).insert(
        "toggleplayback"@,
        "playpause"@,
    );
    assert(m.view() == m2) by {
        reveal_with_fuel(aliases_after, 4);
    }
    let mut names: Vec<&str> = Vec::new();
    names.push("loop");
    proof {
        assert(names@.drop_last() =~= Seq::<&str>::empty());
    }
    register_aliases(&mut m, "repeat", names);
    let ghost m3 = m2.insert("loop"@, "repeat"@);
    assert(m.view() == m3) by {
        reveal_with_fuel(aliases_after, 2);
    }
    let v = chars_of(input);
    match m.get(&v) {
        Some(cmd) => {
            assert(m3.contains_key(input@) && m3[input@] == cmd@);
            assert(cmd@ == "quit"@ || cmd@ == "playpause"@ || cmd@ == "repeat"@);
            assert("q"@[0] == 'q' && "x"@[0] == 'x' && "quit"@[0] == 'q' && "loop"@[0] == 'l');
            assert("q"@ != "x"@ && "quit"@ != "loop"@);
            assert(canonical_name(input@) == cmd@);
            assert(canonical_name(cmd@) == cmd@);
            handle_aliases(cmd.as_str())
        },
        None => string_of(input),
    }
}

fn parse_words(words: Vec<Vec<char>>) -> (r: Result<Command, CommandParseError>)
    requires
        words@.len() > 0,
    ensures
        result_is(r, parse_words_spec(char_views(words@))),
{
    let ghost ws = char_views(words@);
    let mut args = words;
    let first = args.remove(0);
    assert(char_views(args@) =~= ws.drop_first());
    assert(first@ == ws[0]);
    let name = handle_aliases(string_from_chars(&first).as_str());
    let c = chars_of(name.as_str());
    if chars_eq_str(&c, "quit") {
        Ok(Command::Quit)
    } else if chars_eq_str(&c, "playpause") {
        Ok(Command::TogglePlay)
    } else if chars_eq_str(&c, "stop") {
        Ok(Command::Stop)
    } else if chars_eq_str(&c, "previous") {
        Ok(Command::Previous)
    } else if chars_eq_str(&c, "next") {
        Ok(Command::Next)
    } else if chars_eq_str(&c, "clear") {
        Ok(Command::Clear)
    } else if chars_eq_str(&c, "queue") {
        Ok(Command::Queue)
    } else if chars_eq_str(&c, "playnext") {
        Ok(Command::PlayNext)
    } else if chars_eq_str(&c, "play") {
        Ok(Command::Play)
    } else if chars_eq_str(&c, "update") {
        Ok(Command::UpdateLibrary)
    } else if chars_eq_str(&c, "add") {
        if args.len() == 0 {
            Ok(Command::Add)
        } else if chars_eq_str(&args[0], "current") {
            Ok(Command::AddCurrent)
        } else {
            let mut accept: Vec<String> = Vec::new();
            push_str(&mut accept, "current");
            assert(views_of(accept@) =~= seq!["current"@]);
            Err(CommandParseError::BadEnumArg { arg: string_from_chars(&args[0]), accept, optional: true })
        }
    } else if chars_eq_str(&c, "save") {
        if args.len() == 0 {
            Ok(Command::Save)
        } else if chars_eq_str(&args[0], "queue") {
            Ok(Command::SaveQueue)
        } else if chars_eq_str(&args[0], "current") {
            Ok(Command::SaveCurrent)
        } else {
            let mut accept: Vec<String> = Vec::new();
            push_str(&mut accept, "queue");
            push_str(&mut accept, "current");
            assert(views_of(accept@) =~= seq!["queue"@, "current"@]);
            Err(CommandParseError::BadEnumArg { arg: string_from_chars(&args[0]), accept, optional: true })
        }
    } else if chars_eq_str(&c, "delete") {
        Ok(Command::Delete)
    } else if chars_eq_str(&c, "focus") {
        if args.len() == 0 {
            Err(hint("focus", "queue|search|library"))
        } else {
            Ok(Command::Focus(string_from_chars(&args[0])))
        }
    } else if chars_eq_str(&c, "seek") {
        seek_parse(&args)
    } else if chars_eq_str(&c, "volup") {
        match volume_amount(&args) {
            Ok(a) => Ok(Command::VolumeUp(a)),
            Err(e) => Err(e),
        }
    } else if chars_eq_str(&c, "voldown") {
        match volume_amount(&args) {
            Ok(a) => Ok(Command::VolumeDown(a)),
            Err(e) => Err(e),
        }
    } else if chars_eq_str(&c, "repeat") {
        repeat_parse(&args)
    } else if chars_eq_str(&c, "shuffle") {
        shuffle_parse(&args)
    } else if chars_eq_str(&c, "share") {
        match target_parse("share", &args) {
            Ok(m) => Ok(Command::Share(m)),
            Err(e) => Err(e),
        }
    } else if chars_eq_str(&c, "back") {
        Ok(Command::Back)
    } else if chars_eq_str(&c, "open") {
        match target_parse("open", &args) {
            Ok(m) => Ok(Command::Open(m)),
            Err(e) => Err(e),
        }
    } else if chars_eq_str(&c, "goto") {
        goto_parse(&args)
    } else if chars_eq_str(&c, "move") {
        move_parse(&args)
    } else if chars_eq_str(&c, "shift") {
        shift_parse(&args)
    } else if chars_eq_str(&c, "search") {
        Ok(Command::Search(string_from_chars(&join_chars(&args, " "))))
    } else if chars_eq_str(&c, "jumpprevious") {
        Ok(Command::Jump(JumpMode::Previous))
    } else if chars_eq_str(&c, "jumpnext") {
        Ok(Command::Jump(JumpMode::Next))
    } else if chars_eq_str(&c, "jump") {
        Ok(Command::Jump(JumpMode::Query(string_from_chars(&join_chars(&args, " ")))))
    } else if chars_eq_str(&c, "help") {
        Ok(Command::Help)
    } else if chars_eq_str(&c, "reload") {
        Ok(Command::ReloadConfig)
    } else if chars_eq_str(&c, "noop") {
        Ok(Command::Noop)
    } else if chars_eq_str(&c, "insert") {
        insert_parse(&args)
    } else if chars_eq_str(&c, "newplaylist") {
        if args.len() > 0 {
            Ok(Command::NewPlaylist(string_from_chars(&join_chars(&args, " "))))
        } else {
            Err(hint("newplaylist", "a name"))
        }
    } else if chars_eq_str(&c, "sort") {
        sort_parse(&args)
    } else if chars_eq_str(&c, "logout") {
        Ok(Command::Logout)
    } else if chars_eq_str(&c, "similar") {
        match target_parse("similar", &args) {
            Ok(m) => Ok(Command::ShowRecommendations(m)),
            Err(e) => Err(e),
        }
    } else if chars_eq_str(&c, "redraw") {
        Ok(Command::Redraw)
    } else if chars_eq_str(&c, "exec") {
        Ok(Command::Execute(string_from_chars(&join_chars(&args, " "))))
    } else if chars_eq_str(&c, "reconnect") {
        Ok(Command::Reconnect)
    } else {
        Err(CommandParseError::NoSuchCommand { cmd: name })
    }
}

/// Splits `input` into command lines at `;`, where `;;` stands for `;`.
fn split_commands(input: &[char]) -> (r: Vec<Vec<char>>)
    ensures
        char_views(r@) == command_inputs(input@),
{
    let mut inputs: Vec<Vec<char>> = Vec::new();
    inputs.push(Vec::new());
    let mut sep = false;
    let mut i: usize = 0;
    while i < input.len()
        invariant
            i <= input@.len(),
            inputs@.len() > 0,
            char_views(inputs@) == segment_scan(input@.take(i as int)).0,
            sep == segment_scan(input@.take(i as int)).1,
        decreases input@.len() - i,
    {
        let c = input[i];
        assert(input@.take(i + 1).drop_last() =~= input@.take(i as int));
        assert(input@.take(i + 1).last() == c);
        let ghost before = char_views(inputs@);
        if !sep && c == ';' {
            sep = true;
        } else if !sep || c == ';' {
            let last = inputs.len() - 1;
            let mut cur = inputs.remove(last);
            cur.push(c);
            inputs.push(cur);
            assert(char_views(inputs@) =~= before.update(before.len() - 1, before.last().push(c)));
            sep = false;
        } else {
            let mut cur: Vec<char> = Vec::new();
            cur.push(c);
            inputs.push(cur);
            assert(char_views(inputs@) =~= before.push(seq![c]));
            sep = false;
        }
        i = i + 1;
    }
    assert(input@.take(input@.len() as int) =~= input@);
    inputs
}

pub open spec fn command_views(v: Seq<Command>) -> Seq<CommandView> {
    v.map_values(|c: Command| c.view())
}

/// Reads a command line: commands separated by `;` (`;;` stands for a
/// literal `;`), each a name followed by white-space separated arguments.
pub fn parse(input: &str) -> (r: Result<Vec<Command>, CommandParseError>)
    ensures
        match parse_spec(input@) {
            Ok(cs) => r matches Ok(v) && command_views(v@) == cs,
            Err(e) => r matches Err(x) && x.view() == e,
        },
{
    let chars = chars_of(input);
    let inputs = split_commands(&chars);
    let ghost ins = command_inputs(input@);
    let mut commands: Vec<Command> = Vec::new();
    let mut i: usize = 0;
    while i < inputs.len()
        invariant
            i <= inputs@.len(),
            ins == char_views(inputs@),
            ins == command_inputs(input@),
            parse_inputs_spec(ins.take(i as int)) matches Ok(cs) && command_views(commands@) == cs,
        decreases inputs@.len() - i,
    {
        assert(ins.take(i + 1).drop_last() =~= ins.take(i as int));
        assert(ins.take(i + 1).last() == inputs@[i as int]@);
        let words = split_whitespace(&inputs[i]);
        if words.len() > 0 {
            match parse_words(words) {
                Ok(c) => {
                    let ghost prev = command_views(commands@);
                    commands.push(c);
                    assert(command_views(commands@) =~= prev.push(c.view()));
                },
                Err(e) => {
                    proof {
                        assert(parse_inputs_spec(ins.take(i + 1)) == Err::<Seq<CommandView>, ParseErrorView>(e.view()));
                        lemma_parse_inputs_err(ins, i + 1);
                        assert(parse_spec(input@) == Err::<Seq<CommandView>, ParseErrorView>(e.view()));
                    }
                    return Err(e);
                },
            }
        }
        i = i + 1;
    }
    assert(ins.take(inputs@.len() as int) =~= ins);
    Ok(commands)
}

proof fn lemma_parse_inputs_err(ins: Seq<Seq<char>>, k: int)
    requires
        0 <= k <= ins.len(),
        parse_inputs_spec(ins.take(k)) is Err,
    ensures
        parse_inputs_spec(ins) == parse_inputs_spec(ins.take(k)),
    decreases ins.len() - k,
{
    if k < ins.len() {
        assert(ins.take(k + 1).drop_last() =~= ins.take(k));
        lemma_parse_inputs_err(ins, k + 1);
    } else {
        assert(ins.take(k) =~= ins);
    }
}


/// The commands of `a` followed by those of `b`, the first error winning.
pub open spec fn then_parse(
    a: Result<Seq<CommandView>, ParseErrorView>,
    b: Result<Seq<CommandView>, ParseErrorView>,
) -> Result<Seq<CommandView>, ParseErrorView> {
    match a {
        Err(e) => Err(e),
        Ok(x) => match b {
            Err(e) => Err(e),
            Ok(y) => Ok(x + y),
        },
    }
}

proof fn lemma_segment_scan_nonempty(s: Seq<char>)
    ensures
        segment_scan(s).0.len() > 0,
    decreases s.len(),
{
    if s.len() > 0 {
        lemma_segment_scan_nonempty(s.drop_last());
    }
}

/// Scanning on through text without `;` extends the last command line, or
/// starts a new one right after a `;`.
proof fn lemma_segment_scan_extend(p: Seq<char>, q: Seq<char>)
    requires
        !q.contains(';'),
    ensures
        q.len() == 0 ==> segment_scan(p + q) == segment_scan(p),
        q.len() > 0 ==> segment_scan(p + q) == (
            if segment_scan(p).1 {
                segment_scan(p).0.push(q)
            } else {
                segment_scan(p).0.update(
                    segment_scan(p).0.len() - 1,
                    segment_scan(p).0.last() + q,
                )
            },
            false,
        ),
    decreases q.len(),
{
    lemma_segment_scan_nonempty(p);
    if q.len() == 0 {
        assert(p + q =~= p);
    } else {
        let d = q.drop_last();
        let c = q.last();
        assert(!d.contains(';')) by {
            if d.contains(';') {
                let i = choose|i: int| 0 <= i < d.len() && d[i] == ';';
                assert(q[i] == ';');
            }
        }
        assert(c != ';') by {
            assert(q[q.len() - 1] == c);
        }
        lemma_segment_scan_extend(p, d);
        assert((p + q).drop_last() =~= p + d);
        assert((p + q).last() == c);
        let (ins, sep) = segment_scan(p);
        if d.len() == 0 {
            assert(q =~= seq![c]);
            if !sep {
                assert(ins.last().push(c) =~= ins.last() + q);
            }
        } else {
            let x = if sep {
                ins.push(d)
            } else {
                ins.update(ins.len() - 1, ins.last() + d)
            };
            assert(segment_scan(p + d) == (x, false));
            assert(d.push(c) =~= q);
            if sep {
                assert(x.update(x.len() - 1, x.last().push(c)) =~= ins.push(q));
            } else {
                assert(x.update(x.len() - 1, x.last().push(c)) =~= ins.update(ins.len() - 1, ins.last() + q));
            }
        }
    }
}

/// Text without `;` is one command line.
proof fn lemma_single_input(s: Seq<char>)
    requires
        !s.contains(';'),
    ensures
        command_inputs(s) == seq![s],
{
    lemma_segment_scan_extend(Seq::empty(), s);
    assert(Seq::<char>::empty() + s =~= s);
    assert(segment_scan(Seq::<char>::empty()) == (seq![Seq::<char>::empty()], false));
    if s.len() > 0 {
        assert(seq![Seq::<char>::empty()].update(0, Seq::<char>::empty() + s) =~= seq![s]);
    }
}

/// Reading the command lines `a` then `b` gives the commands of each in
/// turn, the first error winning.
proof fn lemma_parse_inputs_concat(a: Seq<Seq<char>>, b: Seq<Seq<char>>)
    ensures
        parse_inputs_spec(a + b) == then_parse(parse_inputs_spec(a), parse_inputs_spec(b)),
    decreases b.len(),
{
    if b.len() == 0 {
        assert(a + b =~= a);
        if let Ok(x) = parse_inputs_spec(a) {
            assert(x + Seq::<CommandView>::empty() =~= x);
        }
    } else {
        lemma_parse_inputs_concat(a, b.drop_last());
        assert((a + b).drop_last() =~= a + b.drop_last());
        assert((a + b).last() == b.last());
        if let Ok(x) = parse_inputs_spec(a) {
            if let Ok(y) = parse_inputs_spec(b.drop_last()) {
                let words = split_ws(b.last());
                if words.len() > 0 {
                    if let Ok(c) = parse_words_spec(words) {
                        assert((x + y).push(c) =~= x + y.push(c));
                    }
                }
            }
        }
    }
}

/// Two command lines joined by `;` give the commands of the first, then
/// those of the second, the first error winning.
pub proof fn lemma_parse_joined(s1: Seq<char>, s2: Seq<char>)
    requires
        !s1.contains(';'),
        !s2.contains(';'),
    ensures
        parse_spec(s1 + seq![';'] + s2) == then_parse(parse_spec(s1), parse_spec(s2)),
{
    lemma_single_input(s1);
    lemma_single_input(s2);
    let p = s1 + seq![';'];
    assert(p.drop_last() =~= s1);
    assert(p.last() == ';');
    lemma_segment_scan_nonempty(s1);
    assert(segment_scan(p) == (seq![s1], true));
    lemma_segment_scan_extend(p, s2);
    if s2.len() == 0 {
        assert(p + s2 =~= p);
        assert(command_inputs(s1 + seq![';'] + s2) == seq![s1]);
        assert(command_inputs(s2) == seq![Seq::<char>::empty()]);
        assert(crate::text::ws_scan(Seq::<char>::empty()) == (Seq::<Seq<char>>::empty(), Seq::<char>::empty()));
        assert(split_ws(Seq::<char>::empty()).len() == 0);
        assert(seq![Seq::<char>::empty()].drop_last() =~= Seq::<Seq<char>>::empty());
        assert(s2 =~= Seq::<char>::empty());
        let one = seq![Seq::<char>::empty()];
        assert(one.last() == Seq::<char>::empty());
        assert(parse_inputs_spec(one.drop_last()) == Ok::<Seq<CommandView>, ParseErrorView>(Seq::empty()));
        assert(parse_inputs_spec(one) == Ok::<Seq<CommandView>, ParseErrorView>(Seq::empty()));
        assert(parse_spec(s2) == Ok::<Seq<CommandView>, ParseErrorView>(Seq::empty()));
        if let Ok(x) = parse_spec(s1) {
            assert(x + Seq::<CommandView>::empty() =~= x);
        }
    } else {
        assert(command_inputs(s1 + seq![';'] + s2) == seq![s1].push(s2));
        assert(seq![s1].push(s2) =~= seq![s1] + seq![s2]);
        lemma_parse_inputs_concat(seq![s1], seq![s2]);
    }
}


/// The characters of the names and words that commands are written with.
proof fn lemma_command_words()
    ensures
        " "@ == seq![' '],
        "add"@ == seq!['a', 'd', 'd'],
        "add current"@ == seq!['a', 'd', 'd', ' ', 'c', 'u', 'r', 'r', 'e', 'n', 't'],
        "album"@ == seq!['a', 'l', 'b', 'u', 'm'],
        "artist"@ == seq!['a', 'r', 't', 'i', 's', 't'],
        "back"@ == seq!['b', 'a', 'c', 'k'],
        "clear"@ == seq!['c', 'l', 'e', 'a', 'r'],
        "current"@ == seq!['c', 'u', 'r', 'r', 'e', 'n', 't'],
        "delete"@ == seq!['d', 'e', 'l', 'e', 't', 'e'],
        "exec"@ == seq!['e', 'x', 'e', 'c'],
        "focus"@ == seq!['f', 'o', 'c', 'u', 's'],
        "goto"@ == seq!['g', 'o', 't', 'o'],
        "help"@ == seq!['h', 'e', 'l', 'p'],
        "insert"@ == seq!['i', 'n', 's', 'e', 'r', 't'],
        "jump"@ == seq!['j', 'u', 'm', 'p'],
        "jumpnext"@ == seq!['j', 'u', 'm', 'p', 'n', 'e', 'x', 't'],
        "jumpprevious"@ == seq!['j', 'u', 'm', 'p', 'p', 'r', 'e', 'v', 'i', 'o', 'u', 's'],
        "logout"@ == seq!['l', 'o', 'g', 'o', 'u', 't'],
        "loop"@ == seq!['l', 'o', 'o', 'p'],
        "move"@ == seq!['m', 'o', 'v', 'e'],
        "newplaylist"@ == seq!['n', 'e', 'w', 'p', 'l', 'a', 'y', 'l', 'i', 's', 't'],
        "next"@ == seq!['n', 'e', 'x', 't'],
        "noop"@ == seq!['n', 'o', 'o', 'p'],
        "off"@ == seq!['o', 'f', 'f'],
        "on"@ == seq!['o', 'n'],
        "open"@ == seq!['o', 'p', 'e', 'n'],
        "pause"@ == seq!['p', 'a', 'u', 's', 'e'],
        "play"@ == seq!['p', 'l', 'a', 'y'],
        "playnext"@ == seq!['p', 'l', 'a', 'y', 'n', 'e', 'x', 't'],
        "playpause"@ == seq!['p', 'l', 'a', 'y', 'p', 'a', 'u', 's', 'e'],
        "previous"@ == seq!['p', 'r', 'e', 'v', 'i', 'o', 'u', 's'],
        "q"@ == seq!['q'],
        "queue"@ == seq!['q', 'u', 'e', 'u', 'e'],
        "quit"@ == seq!['q', 'u', 'i', 't'],
        "reconnect"@ == seq!['r', 'e', 'c', 'o', 'n', 'n', 'e', 'c', 't'],
        "redraw"@ == seq!['r', 'e', 'd', 'r', 'a', 'w'],
        "reload"@ == seq!['r', 'e', 'l', 'o', 'a', 'd'],
        "repeat"@ == seq!['r', 'e', 'p', 'e', 'a', 't'],
        "save"@ == seq!['s', 'a', 'v', 'e'],
        "save current"@ == seq!['s', 'a', 'v', 'e', ' ', 'c', 'u', 'r', 'r', 'e', 'n', 't'],
        "save queue"@ == seq!['s', 'a', 'v', 'e', ' ', 'q', 'u', 'e', 'u', 'e'],
        "search"@ == seq!['s', 'e', 'a', 'r', 'c', 'h'],
        "seek"@ == seq!['s', 'e', 'e', 'k'],
        "selected"@ == seq!['s', 'e', 'l', 'e', 'c', 't', 'e', 'd'],
        "share"@ == seq!['s', 'h', 'a', 'r', 'e'],
        "shift"@ == seq!['s', 'h', 'i', 'f', 't'],
        "shuffle"@ == seq!['s', 'h', 'u', 'f', 'f', 'l', 'e'],
        "similar"@ == seq!['s', 'i', 'm', 'i', 'l', 'a', 'r'],
        "sort"@ == seq!['s', 'o', 'r', 't'],
        "stop"@ == seq!['s', 't', 'o', 'p'],
        "toggleplay"@ == seq!['t', 'o', 'g', 'g', 'l', 'e', 'p', 'l', 'a', 'y'],
        "toggleplayback"@ == seq!['t', 'o', 'g', 'g', 'l', 'e', 'p', 'l', 'a', 'y', 'b', 'a', 'c', 'k'],
        "update"@ == seq!['u', 'p', 'd', 'a', 't', 'e'],
        "voldown"@ == seq!['v', 'o', 'l', 'd', 'o', 'w', 'n'],
        "volup"@ == seq!['v', 'o', 'l', 'u', 'p'],
        "x"@ == seq!['x'],
{
    reveal_strlit(" ");
    reveal_strlit("add");
    reveal_strlit("add current");
    reveal_strlit("album");
    reveal_strlit("artist");
    reveal_strlit("back");
    reveal_strlit("clear");
    reveal_strlit("current");
    reveal_strlit("delete");
    reveal_strlit("exec");
    reveal_strlit("focus");
    reveal_strlit("goto");
    reveal_strlit("help");
    reveal_strlit("insert");
    reveal_strlit("jump");
    reveal_strlit("jumpnext");
    reveal_strlit("jumpprevious");
    reveal_strlit("logout");
    reveal_strlit("loop");
    reveal_strlit("move");
    reveal_strlit("newplaylist");
    reveal_strlit("next");
    reveal_strlit("noop");
    reveal_strlit("off");
    reveal_strlit("on");
    reveal_strlit("open");
    reveal_strlit("pause");
    reveal_strlit("play");
    reveal_strlit("playnext");
    reveal_strlit("playpause");
    reveal_strlit("previous");
    reveal_strlit("q");
    reveal_strlit("queue");
    reveal_strlit("quit");
    reveal_strlit("reconnect");
    reveal_strlit("redraw");
    reveal_strlit("reload");
    reveal_strlit("repeat");
    reveal_strlit("save");
    reveal_strlit("save current");
    reveal_strlit("save queue");
    reveal_strlit("search");
    reveal_strlit("seek");
    reveal_strlit("selected");
    reveal_strlit("share");
    reveal_strlit("shift");
    reveal_strlit("shuffle");
    reveal_strlit("similar");
    reveal_strlit("sort");
    reveal_strlit("stop");
    reveal_strlit("toggleplay");
    reveal_strlit("toggleplayback");
    reveal_strlit("update");
    reveal_strlit("voldown");
    reveal_strlit("volup");
    reveal_strlit("x");
}

/// A word of lower-case ASCII letters.
pub open spec fn is_word(w: Seq<char>) -> bool {
    w.len() > 0 && forall|i: int| 0 <= i < w.len() ==> 'a' <= #[trigger] w[i] <= 'z'
}

proof fn lemma_ws_scan_letters(p: Seq<char>, q: Seq<char>)
    requires
        forall|i: int| 0 <= i < q.len() ==> 'a' <= #[trigger] q[i] <= 'z',
    ensures
        crate::text::ws_scan(p + q) == (crate::text::ws_scan(p).0, crate::text::ws_scan(p).1 + q),
    decreases q.len(),
{
    if q.len() == 0 {
        assert(p + q =~= p);
        assert(crate::text::ws_scan(p).1 + q =~= crate::text::ws_scan(p).1);
    } else {
        let d = q.drop_last();
        assert forall|i: int| 0 <= i < d.len() implies 'a' <= #[trigger] d[i] <= 'z' by {
            assert(d[i] == q[i]);
        }
        lemma_ws_scan_letters(p, d);
        assert((p + q).drop_last() =~= p + d);
        assert((p + q).last() == q[q.len() - 1]);
        assert(!crate::text::is_ws(q[q.len() - 1]));
        assert((crate::text::ws_scan(p).1 + d).push(q.last()) =~= crate::text::ws_scan(p).1 + q);
    }
}

proof fn lemma_no_semicolon(w: Seq<char>)
    requires
        forall|i: int| 0 <= i < w.len() ==> ('a' <= #[trigger] w[i] <= 'z' || w[i] == ' '),
    ensures
        !w.contains(';'),
{
    if w.contains(';') {
        let i = choose|i: int| 0 <= i < w.len() && w[i] == ';';
        assert('a' <= w[i] <= 'z' || w[i] == ' ');
    }
}

/// A word is one command line of one word.
proof fn lemma_one_word(w: Seq<char>)
    requires
        is_word(w),
    ensures
        command_inputs(w) == seq![w],
        split_ws(w) == seq![w],
{
    lemma_no_semicolon(w);
    lemma_single_input(w);
    lemma_ws_scan_letters(Seq::empty(), w);
    assert(Seq::<char>::empty() + w =~= w);
    assert(crate::text::ws_scan(Seq::<char>::empty()) == (Seq::<Seq<char>>::empty(), Seq::<char>::empty()));
    assert(Seq::<Seq<char>>::empty().push(w) =~= seq![w]);
}

/// Two words with a space between are one command line of two words.
proof fn lemma_two_words(w1: Seq<char>, w2: Seq<char>)
    requires
        is_word(w1),
        is_word(w2),
    ensures
        command_inputs(w1 + seq![' '] + w2) == seq![w1 + seq![' '] + w2],
        split_ws(w1 + seq![' '] + w2) == seq![w1, w2],
{
    let t = w1 + seq![' '] + w2;
    assert forall|i: int| 0 <= i < t.len() implies ('a' <= #[trigger] t[i] <= 'z' || t[i] == ' ') by {
        if i < w1.len() {
            assert(t[i] == w1[i]);
        } else if i > w1.len() {
            assert(t[i] == w2[i - w1.len() - 1]);
        }
    }
    lemma_no_semicolon(t);
    lemma_single_input(t);
    lemma_ws_scan_letters(Seq::empty(), w1);
    assert(Seq::<char>::empty() + w1 =~= w1);
    assert(crate::text::ws_scan(Seq::<char>::empty()) == (Seq::<Seq<char>>::empty(), Seq::<char>::empty()));
    let p = w1 + seq![' '];
    assert(p.drop_last() =~= w1);
    assert(p.last() == ' ');
    assert(crate::text::ws_scan(p) == (seq![w1], Seq::<char>::empty())) by {
        assert(Seq::<Seq<char>>::empty().push(w1) =~= seq![w1]);
    }
    lemma_ws_scan_letters(p, w2);
    assert(Seq::<char>::empty() + w2 =~= w2);
    assert(seq![w1].push(w2) =~= seq![w1, w2]);
}

/// A single command line of words reads as the command of those words.
proof fn lemma_parse_one_line(t: Seq<char>, words: Seq<Seq<char>>)
    requires
        command_inputs(t) == seq![t],
        split_ws(t) == words,
        words.len() > 0,
    ensures
        parse_spec(t) == match parse_words_spec(words) {
            Ok(c) => Ok(seq![c]),
            Err(e) => Err(e),
        },
{
    let one = seq![t];
    assert(one.drop_last() =~= Seq::<Seq<char>>::empty());
    assert(one.last() == t);
    assert(parse_inputs_spec(Seq::<Seq<char>>::empty()) == Ok::<Seq<CommandView>, ParseErrorView>(Seq::empty()));
    assert(parse_spec(t) == parse_inputs_spec(one));
    if let Ok(c) = parse_words_spec(words) {
        assert(Seq::<CommandView>::empty().push(c) =~= seq![c]);
    }
}

proof fn lemma_reads_back_quit()
    ensures
        parse_spec(command_text(CommandView::Quit)) == Ok::<Seq<CommandView>, ParseErrorView>(seq![CommandView::Quit]),
{
    lemma_command_words();
    assert(seq![basename_of(CommandView::Quit)] + extra_words(CommandView::Quit) =~= seq!["quit"@]);
    assert(command_text(CommandView::Quit) == "quit"@);
    assert(is_word("quit"@));
    lemma_one_word("quit"@);
    assert("quit"@[0] != "back"@[0]);
    assert("quit"@[0] != "exec"@[0]);
    assert("quit"@[0] != "goto"@[0]);
    assert("quit"@[0] != "help"@[0]);
    assert("quit"@[0] != "jump"@[0]);
    assert("quit"@[0] != "loop"@[0]);
    assert("quit"@[0] != "move"@[0]);
    assert("quit"@[0] != "next"@[0]);
    assert("quit"@[0] != "noop"@[0]);
    assert("quit"@[0] != "open"@[0]);
    assert("quit"@[0] != "play"@[0]);
    assert("quit"@[0] != "save"@[0]);
    assert("quit"@[0] != "seek"@[0]);
    assert("quit"@[0] != "sort"@[0]);
    assert("quit"@[0] != "stop"@[0]);
    lemma_parse_one_line("quit"@, seq!["quit"@]);
    assert(parse_words_spec(seq!["quit"@]) == Ok::<CommandView, ParseErrorView>(CommandView::Quit));
}

proof fn lemma_reads_back_toggleplay()
    ensures
        parse_spec(command_text(CommandView::TogglePlay)) == Ok::<Seq<CommandView>, ParseErrorView>(seq![CommandView::TogglePlay]),
{
    lemma_command_words();
    assert(seq![basename_of(CommandView::TogglePlay)] + extra_words(CommandView::TogglePlay) =~= seq!["playpause"@]);
    assert(command_text(CommandView::TogglePlay) == "playpause"@);
    assert(is_word("playpause"@));
    lemma_one_word("playpause"@);
    assert("playpause"@[0] != "reconnect"@[0]);
    lemma_parse_one_line("playpause"@, seq!["playpause"@]);
    assert(parse_words_spec(seq!["playpause"@]) == Ok::<CommandView, ParseErrorView>(CommandView::TogglePlay));
}

proof fn lemma_reads_back_stop()
    ensures
        parse_spec(command_text(CommandView::Stop)) == Ok::<Seq<CommandView>, ParseErrorView>(seq![CommandView::Stop]),
{
    lemma_command_words();
    assert(seq![basename_of(CommandView::Stop)] + extra_words(CommandView::Stop) =~= seq!["stop"@]);
    assert(command_text(CommandView::Stop) == "stop"@);
    assert(is_word("stop"@));
    lemma_one_word("stop"@);
    assert("stop"@[0] != "back"@[0]);
    assert("stop"@[0] != "exec"@[0]);
    assert("stop"@[0] != "goto"@[0]);
    assert("stop"@[0] != "help"@[0]);
    assert("stop"@[0] != "jump"@[0]);
    assert("stop"@[0] != "loop"@[0]);
    assert("stop"@[0] != "move"@[0]);
    assert("stop"@[0] != "next"@[0]);
    assert("stop"@[0] != "noop"@[0]);
    assert("stop"@[0] != "open"@[0]);
    assert("stop"@[0] != "play"@[0]);
    assert("stop"@[0] != "quit"@[0]);
    assert("stop"@[1] != "save"@[1]);
    assert("stop"@[1] != "seek"@[1]);
    assert("stop"@[1] != "sort"@[1]);
    lemma_parse_one_line("stop"@, seq!["stop"@]);
    assert(parse_words_spec(seq!["stop"@]) == Ok::<CommandView, ParseErrorView>(CommandView::Stop));
}

proof fn lemma_reads_back_previous()
    ensures
        parse_spec(command_text(CommandView::Previous)) == Ok::<Seq<CommandView>, ParseErrorView>(seq![CommandView::Previous]),
{
    lemma_command_words();
    assert(seq![basename_of(CommandView::Previous)] + extra_words(CommandView::Previous) =~= seq!["previous"@]);
    assert(command_text(CommandView::Previous) == "previous"@);
    assert(is_word("previous"@));
    lemma_one_word("previous"@);
    assert("previous"@[0] != "jumpnext"@[0]);
    assert("previous"@[1] != "playnext"@[1]);
    assert("previous"@[0] != "selected"@[0]);
    lemma_parse_one_line("previous"@, seq!["previous"@]);
    assert(parse_words_spec(seq!["previous"@]) == Ok::<CommandView, ParseErrorView>(CommandView::Previous));
}

proof fn lemma_reads_back_next()
    ensures
        parse_spec(command_text(CommandView::Next)) == Ok::<Seq<CommandView>, ParseErrorView>(seq![CommandView::Next]),
{
    lemma_command_words();
    assert(seq![basename_of(CommandView::Next)] + extra_words(CommandView::Next) =~= seq!["next"@]);
    assert(command_text(CommandView::Next) == "next"@);
    assert(is_word("next"@));
    lemma_one_word("next"@);
    assert("next"@[0] != "back"@[0]);
    assert("next"@[0] != "exec"@[0]);
    assert("next"@[0] != "goto"@[0]);
    assert("next"@[0] != "help"@[0]);
    assert("next"@[0] != "jump"@[0]);
    assert("next"@[0] != "loop"@[0]);
    assert("next"@[0] != "move"@[0]);
    assert("next"@[1] != "noop"@[1]);
    assert("next"@[0] != "open"@[0]);
    assert("next"@[0] != "play"@[0]);
    assert("next"@[0] != "quit"@[0]);
    assert("next"@[0] != "save"@[0]);
    assert("next"@[0] != "seek"@[0]);
    assert("next"@[0] != "sort"@[0]);
    assert("next"@[0] != "stop"@[0]);
    lemma_parse_one_line("next"@, seq!["next"@]);
    assert(parse_words_spec(seq!["next"@]) == Ok::<CommandView, ParseErrorView>(CommandView::Next));
}

proof fn lemma_reads_back_clear()
    ensures
        parse_spec(command_text(CommandView::Clear)) == Ok::<Seq<CommandView>, ParseErrorView>(seq![CommandView::Clear]),
{
    lemma_command_words();
    assert(seq![basename_of(CommandView::Clear)] + extra_words(CommandView::Clear) =~= seq!["clear"@]);
    assert(command_text(CommandView::Clear) == "clear"@);
    assert(is_word("clear"@));
    lemma_one_word("clear"@);
    assert("clear"@[0] != "album"@[0]);
    assert("clear"@[0] != "focus"@[0]);
    assert("clear"@[0] != "pause"@[0]);
    assert("clear"@[0] != "queue"@[0]);
    assert("clear"@[0] != "share"@[0]);
    assert("clear"@[0] != "shift"@[0]);
    assert("clear"@[0] != "volup"@[0]);
    lemma_parse_one_line("clear"@, seq!["clear"@]);
    assert(parse_words_spec(seq!["clear"@]) == Ok::<CommandView, ParseErrorView>(CommandView::Clear));
}

proof fn lemma_reads_back_queue()
    ensures
        parse_spec(command_text(CommandView::Queue)) == Ok::<Seq<CommandView>, ParseErrorView>(seq![CommandView::Queue]),
{
    lemma_command_words();
    assert(seq![basename_of(CommandView::Queue)] + extra_words(CommandView::Queue) =~= seq!["queue"@]);
    assert(command_text(CommandView::Queue) == "queue"@);
    assert(is_word("queue"@));
    lemma_one_word("queue"@);
    assert("queue"@[0] != "album"@[0]);
    assert("queue"@[0] != "clear"@[0]);
    assert("queue"@[0] != "focus"@[0]);
    assert("queue"@[0] != "pause"@[0]);
    assert("queue"@[0] != "share"@[0]);
    assert("queue"@[0] != "shift"@[0]);
    assert("queue"@[0] != "volup"@[0]);
    lemma_parse_one_line("queue"@, seq!["queue"@]);
    assert(parse_words_spec(seq!["queue"@]) == Ok::<CommandView, ParseErrorView>(CommandView::Queue));
}

proof fn lemma_reads_back_playnext()
    ensures
        parse_spec(command_text(CommandView::PlayNext)) == Ok::<Seq<CommandView>, ParseErrorView>(seq![CommandView::PlayNext]),
{
    lemma_command_words();
    assert(seq![basename_of(CommandView::PlayNext)] + extra_words(CommandView::PlayNext) =~= seq!["playnext"@]);
    assert(command_text(CommandView::PlayNext) == "playnext"@);
    assert(is_word("playnext"@));
    lemma_one_word("playnext"@);
    assert("playnext"@[0] != "jumpnext"@[0]);
    assert("playnext"@[1] != "previous"@[1]);
    assert("playnext"@[0] != "selected"@[0]);
    lemma_parse_one_line("playnext"@, seq!["playnext"@]);
    assert(parse_words_spec(seq!["playnext"@]) == Ok::<CommandView, ParseErrorView>(CommandView::PlayNext));
}

proof fn lemma_reads_back_play()
    ensures
        parse_spec(command_text(CommandView::Play)) == Ok::<Seq<CommandView>, ParseErrorView>(seq![CommandView::Play]),
{
    lemma_command_words();
    assert(seq![basename_of(CommandView::Play)] + extra_words(CommandView::Play) =~= seq!["play"@]);
    assert(command_text(CommandView::Play) == "play"@);
    assert(is_word("play"@));
    lemma_one_word("play"@);
    assert("play"@[0] != "back"@[0]);
    assert("play"@[0] != "exec"@[0]);
    assert("play"@[0] != "goto"@[0]);
    assert("play"@[0] != "help"@[0]);
    assert("play"@[0] != "jump"@[0]);
    assert("play"@[0] != "loop"@[0]);
    assert("play"@[0] != "move"@[0]);
    assert("play"@[0] != "next"@[0]);
    assert("play"@[0] != "noop"@[0]);
    assert("play"@[0] != "open"@[0]);
    assert("play"@[0] != "quit"@[0]);
    assert("play"@[0] != "save"@[0]);
    assert("play"@[0] != "seek"@[0]);
    assert("play"@[0] != "sort"@[0]);
    assert("play"@[0] != "stop"@[0]);
    lemma_parse_one_line("play"@, seq!["play"@]);
    assert(parse_words_spec(seq!["play"@]) == Ok::<CommandView, ParseErrorView>(CommandView::Play));
}

proof fn lemma_reads_back_updatelibrary()
    ensures
        parse_spec(command_text(CommandView::UpdateLibrary)) == Ok::<Seq<CommandView>, ParseErrorView>(seq![CommandView::UpdateLibrary]),
{
    lemma_command_words();
    assert(seq![basename_of(CommandView::UpdateLibrary)] + extra_words(CommandView::UpdateLibrary) =~= seq!["update"@]);
    assert(command_text(CommandView::UpdateLibrary) == "update"@);
    assert(is_word("update"@));
    lemma_one_word("update"@);
    assert("update"@[0] != "artist"@[0]);
    assert("update"@[0] != "delete"@[0]);
    assert("update"@[0] != "insert"@[0]);
    assert("update"@[0] != "logout"@[0]);
    assert("update"@[0] != "redraw"@[0]);
    assert("update"@[0] != "reload"@[0]);
    assert("update"@[0] != "repeat"@[0]);
    assert("update"@[0] != "search"@[0]);
    lemma_parse_one_line("update"@, seq!["update"@]);
    assert(parse_words_spec(seq!["update"@]) == Ok::<CommandView, ParseErrorView>(CommandView::UpdateLibrary));
}

proof fn lemma_reads_back_save()
    ensures
        parse_spec(command_text(CommandView::Save)) == Ok::<Seq<CommandView>, ParseErrorView>(seq![CommandView::Save]),
{
    lemma_command_words();
    assert(seq![basename_of(CommandView::Save)] + extra_words(CommandView::Save) =~= seq!["save"@]);
    assert(command_text(CommandView::Save) == "save"@);
    assert(is_word("save"@));
    lemma_one_word("save"@);
    assert("save"@[0] != "back"@[0]);
    assert("save"@[0] != "exec"@[0]);
    assert("save"@[0] != "goto"@[0]);
    assert("save"@[0] != "help"@[0]);
    assert("save"@[0] != "jump"@[0]);
    assert("save"@[0] != "loop"@[0]);
    assert("save"@[0] != "move"@[0]);
    assert("save"@[0] != "next"@[0]);
    assert("save"@[0] != "noop"@[0]);
    assert("save"@[0] != "open"@[0]);
    assert("save"@[0] != "play"@[0]);
    assert("save"@[0] != "quit"@[0]);
    assert("save"@[1] != "seek"@[1]);
    assert("save"@[1] != "sort"@[1]);
    assert("save"@[1] != "stop"@[1]);
    lemma_parse_one_line("save"@, seq!["save"@]);
    assert(parse_words_spec(seq!["save"@]) == Ok::<CommandView, ParseErrorView>(CommandView::Save));
}

proof fn lemma_reads_back_add()
    ensures
        parse_spec(command_text(CommandView::Add)) == Ok::<Seq<CommandView>, ParseErrorView>(seq![CommandView::Add]),
{
    lemma_command_words();
    assert(seq![basename_of(CommandView::Add)] + extra_words(CommandView::Add) =~= seq!["add"@]);
    assert(command_text(CommandView::Add) == "add"@);
    assert(is_word("add"@));
    lemma_one_word("add"@);
    assert("add"@[0] != "off"@[0]);
    lemma_parse_one_line("add"@, seq!["add"@]);
    assert(parse_words_spec(seq!["add"@]) == Ok::<CommandView, ParseErrorView>(CommandView::Add));
}

proof fn lemma_reads_back_delete()
    ensures
        parse_spec(command_text(CommandView::Delete)) == Ok::<Seq<CommandView>, ParseErrorView>(seq![CommandView::Delete]),
{
    lemma_command_words();
    assert(seq![basename_of(CommandView::Delete)] + extra_words(CommandView::Delete) =~= seq!["delete"@]);
    assert(command_text(CommandView::Delete) == "delete"@);
    assert(is_word("delete"@));
    lemma_one_word("delete"@);
    assert("delete"@[0] != "artist"@[0]);
    assert("delete"@[0] != "insert"@[0]);
    assert("delete"@[0] != "logout"@[0]);
    assert("delete"@[0] != "redraw"@[0]);
    assert("delete"@[0] != "reload"@[0]);
    assert("delete"@[0] != "repeat"@[0]);
    assert("delete"@[0] != "search"@[0]);
    assert("delete"@[0] != "update"@[0]);
    lemma_parse_one_line("delete"@, seq!["delete"@]);
    assert(parse_words_spec(seq!["delete"@]) == Ok::<CommandView, ParseErrorView>(CommandView::Delete));
}

proof fn lemma_reads_back_back()
    ensures
        parse_spec(command_text(CommandView::Back)) == Ok::<Seq<CommandView>, ParseErrorView>(seq![CommandView::Back]),
{
    lemma_command_words();
    assert(seq![basename_of(CommandView::Back)] + extra_words(CommandView::Back) =~= seq!["back"@]);
    assert(command_text(CommandView::Back) == "back"@);
    assert(is_word("back"@));
    lemma_one_word("back"@);
    assert("back"@[0] != "exec"@[0]);
    assert("back"@[0] != "goto"@[0]);
    assert("back"@[0] != "help"@[0]);
    assert("back"@[0] != "jump"@[0]);
    assert("back"@[0] != "loop"@[0]);
    assert("back"@[0] != "move"@[0]);
    assert("back"@[0] != "next"@[0]);
    assert("back"@[0] != "noop"@[0]);
    assert("back"@[0] != "open"@[0]);
    assert("back"@[0] != "play"@[0]);
    assert("back"@[0] != "quit"@[0]);
    assert("back"@[0] != "save"@[0]);
    assert("back"@[0] != "seek"@[0]);
    assert("back"@[0] != "sort"@[0]);
    assert("back"@[0] != "stop"@[0]);
    lemma_parse_one_line("back"@, seq!["back"@]);
    assert(parse_words_spec(seq!["back"@]) == Ok::<CommandView, ParseErrorView>(CommandView::Back));
}

proof fn lemma_reads_back_help()
    ensures
        parse_spec(command_text(CommandView::Help)) == Ok::<Seq<CommandView>, ParseErrorView>(seq![CommandView::Help]),
{
    lemma_command_words();
    assert(seq![basename_of(CommandView::Help)] + extra_words(CommandView::Help) =~= seq!["help"@]);
    assert(command_text(CommandView::Help) == "help"@);
    assert(is_word("help"@));
    lemma_one_word("help"@);
    assert("help"@[0] != "back"@[0]);
    assert("help"@[0] != "exec"@[0]);
    assert("help"@[0] != "goto"@[0]);
    assert("help"@[0] != "jump"@[0]);
    assert("help"@[0] != "loop"@[0]);
    assert("help"@[0] != "move"@[0]);
    assert("help"@[0] != "next"@[0]);
    assert("help"@[0] != "noop"@[0]);
    assert("help"@[0] != "open"@[0]);
    assert("help"@[0] != "play"@[0]);
    assert("help"@[0] != "quit"@[0]);
    assert("help"@[0] != "save"@[0]);
    assert("help"@[0] != "seek"@[0]);
    assert("help"@[0] != "sort"@[0]);
    assert("help"@[0] != "stop"@[0]);
    lemma_parse_one_line("help"@, seq!["help"@]);
    assert(parse_words_spec(seq!["help"@]) == Ok::<CommandView, ParseErrorView>(CommandView::Help));
}

proof fn lemma_reads_back_reloadconfig()
    ensures
        parse_spec(command_text(CommandView::ReloadConfig)) == Ok::<Seq<CommandView>, ParseErrorView>(seq![CommandView::ReloadConfig]),
{
    lemma_command_words();
    assert(seq![basename_of(CommandView::ReloadConfig)] + extra_words(CommandView::ReloadConfig) =~= seq!["reload"@]);
    assert(command_text(CommandView::ReloadConfig) == "reload"@);
    assert(is_word("reload"@));
    lemma_one_word("reload"@);
    assert("reload"@[0] != "artist"@[0]);
    assert("reload"@[0] != "delete"@[0]);
    assert("reload"@[0] != "insert"@[0]);
    assert("reload"@[0] != "logout"@[0]);
    assert("reload"@[2] != "redraw"@[2]);
    assert("reload"@[2] != "repeat"@[2]);
    assert("reload"@[0] != "search"@[0]);
    assert("reload"@[0] != "update"@[0]);
    lemma_parse_one_line("reload"@, seq!["reload"@]);
    assert(parse_words_spec(seq!["reload"@]) == Ok::<CommandView, ParseErrorView>(CommandView::ReloadConfig));
}

proof fn lemma_reads_back_noop()
    ensures
        parse_spec(command_text(CommandView::Noop)) == Ok::<Seq<CommandView>, ParseErrorView>(seq![CommandView::Noop]),
{
    lemma_command_words();
    assert(seq![basename_of(CommandView::Noop)] + extra_words(CommandView::Noop) =~= seq!["noop"@]);
    assert(command_text(CommandView::Noop) == "noop"@);
    assert(is_word("noop"@));
    lemma_one_word("noop"@);
    assert("noop"@[0] != "back"@[0]);
    assert("noop"@[0] != "exec"@[0]);
    assert("noop"@[0] != "goto"@[0]);
    assert("noop"@[0] != "help"@[0]);
    assert("noop"@[0] != "jump"@[0]);
    assert("noop"@[0] != "loop"@[0]);
    assert("noop"@[0] != "move"@[0]);
    assert("noop"@[1] != "next"@[1]);
    assert("noop"@[0] != "open"@[0]);
    assert("noop"@[0] != "play"@[0]);
    assert("noop"@[0] != "quit"@[0]);
    assert("noop"@[0] != "save"@[0]);
    assert("noop"@[0] != "seek"@[0]);
    assert("noop"@[0] != "sort"@[0]);
    assert("noop"@[0] != "stop"@[0]);
    lemma_parse_one_line("noop"@, seq!["noop"@]);
    assert(parse_words_spec(seq!["noop"@]) == Ok::<CommandView, ParseErrorView>(CommandView::Noop));
}

proof fn lemma_reads_back_logout()
    ensures
        parse_spec(command_text(CommandView::Logout)) == Ok::<Seq<CommandView>, ParseErrorView>(seq![CommandView::Logout]),
{
    lemma_command_words();
    assert(seq![basename_of(CommandView::Logout)] + extra_words(CommandView::Logout) =~= seq!["logout"@]);
    assert(command_text(CommandView::Logout) == "logout"@);
    assert(is_word("logout"@));
    lemma_one_word("logout"@);
    assert("logout"@[0] != "artist"@[0]);
    assert("logout"@[0] != "delete"@[0]);
    assert("logout"@[0] != "insert"@[0]);
    assert("logout"@[0] != "redraw"@[0]);
    assert("logout"@[0] != "reload"@[0]);
    assert("logout"@[0] != "repeat"@[0]);
    assert("logout"@[0] != "search"@[0]);
    assert("logout"@[0] != "update"@[0]);
    lemma_parse_one_line("logout"@, seq!["logout"@]);
    assert(parse_words_spec(seq!["logout"@]) == Ok::<CommandView, ParseErrorView>(CommandView::Logout));
}

proof fn lemma_reads_back_redraw()
    ensures
        parse_spec(command_text(CommandView::Redraw)) == Ok::<Seq<CommandView>, ParseErrorView>(seq![CommandView::Redraw]),
{
    lemma_command_words();
    assert(seq![basename_of(CommandView::Redraw)] + extra_words(CommandView::Redraw) =~= seq!["redraw"@]);
    assert(command_text(CommandView::Redraw) == "redraw"@);
    assert(is_word("redraw"@));
    lemma_one_word("redraw"@);
    assert("redraw"@[0] != "artist"@[0]);
    assert("redraw"@[0] != "delete"@[0]);
    assert("redraw"@[0] != "insert"@[0]);
    assert("redraw"@[0] != "logout"@[0]);
    assert("redraw"@[2] != "reload"@[2]);
    assert("redraw"@[2] != "repeat"@[2]);
    assert("redraw"@[0] != "search"@[0]);
    assert("redraw"@[0] != "update"@[0]);
    lemma_parse_one_line("redraw"@, seq!["redraw"@]);
    assert(parse_words_spec(seq!["redraw"@]) == Ok::<CommandView, ParseErrorView>(CommandView::Redraw));
}

proof fn lemma_reads_back_reconnect()
    ensures
        parse_spec(command_text(CommandView::Reconnect)) == Ok::<Seq<CommandView>, ParseErrorView>(seq![CommandView::Reconnect]),
{
    lemma_command_words();
    assert(seq![basename_of(CommandView::Reconnect)] + extra_words(CommandView::Reconnect) =~= seq!["reconnect"@]);
    assert(command_text(CommandView::Reconnect) == "reconnect"@);
    assert(is_word("reconnect"@));
    lemma_one_word("reconnect"@);
    assert("reconnect"@[0] != "playpause"@[0]);
    lemma_parse_one_line("reconnect"@, seq!["reconnect"@]);
    assert(parse_words_spec(seq!["reconnect"@]) == Ok::<CommandView, ParseErrorView>(CommandView::Reconnect));
}

proof fn lemma_reads_back_jump_jumpmodeview_next()
    ensures
        parse_spec(command_text(CommandView::Jump(JumpModeView::Next))) == Ok::<Seq<CommandView>, ParseErrorView>(seq![CommandView::Jump(JumpModeView::Next)]),
{
    lemma_command_words();
    assert(seq![basename_of(CommandView::Jump(JumpModeView::Next))] + extra_words(CommandView::Jump(JumpModeView::Next)) =~= seq!["jumpnext"@]);
    assert(command_text(CommandView::Jump(JumpModeView::Next)) == "jumpnext"@);
    assert(is_word("jumpnext"@));
    lemma_one_word("jumpnext"@);
    assert("jumpnext"@[0] != "playnext"@[0]);
    assert("jumpnext"@[0] != "previous"@[0]);
    assert("jumpnext"@[0] != "selected"@[0]);
    lemma_parse_one_line("jumpnext"@, seq!["jumpnext"@]);
    assert(parse_words_spec(seq!["jumpnext"@]) == Ok::<CommandView, ParseErrorView>(CommandView::Jump(JumpModeView::Next)));
}

proof fn lemma_reads_back_jump_jumpmodeview_previous()
    ensures
        parse_spec(command_text(CommandView::Jump(JumpModeView::Previous))) == Ok::<Seq<CommandView>, ParseErrorView>(seq![CommandView::Jump(JumpModeView::Previous)]),
{
    lemma_command_words();
    assert(seq![basename_of(CommandView::Jump(JumpModeView::Previous))] + extra_words(CommandView::Jump(JumpModeView::Previous)) =~= seq!["jumpprevious"@]);
    assert(command_text(CommandView::Jump(JumpModeView::Previous)) == "jumpprevious"@);
    assert(is_word("jumpprevious"@));
    lemma_one_word("jumpprevious"@);

    lemma_parse_one_line("jumpprevious"@, seq!["jumpprevious"@]);
    assert(parse_words_spec(seq!["jumpprevious"@]) == Ok::<CommandView, ParseErrorView>(CommandView::Jump(JumpModeView::Previous)));
}

proof fn lemma_reads_back_repeat_none()
    ensures
        parse_spec(command_text(CommandView::Repeat(None))) == Ok::<Seq<CommandView>, ParseErrorView>(seq![CommandView::Repeat(None)]),
{
    lemma_command_words();
    assert(seq![basename_of(CommandView::Repeat(None))] + extra_words(CommandView::Repeat(None)) =~= seq!["repeat"@]);
    assert(command_text(CommandView::Repeat(None)) == "repeat"@);
    assert(is_word("repeat"@));
    lemma_one_word("repeat"@);
    assert("repeat"@[0] != "artist"@[0]);
    assert("repeat"@[0] != "delete"@[0]);
    assert("repeat"@[0] != "insert"@[0]);
    assert("repeat"@[0] != "logout"@[0]);
    assert("repeat"@[2] != "redraw"@[2]);
    assert("repeat"@[2] != "reload"@[2]);
    assert("repeat"@[0] != "search"@[0]);
    assert("repeat"@[0] != "update"@[0]);
    lemma_parse_one_line("repeat"@, seq!["repeat"@]);
    assert(parse_words_spec(seq!["repeat"@]) == Ok::<CommandView, ParseErrorView>(CommandView::Repeat(None)));
}

proof fn lemma_reads_back_shuffle_none()
    ensures
        parse_spec(command_text(CommandView::Shuffle(None))) == Ok::<Seq<CommandView>, ParseErrorView>(seq![CommandView::Shuffle(None)]),
{
    lemma_command_words();
    assert(seq![basename_of(CommandView::Shuffle(None))] + extra_words(CommandView::Shuffle(None)) =~= seq!["shuffle"@]);
    assert(command_text(CommandView::Shuffle(None)) == "shuffle"@);
    assert(is_word("shuffle"@));
    lemma_one_word("shuffle"@);
    assert("shuffle"@[0] != "current"@[0]);
    assert("shuffle"@[1] != "similar"@[1]);
    assert("shuffle"@[0] != "voldown"@[0]);
    lemma_parse_one_line("shuffle"@, seq!["shuffle"@]);
    assert(parse_words_spec(seq!["shuffle"@]) == Ok::<CommandView, ParseErrorView>(CommandView::Shuffle(None)));
}

proof fn lemma_reads_back_savecurrent()
    ensures
        parse_spec(command_text(CommandView::SaveCurrent)) == Ok::<Seq<CommandView>, ParseErrorView>(seq![CommandView::SaveCurrent]),
{
    lemma_command_words();
    assert(seq![basename_of(CommandView::SaveCurrent)] + extra_words(CommandView::SaveCurrent) =~= seq!["save current"@]);
    assert("save current"@ =~= "save"@ + seq![' '] + "current"@);
    assert(command_text(CommandView::SaveCurrent) == "save"@ + seq![' '] + "current"@);
    assert(is_word("save"@));
    assert(is_word("current"@));
    lemma_two_words("save"@, "current"@);
    lemma_parse_one_line("save"@ + seq![' '] + "current"@, seq!["save"@, "current"@]);
    assert("save"@[0] != "back"@[0]);
    assert("save"@[0] != "exec"@[0]);
    assert("save"@[0] != "goto"@[0]);
    assert("save"@[0] != "help"@[0]);
    assert("save"@[0] != "jump"@[0]);
    assert("save"@[0] != "loop"@[0]);
    assert("save"@[0] != "move"@[0]);
    assert("save"@[0] != "next"@[0]);
    assert("save"@[0] != "noop"@[0]);
    assert("save"@[0] != "open"@[0]);
    assert("save"@[0] != "play"@[0]);
    assert("save"@[0] != "quit"@[0]);
    assert("save"@[1] != "seek"@[1]);
    assert("save"@[1] != "sort"@[1]);
    assert("save"@[1] != "stop"@[1]);
    assert("current"@[0] != "shuffle"@[0]);
    assert("current"@[0] != "similar"@[0]);
    assert("current"@[0] != "voldown"@[0]);
    assert(seq!["save"@, "current"@][0] == "save"@);
    assert(seq!["save"@, "current"@].drop_first() =~= seq!["current"@]);
    assert(parse_words_spec(seq!["save"@, "current"@]) == Ok::<CommandView, ParseErrorView>(CommandView::SaveCurrent));
}

proof fn lemma_reads_back_savequeue()
    ensures
        parse_spec(command_text(CommandView::SaveQueue)) == Ok::<Seq<CommandView>, ParseErrorView>(seq![CommandView::SaveQueue]),
{
    lemma_command_words();
    assert(seq![basename_of(CommandView::SaveQueue)] + extra_words(CommandView::SaveQueue) =~= seq!["save queue"@]);
    assert("save queue"@ =~= "save"@ + seq![' '] + "queue"@);
    assert(command_text(CommandView::SaveQueue) == "save"@ + seq![' '] + "queue"@);
    assert(is_word("save"@));
    assert(is_word("queue"@));
    lemma_two_words("save"@, "queue"@);
    lemma_parse_one_line("save"@ + seq![' '] + "queue"@, seq!["save"@, "queue"@]);
    assert("save"@[0] != "back"@[0]);
    assert("save"@[0] != "exec"@[0]);
    assert("save"@[0] != "goto"@[0]);
    assert("save"@[0] != "help"@[0]);
    assert("save"@[0] != "jump"@[0]);
    assert("save"@[0] != "loop"@[0]);
    assert("save"@[0] != "move"@[0]);
    assert("save"@[0] != "next"@[0]);
    assert("save"@[0] != "noop"@[0]);
    assert("save"@[0] != "open"@[0]);
    assert("save"@[0] != "play"@[0]);
    assert("save"@[0] != "quit"@[0]);
    assert("save"@[1] != "seek"@[1]);
    assert("save"@[1] != "sort"@[1]);
    assert("save"@[1] != "stop"@[1]);
    assert("queue"@[0] != "album"@[0]);
    assert("queue"@[0] != "clear"@[0]);
    assert("queue"@[0] != "focus"@[0]);
    assert("queue"@[0] != "pause"@[0]);
    assert("queue"@[0] != "share"@[0]);
    assert("queue"@[0] != "shift"@[0]);
    assert("queue"@[0] != "volup"@[0]);
    assert(seq!["save"@, "queue"@][0] == "save"@);
    assert(seq!["save"@, "queue"@].drop_first() =~= seq!["queue"@]);
    assert(parse_words_spec(seq!["save"@, "queue"@]) == Ok::<CommandView, ParseErrorView>(CommandView::SaveQueue));
}

proof fn lemma_reads_back_addcurrent()
    ensures
        parse_spec(command_text(CommandView::AddCurrent)) == Ok::<Seq<CommandView>, ParseErrorView>(seq![CommandView::AddCurrent]),
{
    lemma_command_words();
    assert(seq![basename_of(CommandView::AddCurrent)] + extra_words(CommandView::AddCurrent) =~= seq!["add current"@]);
    assert("add current"@ =~= "add"@ + seq![' '] + "current"@);
    assert(command_text(CommandView::AddCurrent) == "add"@ + seq![' '] + "current"@);
    assert(is_word("add"@));
    assert(is_word("current"@));
    lemma_two_words("add"@, "current"@);
    lemma_parse_one_line("add"@ + seq![' '] + "current"@, seq!["add"@, "current"@]);
    assert("add"@[0] != "off"@[0]);
    assert("current"@[0] != "shuffle"@[0]);
    assert("current"@[0] != "similar"@[0]);
    assert("current"@[0] != "voldown"@[0]);
    assert(seq!["add"@, "current"@][0] == "add"@);
    assert(seq!["add"@, "current"@].drop_first() =~= seq!["current"@]);
    assert(parse_words_spec(seq!["add"@, "current"@]) == Ok::<CommandView, ParseErrorView>(CommandView::AddCurrent));
}

proof fn lemma_reads_back_shuffle_some_true()
    ensures
        parse_spec(command_text(CommandView::Shuffle(Some(true)))) == Ok::<Seq<CommandView>, ParseErrorView>(seq![CommandView::Shuffle(Some(true))]),
{
    lemma_command_words();
    assert(seq![basename_of(CommandView::Shuffle(Some(true)))] + extra_words(CommandView::Shuffle(Some(true))) =~= seq!["shuffle"@, "on"@]);
    assert(seq!["shuffle"@, "on"@].drop_last() =~= seq!["shuffle"@]);
    assert(seq!["shuffle"@, "on"@].last() == "on"@);
    assert(join_seq(seq!["shuffle"@], " "@) == "shuffle"@);
    assert(join_seq(seq!["shuffle"@, "on"@], " "@) == "shuffle"@ + " "@ + "on"@);
    assert(command_text(CommandView::Shuffle(Some(true))) == "shuffle"@ + " "@ + "on"@);
    assert(" "@ =~= seq![' ']);
    assert(is_word("shuffle"@));
    assert(is_word("on"@));
    lemma_two_words("shuffle"@, "on"@);
    lemma_parse_one_line("shuffle"@ + seq![' '] + "on"@, seq!["shuffle"@, "on"@]);
    assert("shuffle"@[0] != "current"@[0]);
    assert("shuffle"@[1] != "similar"@[1]);
    assert("shuffle"@[0] != "voldown"@[0]);
    assert(seq!["shuffle"@, "on"@][0] == "shuffle"@);
    assert(seq!["shuffle"@, "on"@].drop_first() =~= seq!["on"@]);
    assert(parse_words_spec(seq!["shuffle"@, "on"@]) == Ok::<CommandView, ParseErrorView>(CommandView::Shuffle(Some(true))));
}

proof fn lemma_reads_back_shuffle_some_false()
    ensures
        parse_spec(command_text(CommandView::Shuffle(Some(false)))) == Ok::<Seq<CommandView>, ParseErrorView>(seq![CommandView::Shuffle(Some(false))]),
{
    lemma_command_words();
    assert(seq![basename_of(CommandView::Shuffle(Some(false)))] + extra_words(CommandView::Shuffle(Some(false))) =~= seq!["shuffle"@, "off"@]);
    assert(seq!["shuffle"@, "off"@].drop_last() =~= seq!["shuffle"@]);
    assert(seq!["shuffle"@, "off"@].last() == "off"@);
    assert(join_seq(seq!["shuffle"@], " "@) == "shuffle"@);
    assert(join_seq(seq!["shuffle"@, "off"@], " "@) == "shuffle"@ + " "@ + "off"@);
    assert(command_text(CommandView::Shuffle(Some(false))) == "shuffle"@ + " "@ + "off"@);
    assert(" "@ =~= seq![' ']);
    assert(is_word("shuffle"@));
    assert(is_word("off"@));
    lemma_two_words("shuffle"@, "off"@);
    lemma_parse_one_line("shuffle"@ + seq![' '] + "off"@, seq!["shuffle"@, "off"@]);
    assert("shuffle"@[0] != "current"@[0]);
    assert("shuffle"@[1] != "similar"@[1]);
    assert("shuffle"@[0] != "voldown"@[0]);
    assert("off"@[0] != "add"@[0]);
    assert(seq!["shuffle"@, "off"@][0] == "shuffle"@);
    assert(seq!["shuffle"@, "off"@].drop_first() =~= seq!["off"@]);
    assert(parse_words_spec(seq!["shuffle"@, "off"@]) == Ok::<CommandView, ParseErrorView>(CommandView::Shuffle(Some(false))));
}

proof fn lemma_reads_back_share_targetmode_current()
    ensures
        parse_spec(command_text(CommandView::Share(TargetMode::Current))) == Ok::<Seq<CommandView>, ParseErrorView>(seq![CommandView::Share(TargetMode::Current)]),
{
    lemma_command_words();
    assert(seq![basename_of(CommandView::Share(TargetMode::Current))] + extra_words(CommandView::Share(TargetMode::Current)) =~= seq!["share"@, "current"@]);
    assert(seq!["share"@, "current"@].drop_last() =~= seq!["share"@]);
    assert(seq!["share"@, "current"@].last() == "current"@);
    assert(join_seq(seq!["share"@], " "@) == "share"@);
    assert(join_seq(seq!["share"@, "current"@], " "@) == "share"@ + " "@ + "current"@);
    assert(command_text(CommandView::Share(TargetMode::Current)) == "share"@ + " "@ + "current"@);
    assert(" "@ =~= seq![' ']);
    assert(is_word("share"@));
    assert(is_word("current"@));
    lemma_two_words("share"@, "current"@);
    lemma_parse_one_line("share"@ + seq![' '] + "current"@, seq!["share"@, "current"@]);
    assert("share"@[0] != "album"@[0]);
    assert("share"@[0] != "clear"@[0]);
    assert("share"@[0] != "focus"@[0]);
    assert("share"@[0] != "pause"@[0]);
    assert("share"@[0] != "queue"@[0]);
    assert("share"@[2] != "shift"@[2]);
    assert("share"@[0] != "volup"@[0]);
    assert("current"@[0] != "shuffle"@[0]);
    assert("current"@[0] != "similar"@[0]);
    assert("current"@[0] != "voldown"@[0]);
    assert(seq!["share"@, "current"@][0] == "share"@);
    assert(seq!["share"@, "current"@].drop_first() =~= seq!["current"@]);
    assert(parse_words_spec(seq!["share"@, "current"@]) == Ok::<CommandView, ParseErrorView>(CommandView::Share(TargetMode::Current)));
}

proof fn lemma_reads_back_share_targetmode_selected()
    ensures
        parse_spec(command_text(CommandView::Share(TargetMode::Selected))) == Ok::<Seq<CommandView>, ParseErrorView>(seq![CommandView::Share(TargetMode::Selected)]),
{
    lemma_command_words();
    assert(seq![basename_of(CommandView::Share(TargetMode::Selected))] + extra_words(CommandView::Share(TargetMode::Selected)) =~= seq!["share"@, "selected"@]);
    assert(seq!["share"@, "selected"@].drop_last() =~= seq!["share"@]);
    assert(seq!["share"@, "selected"@].last() == "selected"@);
    assert(join_seq(seq!["share"@], " "@) == "share"@);
    assert(join_seq(seq!["share"@, "selected"@], " "@) == "share"@ + " "@ + "selected"@);
    assert(command_text(CommandView::Share(TargetMode::Selected)) == "share"@ + " "@ + "selected"@);
    assert(" "@ =~= seq![' ']);
    assert(is_word("share"@));
    assert(is_word("selected"@));
    lemma_two_words("share"@, "selected"@);
    lemma_parse_one_line("share"@ + seq![' '] + "selected"@, seq!["share"@, "selected"@]);
    assert("share"@[0] != "album"@[0]);
    assert("share"@[0] != "clear"@[0]);
    assert("share"@[0] != "focus"@[0]);
    assert("share"@[0] != "pause"@[0]);
    assert("share"@[0] != "queue"@[0]);
    assert("share"@[2] != "shift"@[2]);
    assert("share"@[0] != "volup"@[0]);
    assert("selected"@[0] != "jumpnext"@[0]);
    assert("selected"@[0] != "playnext"@[0]);
    assert("selected"@[0] != "previous"@[0]);
    assert(seq!["share"@, "selected"@][0] == "share"@);
    assert(seq!["share"@, "selected"@].drop_first() =~= seq!["selected"@]);
    assert(parse_words_spec(seq!["share"@, "selected"@]) == Ok::<CommandView, ParseErrorView>(CommandView::Share(TargetMode::Selected)));
}

proof fn lemma_reads_back_open_targetmode_current()
    ensures
        parse_spec(command_text(CommandView::Open(TargetMode::Current))) == Ok::<Seq<CommandView>, ParseErrorView>(seq![CommandView::Open(TargetMode::Current)]),
{
    lemma_command_words();
    assert(seq![basename_of(CommandView::Open(TargetMode::Current))] + extra_words(CommandView::Open(TargetMode::Current)) =~= seq!["open"@, "current"@]);
    assert(seq!["open"@, "current"@].drop_last() =~= seq!["open"@]);
    assert(seq!["open"@, "current"@].last() == "current"@);
    assert(join_seq(seq!["open"@], " "@) == "open"@);
    assert(join_seq(seq!["open"@, "current"@], " "@) == "open"@ + " "@ + "current"@);
    assert(command_text(CommandView::Open(TargetMode::Current)) == "open"@ + " "@ + "current"@);
    assert(" "@ =~= seq![' ']);
    assert(is_word("open"@));
    assert(is_word("current"@));
    lemma_two_words("open"@, "current"@);
    lemma_parse_one_line("open"@ + seq![' '] + "current"@, seq!["open"@, "current"@]);
    assert("open"@[0] != "back"@[0]);
    assert("open"@[0] != "exec"@[0]);
    assert("open"@[0] != "goto"@[0]);
    assert("open"@[0] != "help"@[0]);
    assert("open"@[0] != "jump"@[0]);
    assert("open"@[0] != "loop"@[0]);
    assert("open"@[0] != "move"@[0]);
    assert("open"@[0] != "next"@[0]);
    assert("open"@[0] != "noop"@[0]);
    assert("open"@[0] != "play"@[0]);
    assert("open"@[0] != "quit"@[0]);
    assert("open"@[0] != "save"@[0]);
    assert("open"@[0] != "seek"@[0]);
    assert("open"@[0] != "sort"@[0]);
    assert("open"@[0] != "stop"@[0]);
    assert("current"@[0] != "shuffle"@[0]);
    assert("current"@[0] != "similar"@[0]);
    assert("current"@[0] != "voldown"@[0]);
    assert(seq!["open"@, "current"@][0] == "open"@);
    assert(seq!["open"@, "current"@].drop_first() =~= seq!["current"@]);
    assert(parse_words_spec(seq!["open"@, "current"@]) == Ok::<CommandView, ParseErrorView>(CommandView::Open(TargetMode::Current)));
}

proof fn lemma_reads_back_open_targetmode_selected()
    ensures
        parse_spec(command_text(CommandView::Open(TargetMode::Selected))) == Ok::<Seq<CommandView>, ParseErrorView>(seq![CommandView::Open(TargetMode::Selected)]),
{
    lemma_command_words();
    assert(seq![basename_of(CommandView::Open(TargetMode::Selected))] + extra_words(CommandView::Open(TargetMode::Selected)) =~= seq!["open"@, "selected"@]);
    assert(seq!["open"@, "selected"@].drop_last() =~= seq!["open"@]);
    assert(seq!["open"@, "selected"@].last() == "selected"@);
    assert(join_seq(seq!["open"@], " "@) == "open"@);
    assert(join_seq(seq!["open"@, "selected"@], " "@) == "open"@ + " "@ + "selected"@);
    assert(command_text(CommandView::Open(TargetMode::Selected)) == "open"@ + " "@ + "selected"@);
    assert(" "@ =~= seq![' ']);
    assert(is_word("open"@));
    assert(is_word("selected"@));
    lemma_two_words("open"@, "selected"@);
    lemma_parse_one_line("open"@ + seq![' '] + "selected"@, seq!["open"@, "selected"@]);
    assert("open"@[0] != "back"@[0]);
    assert("open"@[0] != "exec"@[0]);
    assert("open"@[0] != "goto"@[0]);
    assert("open"@[0] != "help"@[0]);
    assert("open"@[0] != "jump"@[0]);
    assert("open"@[0] != "loop"@[0]);
    assert("open"@[0] != "move"@[0]);
    assert("open"@[0] != "next"@[0]);
    assert("open"@[0] != "noop"@[0]);
    assert("open"@[0] != "play"@[0]);
    assert("open"@[0] != "quit"@[0]);
    assert("open"@[0] != "save"@[0]);
    assert("open"@[0] != "seek"@[0]);
    assert("open"@[0] != "sort"@[0]);
    assert("open"@[0] != "stop"@[0]);
    assert("selected"@[0] != "jumpnext"@[0]);
    assert("selected"@[0] != "playnext"@[0]);
    assert("selected"@[0] != "previous"@[0]);
    assert(seq!["open"@, "selected"@][0] == "open"@);
    assert(seq!["open"@, "selected"@].drop_first() =~= seq!["selected"@]);
    assert(parse_words_spec(seq!["open"@, "selected"@]) == Ok::<CommandView, ParseErrorView>(CommandView::Open(TargetMode::Selected)));
}

proof fn lemma_reads_back_showrecommendations_targetmode_current()
    ensures
        parse_spec(command_text(CommandView::ShowRecommendations(TargetMode::Current))) == Ok::<Seq<CommandView>, ParseErrorView>(seq![CommandView::ShowRecommendations(TargetMode::Current)]),
{
    lemma_command_words();
    assert(seq![basename_of(CommandView::ShowRecommendations(TargetMode::Current))] + extra_words(CommandView::ShowRecommendations(TargetMode::Current)) =~= seq!["similar"@, "current"@]);
    assert(seq!["similar"@, "current"@].drop_last() =~= seq!["similar"@]);
    assert(seq!["similar"@, "current"@].last() == "current"@);
    assert(join_seq(seq!["similar"@], " "@) == "similar"@);
    assert(join_seq(seq!["similar"@, "current"@], " "@) == "similar"@ + " "@ + "current"@);
    assert(command_text(CommandView::ShowRecommendations(TargetMode::Current)) == "similar"@ + " "@ + "current"@);
    assert(" "@ =~= seq![' ']);
    assert(is_word("similar"@));
    assert(is_word("current"@));
    lemma_two_words("similar"@, "current"@);
    lemma_parse_one_line("similar"@ + seq![' '] + "current"@, seq!["similar"@, "current"@]);
    assert("similar"@[0] != "current"@[0]);
    assert("similar"@[1] != "shuffle"@[1]);
    assert("similar"@[0] != "voldown"@[0]);
    assert("current"@[0] != "shuffle"@[0]);
    assert("current"@[0] != "similar"@[0]);
    assert("current"@[0] != "voldown"@[0]);
    assert(seq!["similar"@, "current"@][0] == "similar"@);
    assert(seq!["similar"@, "current"@].drop_first() =~= seq!["current"@]);
    assert(parse_words_spec(seq!["similar"@, "current"@]) == Ok::<CommandView, ParseErrorView>(CommandView::ShowRecommendations(TargetMode::Current)));
}

proof fn lemma_reads_back_showrecommendations_targetmode_selected()
    ensures
        parse_spec(command_text(CommandView::ShowRecommendations(TargetMode::Selected))) == Ok::<Seq<CommandView>, ParseErrorView>(seq![CommandView::ShowRecommendations(TargetMode::Selected)]),
{
    lemma_command_words();
    assert(seq![basename_of(CommandView::ShowRecommendations(TargetMode::Selected))] + extra_words(CommandView::ShowRecommendations(TargetMode::Selected)) =~= seq!["similar"@, "selected"@]);
    assert(seq!["similar"@, "selected"@].drop_last() =~= seq!["similar"@]);
    assert(seq!["similar"@, "selected"@].last() == "selected"@);
    assert(join_seq(seq!["similar"@], " "@) == "similar"@);
    assert(join_seq(seq!["similar"@, "selected"@], " "@) == "similar"@ + " "@ + "selected"@);
    assert(command_text(CommandView::ShowRecommendations(TargetMode::Selected)) == "similar"@ + " "@ + "selected"@);
    assert(" "@ =~= seq![' ']);
    assert(is_word("similar"@));
    assert(is_word("selected"@));
    lemma_two_words("similar"@, "selected"@);
    lemma_parse_one_line("similar"@ + seq![' '] + "selected"@, seq!["similar"@, "selected"@]);
    assert("similar"@[0] != "current"@[0]);
    assert("similar"@[1] != "shuffle"@[1]);
    assert("similar"@[0] != "voldown"@[0]);
    assert("selected"@[0] != "jumpnext"@[0]);
    assert("selected"@[0] != "playnext"@[0]);
    assert("selected"@[0] != "previous"@[0]);
    assert(seq!["similar"@, "selected"@][0] == "similar"@);
    assert(seq!["similar"@, "selected"@].drop_first() =~= seq!["selected"@]);
    assert(parse_words_spec(seq!["similar"@, "selected"@]) == Ok::<CommandView, ParseErrorView>(CommandView::ShowRecommendations(TargetMode::Selected)));
}

proof fn lemma_reads_back_goto_gotomode_album()
    ensures
        parse_spec(command_text(CommandView::Goto(GotoMode::Album))) == Ok::<Seq<CommandView>, ParseErrorView>(seq![CommandView::Goto(GotoMode::Album)]),
{
    lemma_command_words();
    assert(seq![basename_of(CommandView::Goto(GotoMode::Album))] + extra_words(CommandView::Goto(GotoMode::Album)) =~= seq!["goto"@, "album"@]);
    assert(seq!["goto"@, "album"@].drop_last() =~= seq!["goto"@]);
    assert(seq!["goto"@, "album"@].last() == "album"@);
    assert(join_seq(seq!["goto"@], " "@) == "goto"@);
    assert(join_seq(seq!["goto"@, "album"@], " "@) == "goto"@ + " "@ + "album"@);
    assert(command_text(CommandView::Goto(GotoMode::Album)) == "goto"@ + " "@ + "album"@);
    assert(" "@ =~= seq![' ']);
    assert(is_word("goto"@));
    assert(is_word("album"@));
    lemma_two_words("goto"@, "album"@);
    lemma_parse_one_line("goto"@ + seq![' '] + "album"@, seq!["goto"@, "album"@]);
    assert("goto"@[0] != "back"@[0]);
    assert("goto"@[0] != "exec"@[0]);
    assert("goto"@[0] != "help"@[0]);
    assert("goto"@[0] != "jump"@[0]);
    assert("goto"@[0] != "loop"@[0]);
    assert("goto"@[0] != "move"@[0]);
    assert("goto"@[0] != "next"@[0]);
    assert("goto"@[0] != "noop"@[0]);
    assert("goto"@[0] != "open"@[0]);
    assert("goto"@[0] != "play"@[0]);
    assert("goto"@[0] != "quit"@[0]);
    assert("goto"@[0] != "save"@[0]);
    assert("goto"@[0] != "seek"@[0]);
    assert("goto"@[0] != "sort"@[0]);
    assert("goto"@[0] != "stop"@[0]);
    assert("album"@[0] != "clear"@[0]);
    assert("album"@[0] != "focus"@[0]);
    assert("album"@[0] != "pause"@[0]);
    assert("album"@[0] != "queue"@[0]);
    assert("album"@[0] != "share"@[0]);
    assert("album"@[0] != "shift"@[0]);
    assert("album"@[0] != "volup"@[0]);
    assert(seq!["goto"@, "album"@][0] == "goto"@);
    assert(seq!["goto"@, "album"@].drop_first() =~= seq!["album"@]);
    assert(parse_words_spec(seq!["goto"@, "album"@]) == Ok::<CommandView, ParseErrorView>(CommandView::Goto(GotoMode::Album)));
}

proof fn lemma_reads_back_goto_gotomode_artist()
    ensures
        parse_spec(command_text(CommandView::Goto(GotoMode::Artist))) == Ok::<Seq<CommandView>, ParseErrorView>(seq![CommandView::Goto(GotoMode::Artist)]),
{
    lemma_command_words();
    assert(seq![basename_of(CommandView::Goto(GotoMode::Artist))] + extra_words(CommandView::Goto(GotoMode::Artist)) =~= seq!["goto"@, "artist"@]);
    assert(seq!["goto"@, "artist"@].drop_last() =~= seq!["goto"@]);
    assert(seq!["goto"@, "artist"@].last() == "artist"@);
    assert(join_seq(seq!["goto"@], " "@) == "goto"@);
    assert(join_seq(seq!["goto"@, "artist"@], " "@) == "goto"@ + " "@ + "artist"@);
    assert(command_text(CommandView::Goto(GotoMode::Artist)) == "goto"@ + " "@ + "artist"@);
    assert(" "@ =~= seq![' ']);
    assert(is_word("goto"@));
    assert(is_word("artist"@));
    lemma_two_words("goto"@, "artist"@);
    lemma_parse_one_line("goto"@ + seq![' '] + "artist"@, seq!["goto"@, "artist"@]);
    assert("goto"@[0] != "back"@[0]);
    assert("goto"@[0] != "exec"@[0]);
    assert("goto"@[0] != "help"@[0]);
    assert("goto"@[0] != "jump"@[0]);
    assert("goto"@[0] != "loop"@[0]);
    assert("goto"@[0] != "move"@[0]);
    assert("goto"@[0] != "next"@[0]);
    assert("goto"@[0] != "noop"@[0]);
    assert("goto"@[0] != "open"@[0]);
    assert("goto"@[0] != "play"@[0]);
    assert("goto"@[0] != "quit"@[0]);
    assert("goto"@[0] != "save"@[0]);
    assert("goto"@[0] != "seek"@[0]);
    assert("goto"@[0] != "sort"@[0]);
    assert("goto"@[0] != "stop"@[0]);
    assert("artist"@[0] != "delete"@[0]);
    assert("artist"@[0] != "insert"@[0]);
    assert("artist"@[0] != "logout"@[0]);
    assert("artist"@[0] != "redraw"@[0]);
    assert("artist"@[0] != "reload"@[0]);
    assert("artist"@[0] != "repeat"@[0]);
    assert("artist"@[0] != "search"@[0]);
    assert("artist"@[0] != "update"@[0]);
    assert(seq!["goto"@, "artist"@][0] == "goto"@);
    assert(seq!["goto"@, "artist"@].drop_first() =~= seq!["artist"@]);
    assert(parse_words_spec(seq!["goto"@, "artist"@]) == Ok::<CommandView, ParseErrorView>(CommandView::Goto(GotoMode::Artist)));
}


/// Three words with single spaces between are one command line of three
/// words.
proof fn lemma_three_words(w1: Seq<char>, w2: Seq<char>, w3: Seq<char>)
    requires
        is_word(w1),
        is_word(w2),
        is_word(w3),
    ensures
        command_inputs(w1 + seq![' '] + w2 + seq![' '] + w3) == seq![w1 + seq![' '] + w2 + seq![' '] + w3],
        split_ws(w1 + seq![' '] + w2 + seq![' '] + w3) == seq![w1, w2, w3],
{
    let t = w1 + seq![' '] + w2 + seq![' '] + w3;
    let u = w1 + seq![' '] + w2;
    assert forall|i: int| 0 <= i < t.len() implies ('a' <= #[trigger] t[i] <= 'z' || t[i] == ' ') by {
        if i < w1.len() {
            assert(t[i] == w1[i]);
        } else if w1.len() < i < u.len() {
            assert(t[i] == w2[i - w1.len() - 1]);
        } else if i > u.len() {
            assert(t[i] == w3[i - u.len() - 1]);
        }
    }
    lemma_no_semicolon(t);
    lemma_single_input(t);
    lemma_ws_scan_letters(Seq::empty(), w1);
    assert(Seq::<char>::empty() + w1 =~= w1);
    assert(crate::text::ws_scan(Seq::<char>::empty()) == (Seq::<Seq<char>>::empty(), Seq::<char>::empty()));
    let p = w1 + seq![' '];
    assert(p.drop_last() =~= w1);
    assert(p.last() == ' ');
    assert(crate::text::ws_scan(p) == (seq![w1], Seq::<char>::empty())) by {
        assert(Seq::<Seq<char>>::empty().push(w1) =~= seq![w1]);
    }
    lemma_ws_scan_letters(p, w2);
    assert(Seq::<char>::empty() + w2 =~= w2);
    let p2 = u + seq![' '];
    assert(p2.drop_last() =~= u);
    assert(p2.last() == ' ');
    assert(crate::text::ws_scan(p2) == (seq![w1, w2], Seq::<char>::empty())) by {
        assert(seq![w1].push(w2) =~= seq![w1, w2]);
    }
    lemma_ws_scan_letters(p2, w3);
    assert(Seq::<char>::empty() + w3 =~= w3);
    assert(seq![w1, w2].push(w3) =~= seq![w1, w2, w3]);
}

/// A command line that starts with `sort` reads its other words as a sort.
proof fn lemma_sort_name(ws: Seq<Seq<char>>)
    requires
        ws.len() > 0,
        ws[0] == "sort"@,
    ensures
        parse_words_spec(ws) == sort_spec(ws.drop_first()),
{
    lemma_command_words();
    assert("sort"@[0] != "back"@[0]);
    assert("sort"@[0] != "exec"@[0]);
    assert("sort"@[0] != "goto"@[0]);
    assert("sort"@[0] != "help"@[0]);
    assert("sort"@[0] != "jump"@[0]);
    assert("sort"@[0] != "loop"@[0]);
    assert("sort"@[0] != "move"@[0]);
    assert("sort"@[0] != "next"@[0]);
    assert("sort"@[0] != "noop"@[0]);
    assert("sort"@[0] != "open"@[0]);
    assert("sort"@[0] != "play"@[0]);
    assert("sort"@[0] != "quit"@[0]);
    assert("sort"@[1] != "save"@[1]);
    assert("sort"@[1] != "stop"@[1]);
}

/// The arguments of a sort name its key and direction: each key's word reads
/// as that key, each direction's word as that direction, and a key alone
/// sorts ascending.
pub proof fn lemma_sort_args(k: SortKey, d: SortDirection)
    ensures
        sort_spec(seq![sort_key_text(k), sort_direction_text(d)]) == Ok::<CommandView, ParseErrorView>(
            CommandView::Sort(k, d),
        ),
        sort_spec(seq![sort_key_text(k)]) == Ok::<CommandView, ParseErrorView>(
            CommandView::Sort(k, SortDirection::Ascending),
        ),
{
    reveal_strlit("sort");
    reveal_strlit("title");
    reveal_strlit("duration");
    reveal_strlit("album");
    reveal_strlit("added");
    reveal_strlit("artist");
    reveal_strlit("a");
    reveal_strlit("asc");
    reveal_strlit("ascending");
    reveal_strlit("d");
    reveal_strlit("desc");
    reveal_strlit("descending");
    assert("artist"@[1] != "added"@[1]);
    assert("album"@[1] != "added"@[1]);
    assert("album"@[0] != "title"@[0]);
    assert("added"@[0] != "title"@[0]);
    assert("ascending"@[0] != "descending"@[0]);
    assert("ascending"@.len() != "a"@.len() && "ascending"@.len() != "asc"@.len());
    assert("descending"@.len() != "d"@.len() && "descending"@.len() != "desc"@.len());
    assert("descending"@.len() != "ascending"@.len());
}

/// A sort written by `to_string` reads back as the same sort.
proof fn lemma_sort_reads_back(k: SortKey, d: SortDirection)
    ensures
        parse_spec(command_text(CommandView::Sort(k, d))) == Ok::<Seq<CommandView>, ParseErrorView>(
            seq![CommandView::Sort(k, d)],
        ),
{
    reveal_strlit("sort");
    reveal_strlit("title");
    reveal_strlit("duration");
    reveal_strlit("album");
    reveal_strlit("added");
    reveal_strlit("artist");
    reveal_strlit("a");
    reveal_strlit("asc");
    reveal_strlit("ascending");
    reveal_strlit("d");
    reveal_strlit("desc");
    reveal_strlit("descending");
    reveal_strlit(" ");
    let c = CommandView::Sort(k, d);
    let kw = sort_key_text(k);
    let dw = sort_direction_text(d);
    let ws = seq!["sort"@, kw, dw];
    assert(seq![basename_of(c)] + extra_words(c) =~= ws);
    assert(ws.drop_last() =~= seq!["sort"@, kw]);
    assert(seq!["sort"@, kw].drop_last() =~= seq!["sort"@]);
    assert(join_seq(seq!["sort"@], " "@) == "sort"@);
    assert(seq!["sort"@, kw].last() == kw);
    assert(join_seq(seq!["sort"@, kw], " "@) == "sort"@ + " "@ + kw);
    assert(ws.last() == dw);
    assert(join_seq(ws, " "@) == join_seq(seq!["sort"@, kw], " "@) + " "@ + dw);
    assert(" "@ =~= seq![' ']);
    assert(join_seq(ws, " "@) =~= "sort"@ + seq![' '] + kw + seq![' '] + dw);
    assert(is_word("sort"@));
    assert(is_word(kw));
    assert(is_word(dw));
    lemma_three_words("sort"@, kw, dw);
    lemma_parse_one_line("sort"@ + seq![' '] + kw + seq![' '] + dw, ws);
    lemma_sort_name(ws);
    assert(ws.drop_first() =~= seq![kw, dw]);
    lemma_sort_args(k, d);
}

/// The commands whose written form reads back as themselves: those written
/// as their name alone or with fixed words after it. Left out are those
/// written with a number, a duration or free text, and `repeat` with a
/// setting (written by the setting's name, which `parse` does not accept).
pub open spec fn reads_back(c: CommandView) -> bool {
    match c {
        CommandView::Quit | CommandView::TogglePlay | CommandView::Stop | CommandView::Previous
        | CommandView::Next | CommandView::Clear | CommandView::Queue | CommandView::PlayNext
        | CommandView::Play | CommandView::UpdateLibrary | CommandView::Save | CommandView::SaveCurrent
        | CommandView::SaveQueue | CommandView::Add | CommandView::AddCurrent | CommandView::Delete
        | CommandView::Back | CommandView::Help | CommandView::ReloadConfig | CommandView::Noop
        | CommandView::Logout | CommandView::Redraw | CommandView::Reconnect => true,
        CommandView::Jump(JumpModeView::Next) | CommandView::Jump(JumpModeView::Previous) => true,
        CommandView::Repeat(None) | CommandView::Shuffle(_) => true,
        CommandView::Share(_) | CommandView::Open(_) | CommandView::ShowRecommendations(_) => true,
        CommandView::Goto(_) | CommandView::Sort(_, _) => true,
        _ => false,
    }
}

/// A command written by `to_string` reads back as the same command, for the
/// commands of `reads_back`.
pub proof fn lemma_command_reads_back(c: CommandView)
    requires
        reads_back(c),
    ensures
        parse_spec(command_text(c)) == Ok::<Seq<CommandView>, ParseErrorView>(seq![c]),
{
    match c {
        CommandView::Quit => lemma_reads_back_quit(),
        CommandView::TogglePlay => lemma_reads_back_toggleplay(),
        CommandView::Stop => lemma_reads_back_stop(),
        CommandView::Previous => lemma_reads_back_previous(),
        CommandView::Next => lemma_reads_back_next(),
        CommandView::Clear => lemma_reads_back_clear(),
        CommandView::Queue => lemma_reads_back_queue(),
        CommandView::PlayNext => lemma_reads_back_playnext(),
        CommandView::Play => lemma_reads_back_play(),
        CommandView::UpdateLibrary => lemma_reads_back_updatelibrary(),
        CommandView::Save => lemma_reads_back_save(),
        CommandView::Add => lemma_reads_back_add(),
        CommandView::Delete => lemma_reads_back_delete(),
        CommandView::Back => lemma_reads_back_back(),
        CommandView::Help => lemma_reads_back_help(),
        CommandView::ReloadConfig => lemma_reads_back_reloadconfig(),
        CommandView::Noop => lemma_reads_back_noop(),
        CommandView::Logout => lemma_reads_back_logout(),
        CommandView::Redraw => lemma_reads_back_redraw(),
        CommandView::Reconnect => lemma_reads_back_reconnect(),
        CommandView::Jump(JumpModeView::Next) => lemma_reads_back_jump_jumpmodeview_next(),
        CommandView::Jump(JumpModeView::Previous) => lemma_reads_back_jump_jumpmodeview_previous(),
        CommandView::Repeat(None) => lemma_reads_back_repeat_none(),
        CommandView::Shuffle(None) => lemma_reads_back_shuffle_none(),
        CommandView::SaveCurrent => lemma_reads_back_savecurrent(),
        CommandView::SaveQueue => lemma_reads_back_savequeue(),
        CommandView::AddCurrent => lemma_reads_back_addcurrent(),
        CommandView::Shuffle(Some(true)) => lemma_reads_back_shuffle_some_true(),
        CommandView::Shuffle(Some(false)) => lemma_reads_back_shuffle_some_false(),
        CommandView::Share(TargetMode::Current) => lemma_reads_back_share_targetmode_current(),
        CommandView::Share(TargetMode::Selected) => lemma_reads_back_share_targetmode_selected(),
        CommandView::Open(TargetMode::Current) => lemma_reads_back_open_targetmode_current(),
        CommandView::Open(TargetMode::Selected) => lemma_reads_back_open_targetmode_selected(),
        CommandView::ShowRecommendations(TargetMode::Current) => lemma_reads_back_showrecommendations_targetmode_current(),
        CommandView::ShowRecommendations(TargetMode::Selected) => lemma_reads_back_showrecommendations_targetmode_selected(),
        CommandView::Goto(GotoMode::Album) => lemma_reads_back_goto_gotomode_album(),
        CommandView::Goto(GotoMode::Artist) => lemma_reads_back_goto_gotomode_artist(),
        CommandView::Sort(k, d) => lemma_sort_reads_back(k, d),
        _ => {},
    }
}

} // verus!
