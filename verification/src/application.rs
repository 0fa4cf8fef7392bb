//! The decisions of the main loop: which screen to open first, what a line
//! typed into the command line asks for, and what each event received by the
//! loop sets off. The loop itself (drawing, input, signals) runs outside.
use vstd::prelude::*;

use crate::command::{parse, parse_spec, command_views, Command, CommandParseError, CommandView, JumpMode, JumpModeView, ParseErrorView};
use crate::events::Event;
use crate::queue::QueueEvent;
use crate::spotify::PlayerEvent;
use crate::text::{chars_of, chars_eq, string_from_chars, string_of, views_of};

verus! {

/// The screen shown when nothing else is asked for.
pub open spec fn default_screen() -> Seq<char> {
    "library"@
}

/// The screen to open at start: the configured one if there is a screen of
/// that name, else the library.
pub open spec fn initial_screen_spec(configured: Option<Seq<char>>, screens: Seq<Seq<char>>) -> Seq<char> {
    let wanted = match configured {
        Some(s) => s,
        None => default_screen(),
    };
    if screens.contains(wanted) {
        wanted
    } else {
        default_screen()
    }
}

fn has_screen(screens: &Vec<String>, name: &[char]) -> (r: bool)
    ensures
        r == views_of(screens@).contains(name@),
{
    let ghost vs = views_of(screens@);
    let mut i: usize = 0;
    while i < screens.len()
        invariant
            i <= screens@.len(),
            vs == views_of(screens@),
            forall|j: int| 0 <= j < i ==> vs[j] != name@,
        decreases screens@.len() - i,
    {
        let c = chars_of(screens[i].as_str());
        assert(vs[i as int] == screens@[i as int]@);
        if chars_eq(&c, name) {
            assert(vs[i as int] == name@);
            return true;
        }
        i = i + 1;
    }
    assert(!vs.contains(name@)) by {
        if vs.contains(name@) {
            let k = choose|k: int| 0 <= k < vs.len() && vs[k] == name@;
            assert(vs[k] != name@);
        }
    }
    false
}

/// Picks the screen to open at start among `screens`, given the configured
/// `initial_screen`.
pub fn initial_screen(configured: &Option<String>, screens: &Vec<String>) -> (r: String)
    ensures
        r@ == initial_screen_spec(
            match configured {
                Some(s) => Some(s@),
                None => None,
            },
            views_of(screens@),
        ),
{
    let library = string_of("library");
    let wanted = match configured {
        Some(s) => chars_of(s.as_str()),
        None => chars_of(library.as_str()),
    };
    if has_screen(screens, &wanted) {
        string_from_chars(&wanted)
    } else {
        library
    }
}

/// The key that opens the command line: the configured one, else `:`.
pub fn command_key(configured: Option<char>) -> (r: char)
    ensures
        r == match configured {
            Some(c) => c,
            None => ':',
        },
{
    match configured {
        Some(c) => c,
        None => ':',
    }
}

/// What a submitted command line asks for. Its first character is the key
/// that opened it: `/` starts a search for the rest, any other key a list of
/// commands.
pub open spec fn cmdline_spec(line: Seq<char>) -> Result<Seq<CommandView>, ParseErrorView> {
    let rest = line.drop_first();
    if line[0] == '/' {
        Ok(seq![CommandView::Jump(JumpModeView::Query(rest))])
    } else {
        parse_spec(rest)
    }
}

/// Reads a line submitted from the command line. The line starts with the
/// one-byte key that opened it.
pub fn submit_cmdline(line: &str) -> (r: Result<Vec<Command>, CommandParseError>)
    requires
        line@.len() > 0,
        (line@[0] as u32) < 128,
    ensures
        match cmdline_spec(line@) {
            Ok(cs) => r matches Ok(v) && command_views(v@) == cs,
            Err(e) => r matches Err(x) && x.view() == e,
        },
{
    let chars = chars_of(line);
    let rest_chars = vstd::slice::slice_subrange(chars.as_slice(), 1, chars.len());
    let rest = string_from_chars(rest_chars);
    assert(rest@ =~= line@.drop_first());
    if chars[0] == '/' {
        let mut v: Vec<Command> = Vec::new();
        v.push(Command::Jump(JumpMode::Query(rest)));
        assert(command_views(v@) =~= seq![CommandView::Jump(JumpModeView::Query(line@.drop_first()))]);
        Ok(v)
    } else {
        parse(rest.as_str())
    }
}

/// What the main loop does in answer to one event.
pub enum LoopAction {
    /// Hand the player's report to the player state, the media controls and
    /// the IPC socket.
    ReportPlayerEvent(PlayerEvent),
    /// Move on to the next track, as at the end of one (not a manual skip).
    NextTrack,
    /// Let the queue handle its own event.
    HandleQueueEvent(QueueEvent),
    /// Start a new worker for a new session.
    RestartWorker,
    /// Run these commands, in order.
    RunCommands(Vec<Command>),
    /// Log that a line from the IPC socket could not be read.
    LogParseError(CommandParseError),
}

/// What the main loop does in answer to an event, in order: a player report
/// is passed on, and the end of a track moves on to the next; a queue event
/// goes to the queue; a dead session gets a new worker; a line from the IPC
/// socket is read as commands, or its error logged.
pub open spec fn loop_actions_spec(event: Event) -> Seq<LoopActionView> {
    match event {
        Event::Player(s) => if s == PlayerEvent::FinishedTrack {
            seq![LoopActionView::ReportPlayerEvent(s), LoopActionView::NextTrack]
        } else {
            seq![LoopActionView::ReportPlayerEvent(s)]
        },
        Event::Queue(e) => seq![LoopActionView::HandleQueueEvent(e)],
        Event::SessionDied => seq![LoopActionView::RestartWorker],
        Event::IpcInput(input) => match parse_spec(input@) {
            Ok(cs) => seq![LoopActionView::RunCommands(cs)],
            Err(e) => seq![LoopActionView::LogParseError(e)],
        },
    }
}

/// A [LoopAction] as a value of the specification.
pub enum LoopActionView {
    ReportPlayerEvent(PlayerEvent),
    NextTrack,
    HandleQueueEvent(QueueEvent),
    RestartWorker,
    RunCommands(Seq<CommandView>),
    LogParseError(ParseErrorView),
}

impl LoopAction {
    pub open spec fn view(&self) -> LoopActionView {
        match self {
            LoopAction::ReportPlayerEvent(s) => LoopActionView::ReportPlayerEvent(*s),
            LoopAction::NextTrack => LoopActionView::NextTrack,
            LoopAction::HandleQueueEvent(e) => LoopActionView::HandleQueueEvent(*e),
            LoopAction::RestartWorker => LoopActionView::RestartWorker,
            LoopAction::RunCommands(cs) => LoopActionView::RunCommands(command_views(cs@)),
            LoopAction::LogParseError(e) => LoopActionView::LogParseError(e.view()),
        }
    }
}

pub open spec fn loop_action_views(v: Seq<LoopAction>) -> Seq<LoopActionView> {
    v.map_values(|a: LoopAction| a.view())
}

/// Decides what the main loop does in answer to `event`.
pub fn loop_actions(event: Event) -> (r: Vec<LoopAction>)
    ensures
        loop_action_views(r@) == loop_actions_spec(event),
{
    let mut v: Vec<LoopAction> = Vec::new();
    match event {
        Event::Player(s) => {
            v.push(LoopAction::ReportPlayerEvent(s));
            if s == PlayerEvent::FinishedTrack {
                v.push(LoopAction::NextTrack);
            }
        },
        Event::Queue(e) => {
            v.push(LoopAction::HandleQueueEvent(e));
        },
        Event::SessionDied => {
            v.push(LoopAction::RestartWorker);
        },
        Event::IpcInput(input) => {
            match parse(input.as_str()) {
                Ok(cs) => v.push(LoopAction::RunCommands(cs)),
                Err(e) => v.push(LoopAction::LogParseError(e)),
            }
        },
    }
    assert(loop_action_views(v@) =~= loop_actions_spec(event));
    v
}

} // verus!
