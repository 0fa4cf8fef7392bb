//! Key bindings: reading key names, the default bindings, custom bindings
//! from the configuration, and what the default commands do.
use vstd::prelude::*;

use crate::command::{
    command_views, parse, parse_spec, Command, CommandView, GotoMode, InsertSource, InsertSourceView,
    JumpMode, JumpModeView, MoveAmount, MoveAmountView, MoveMode, SeekDirection, ShiftMode,
    TargetMode,
};
use crate::queue::RepeatSetting;
use crate::spotify_url::ascii_lower_char;
use crate::text::{chars_eq_str, chars_of, lemma_split_two, split_chars, split_on, string_from_chars, string_of};

verus! {

/// Named keys.
#[derive(Clone, Copy, Debug, PartialEq, Eq, Structural)]
pub enum Key {
    Enter,
    Tab,
    Backspace,
    Esc,
    Left,
    Right,
    Up,
    Down,
    Ins,
    Del,
    Home,
    End,
    PageUp,
    PageDown,
    PauseBreak,
    NumpadCenter,
    F0,
    F1,
    F2,
    F3,
    F4,
    F5,
    F6,
    F7,
    F8,
    F9,
    F10,
    F11,
    F12,
}

/// A key press, possibly with a modifier.
#[derive(Clone, Copy, Debug, PartialEq, Eq, Structural)]
pub enum Event {
    Char(char),
    Key(Key),
    Shift(Key),
    Alt(Key),
    Ctrl(Key),
    AltChar(char),
    CtrlChar(char),
}

/// The key that a key name stands for; any other name stands for its
/// first character.
pub open spec fn key_event(s: Seq<char>) -> Event {
    if s == "Space"@ {
        Event::Char(' ')
    } else if s == "Enter"@ {
        Event::Key(Key::Enter)
    } else if s == "Tab"@ {
        Event::Key(Key::Tab)
    } else if s == "Backspace"@ {
        Event::Key(Key::Backspace)
    } else if s == "Esc"@ {
        Event::Key(Key::Esc)
    } else if s == "Left"@ {
        Event::Key(Key::Left)
    } else if s == "Right"@ {
        Event::Key(Key::Right)
    } else if s == "Up"@ {
        Event::Key(Key::Up)
    } else if s == "Down"@ {
        Event::Key(Key::Down)
    } else if s == "Ins"@ {
        Event::Key(Key::Ins)
    } else if s == "Del"@ {
        Event::Key(Key::Del)
    } else if s == "Home"@ {
        Event::Key(Key::Home)
    } else if s == "End"@ {
        Event::Key(Key::End)
    } else if s == "PageUp"@ {
        Event::Key(Key::PageUp)
    } else if s == "PageDown"@ {
        Event::Key(Key::PageDown)
    } else if s == "PauseBreak"@ {
        Event::Key(Key::PauseBreak)
    } else if s == "NumpadCenter"@ {
        Event::Key(Key::NumpadCenter)
    } else if s == "F0"@ {
        Event::Key(Key::F0)
    } else if s == "F1"@ {
        Event::Key(Key::F1)
    } else if s == "F2"@ {
        Event::Key(Key::F2)
    } else if s == "F3"@ {
        Event::Key(Key::F3)
    } else if s == "F4"@ {
        Event::Key(Key::F4)
    } else if s == "F5"@ {
        Event::Key(Key::F5)
    } else if s == "F6"@ {
        Event::Key(Key::F6)
    } else if s == "F7"@ {
        Event::Key(Key::F7)
    } else if s == "F8"@ {
        Event::Key(Key::F8)
    } else if s == "F9"@ {
        Event::Key(Key::F9)
    } else if s == "F10"@ {
        Event::Key(Key::F10)
    } else if s == "F11"@ {
        Event::Key(Key::F11)
    } else if s == "F12"@ {
        Event::Key(Key::F12)
    } else {
        Event::Char(s[0])
    }
}

/// What `char::to_uppercase` gives first for `c`.
pub uninterp spec fn upper_first(c: char) -> char;

pub open spec fn ascii_upper_char(c: char) -> char {
    if 'a' <= c && c <= 'z' {
        ((c as u32) - 32) as char
    } else {
        c
    }
}

/// Calls `char::to_uppercase` and takes its first character (the mapping
/// always has one). Claimed: the result is `upper_first(c)`, a function of
/// `c` alone, and for ASCII `c` it maps `a`-`z` to `A`-`Z` and keeps any
/// other character.
#[verifier::external_body]
fn to_uppercase_first(c: char) -> (r: char)
    ensures
        r == upper_first(c),
        (c as u32) < 128 ==> r == ascii_upper_char(c),
{
    c.to_uppercase().next().unwrap_or(c)
}

/// The event for the key named `key`.
pub fn parse_key(key: &str) -> (r: Event)
    requires
        key@.len() > 0,
    ensures
        r == key_event(key@),
{
    let v = chars_of(key);
    if chars_eq_str(&v, "Space") {
        Event::Char(' ')
    } else if chars_eq_str(&v, "Enter") {
        Event::Key(Key::Enter)
    } else if chars_eq_str(&v, "Tab") {
        Event::Key(Key::Tab)
    } else if chars_eq_str(&v, "Backspace") {
        Event::Key(Key::Backspace)
    } else if chars_eq_str(&v, "Esc") {
        Event::Key(Key::Esc)
    } else if chars_eq_str(&v, "Left") {
        Event::Key(Key::Left)
    } else if chars_eq_str(&v, "Right") {
        Event::Key(Key::Right)
    } else if chars_eq_str(&v, "Up") {
        Event::Key(Key::Up)
    } else if chars_eq_str(&v, "Down") {
        Event::Key(Key::Down)
    } else if chars_eq_str(&v, "Ins") {
        Event::Key(Key::Ins)
    } else if chars_eq_str(&v, "Del") {
        Event::Key(Key::Del)
    } else if chars_eq_str(&v, "Home") {
        Event::Key(Key::Home)
    } else if chars_eq_str(&v, "End") {
        Event::Key(Key::End)
    } else if chars_eq_str(&v, "PageUp") {
        Event::Key(Key::PageUp)
    } else if chars_eq_str(&v, "PageDown") {
        Event::Key(Key::PageDown)
    } else if chars_eq_str(&v, "PauseBreak") {
        Event::Key(Key::PauseBreak)
    } else if chars_eq_str(&v, "NumpadCenter") {
        Event::Key(Key::NumpadCenter)
    } else if chars_eq_str(&v, "F0") {
        Event::Key(Key::F0)
    } else if chars_eq_str(&v, "F1") {
        Event::Key(Key::F1)
    } else if chars_eq_str(&v, "F2") {
        Event::Key(Key::F2)
    } else if chars_eq_str(&v, "F3") {
        Event::Key(Key::F3)
    } else if chars_eq_str(&v, "F4") {
        Event::Key(Key::F4)
    } else if chars_eq_str(&v, "F5") {
        Event::Key(Key::F5)
    } else if chars_eq_str(&v, "F6") {
        Event::Key(Key::F6)
    } else if chars_eq_str(&v, "F7") {
        Event::Key(Key::F7)
    } else if chars_eq_str(&v, "F8") {
        Event::Key(Key::F8)
    } else if chars_eq_str(&v, "F9") {
        Event::Key(Key::F9)
    } else if chars_eq_str(&v, "F10") {
        Event::Key(Key::F10)
    } else if chars_eq_str(&v, "F11") {
        Event::Key(Key::F11)
    } else if chars_eq_str(&v, "F12") {
        Event::Key(Key::F12)
    } else {
        Event::Char(v[0])
    }
}

/// The event that a binding such as `Ctrl+a` or `Shift+Up` names: one
/// modifier (`Shift`, `Alt` or `Ctrl`) and a key, or a key alone.
pub open spec fn keybinding_event(kb: Seq<char>) -> Option<Event> {
    let parts = split_on(kb, '+');
    if kb != "+"@ && parts.len() == 2 {
        let modifier = parts[0];
        match key_event(parts[1]) {
            Event::Key(k) => {
                if modifier == "Shift"@ {
                    Some(Event::Shift(k))
                } else if modifier == "Alt"@ {
                    Some(Event::Alt(k))
                } else if modifier == "Ctrl"@ {
                    Some(Event::Ctrl(k))
                } else {
                    None
                }
            },
            Event::Char(c) => {
                if modifier == "Shift"@ {
                    Some(Event::Char(upper_first(c)))
                } else if modifier == "Alt"@ {
                    Some(Event::AltChar(c))
                } else if modifier == "Ctrl"@ {
                    Some(Event::CtrlChar(c))
                } else {
                    None
                }
            },
            _ => None,
        }
    } else {
        Some(key_event(kb))
    }
}

/// A binding can be read without failing: the key it names is not empty.
pub open spec fn keybinding_defined(kb: Seq<char>) -> bool {
    let parts = split_on(kb, '+');
    if kb != "+"@ && parts.len() == 2 {
        parts[1].len() > 0
    } else {
        kb.len() > 0
    }
}

/// The event for the key binding `kb`, or `None` when its modifier is unknown.
pub fn parse_keybinding(kb: &str) -> (r: Option<Event>)
    requires
        keybinding_defined(kb@),
    ensures
        r == keybinding_event(kb@),
        ({
            let parts = split_on(kb@, '+');
            (kb@ != "+"@ && parts.len() == 2 && parts[0] == "Shift"@) ==> match key_event(parts[1]) {
                Event::Char(c) => (c as u32) < 128 ==> r == Some(Event::Char(ascii_upper_char(c))),
                _ => true,
            }
        }),
{
    let v = chars_of(kb);
    assert(v@.skip(0) =~= v@);
    let parts = split_chars(&v, 0, '+');
    if !chars_eq_str(&v, "+") && parts.len() == 2 {
        let key = string_from_chars(&parts[1]);
        let parsed = parse_key(key.as_str());
        let m = &parts[0];
        match parsed {
            Event::Key(k) => {
                if chars_eq_str(m, "Shift") {
                    Some(Event::Shift(k))
                } else if chars_eq_str(m, "Alt") {
                    Some(Event::Alt(k))
                } else if chars_eq_str(m, "Ctrl") {
                    Some(Event::Ctrl(k))
                } else {
                    None
                }
            },
            Event::Char(c) => {
                if chars_eq_str(m, "Shift") {
                    Some(Event::Char(to_uppercase_first(c)))
                } else if chars_eq_str(m, "Alt") {
                    Some(Event::AltChar(c))
                } else if chars_eq_str(m, "Ctrl") {
                    Some(Event::CtrlChar(c))
                } else {
                    None
                }
            },
            _ => None,
        }
    } else {
        Some(parse_key(kb))
    }
}

/// Key bindings: each entry binds a key name to the commands it runs; a
/// later entry for the same key replaces an earlier one.
pub struct Bindings {
    pub entries: Vec<(String, Vec<Command>)>,
}

pub open spec fn binding_view(e: Seq<(String, Vec<Command>)>) -> Map<Seq<char>, Seq<CommandView>>
    decreases e.len(),
{
    if e.len() == 0 {
        Map::empty()
    } else {
        binding_view(e.drop_last()).insert(e.last().0@, command_views(e.last().1@))
    }
}

proof fn lemma_binding_lookup(e: Seq<(String, Vec<Command>)>, k: Seq<char>, j: int)
    requires
        -1 <= j < e.len(),
        forall|i: int| j < i < e.len() ==> (#[trigger] e[i]).0@ != k,
        j >= 0 ==> e[j].0@ == k,
    ensures
        j >= 0 ==> (binding_view(e).contains_key(k) && binding_view(e)[k] == command_views(e[j].1@)),
        j < 0 ==> !binding_view(e).contains_key(k),
    decreases e.len(),
{
    if e.len() > 0 {
        if j < e.len() - 1 {
            lemma_binding_lookup(e.drop_last(), k, j);
        }
    }
}

impl Bindings {
    pub open spec fn view(&self) -> Map<Seq<char>, Seq<CommandView>> {
        binding_view(self.entries@)
    }

    pub fn new() -> (r: Bindings)
        ensures
            r.view() == Map::<Seq<char>, Seq<CommandView>>::empty(),
    {
        Bindings { entries: Vec::new() }
    }

    /// Binds `key` to the commands `cmds`.
    pub fn insert(&mut self, key: String, cmds: Vec<Command>)
        ensures
            final(self).view() == old(self).view().insert(key@, command_views(cmds@)),
    {
        self.entries.push((key, cmds));
        assert(self.entries@.drop_last() =~= old(self).entries@);
    }

    /// Binds `key` to the single command `cmd`.
    pub fn insert_one(&mut self, key: &str, cmd: Command)
        ensures
            final(self).view() == old(self).view().insert(key@, seq![cmd.view()]),
    {
        let mut v: Vec<Command> = Vec::new();
        v.push(cmd);
        assert(command_views(v@) =~= seq![cmd.view()]);
        self.insert(string_of(key), v);
    }

    /// The index of the entry that decides the binding of `key`, if any.
    pub fn find(&self, key: &str) -> (r: Option<usize>)
        ensures
            match r {
                Some(i) => i < self.entries@.len() && self.view().contains_key(key@)
                    && self.view()[key@] == command_views(self.entries@[i as int].1@),
                None => !self.view().contains_key(key@),
            },
    {
        let k = chars_of(key);
        let mut i = self.entries.len();
        while i > 0
            invariant
                k@ == key@,
                i <= self.entries@.len(),
                forall|j: int| i <= j < self.entries@.len() ==> (#[trigger] self.entries@[j]).0@
                    != key@,
            decreases i,
        {
            let ek = chars_of(self.entries[i - 1].0.as_str());
            if crate::text::chars_eq(&ek, &k) {
                proof {
                    lemma_binding_lookup(self.entries@, key@, i - 1);
                }
                return Some(i - 1);
            }
            i = i - 1;
        }
        proof {
            lemma_binding_lookup(self.entries@, key@, -1);
        }
        None
    }
}

pub open spec fn default_bindings_part0(m: Map<Seq<char>, Seq<CommandView>>) -> Map<Seq<char>, Seq<CommandView>> {
    m
        .insert("q"@, seq![CommandView::Quit])
        .insert("Shift+p"@, seq![CommandView::TogglePlay])
        .insert("Shift+u"@, seq![CommandView::UpdateLibrary])
        .insert("Shift+s"@, seq![CommandView::Stop])
        .insert("<"@, seq![CommandView::Previous])
        .insert(">"@, seq![CommandView::Next])
        .insert("c"@, seq![CommandView::Clear])
        .insert("Space"@, seq![CommandView::Queue])
        .insert("."@, seq![CommandView::PlayNext])
        .insert("Enter"@, seq![CommandView::Play])
        .insert("n"@, seq![CommandView::Jump(JumpModeView::Next)])
        .insert("Shift+n"@, seq![CommandView::Jump(JumpModeView::Previous)])
        .insert("s"@, seq![CommandView::Save])
        .insert("Ctrl+s"@, seq![CommandView::SaveQueue])
}

pub open spec fn default_bindings_part1(m: Map<Seq<char>, Seq<CommandView>>) -> Map<Seq<char>, Seq<CommandView>> {
    m
        .insert("d"@, seq![CommandView::Delete])
        .insert("f"@, seq![CommandView::Seek(SeekDirection::Relative(1000))])
        .insert("b"@, seq![CommandView::Seek(SeekDirection::Relative(-1000i32))])
        .insert("Shift+f"@, seq![CommandView::Seek(SeekDirection::Relative(10000))])
        .insert("Shift+b"@, seq![CommandView::Seek(SeekDirection::Relative(-10000i32))])
        .insert("+"@, seq![CommandView::VolumeUp(1)])
        .insert("]"@, seq![CommandView::VolumeUp(5)])
        .insert("-"@, seq![CommandView::VolumeDown(1)])
        .insert("["@, seq![CommandView::VolumeDown(5)])
        .insert("r"@, seq![CommandView::Repeat(None)])
        .insert("z"@, seq![CommandView::Shuffle(None)])
        .insert("x"@, seq![CommandView::Share(TargetMode::Current)])
        .insert("Shift+x"@, seq![CommandView::Share(TargetMode::Selected)])
        .insert("F1"@, seq![CommandView::Focus("queue"@)])
}

pub open spec fn default_bindings_part2(m: Map<Seq<char>, Seq<CommandView>>) -> Map<Seq<char>, Seq<CommandView>> {
    m
        .insert("F2"@, seq![CommandView::Focus("search"@)])
        .insert("F3"@, seq![CommandView::Focus("library"@)])
        .insert("?"@, seq![CommandView::Help])
        .insert("Backspace"@, seq![CommandView::Back])
        .insert("o"@, seq![CommandView::Open(TargetMode::Selected)])
        .insert("Shift+o"@, seq![CommandView::Open(TargetMode::Current)])
        .insert("a"@, seq![CommandView::Goto(GotoMode::Album)])
        .insert("A"@, seq![CommandView::Goto(GotoMode::Artist)])
        .insert("Up"@, seq![CommandView::Move(MoveMode::Up, MoveAmountView::Integer(1))])
        .insert("p"@, seq![CommandView::Move(MoveMode::Playing, MoveAmountView::Integer(1))])
        .insert("Down"@, seq![CommandView::Move(MoveMode::Down, MoveAmountView::Integer(1))])
        .insert("Left"@, seq![CommandView::Move(MoveMode::Left, MoveAmountView::Integer(1))])
        .insert("Right"@, seq![CommandView::Move(MoveMode::Right, MoveAmountView::Integer(1))])
        .insert("PageUp"@, seq![CommandView::Move(MoveMode::Up, MoveAmountView::Integer(5))])
}

pub open spec fn default_bindings_part3(m: Map<Seq<char>, Seq<CommandView>>) -> Map<Seq<char>, Seq<CommandView>> {
    m
        .insert("PageDown"@, seq![CommandView::Move(MoveMode::Down, MoveAmountView::Integer(5))])
        .insert("Home"@, seq![CommandView::Move(MoveMode::Up, MoveAmountView::Extreme)])
        .insert("End"@, seq![CommandView::Move(MoveMode::Down, MoveAmountView::Extreme)])
        .insert("k"@, seq![CommandView::Move(MoveMode::Up, MoveAmountView::Integer(1))])
        .insert("j"@, seq![CommandView::Move(MoveMode::Down, MoveAmountView::Integer(1))])
        .insert("h"@, seq![CommandView::Move(MoveMode::Left, MoveAmountView::Integer(1))])
        .insert("l"@, seq![CommandView::Move(MoveMode::Right, MoveAmountView::Integer(1))])
        .insert("Ctrl+p"@, seq![CommandView::Move(MoveMode::Up, MoveAmountView::Integer(1))])
        .insert("Ctrl+n"@, seq![CommandView::Move(MoveMode::Down, MoveAmountView::Integer(1))])
        .insert("Ctrl+a"@, seq![CommandView::Move(MoveMode::Left, MoveAmountView::Integer(1))])
        .insert("Ctrl+e"@, seq![CommandView::Move(MoveMode::Right, MoveAmountView::Integer(1))])
        .insert("Shift+Up"@, seq![CommandView::Shift(ShiftMode::Up, None)])
        .insert("Shift+Down"@, seq![CommandView::Shift(ShiftMode::Down, None)])
        .insert("Ctrl+v"@, seq![CommandView::Insert(InsertSourceView::Clipboard)])
}

/// The default key bindings.
pub open spec fn default_binding_map() -> Map<Seq<char>, Seq<CommandView>> {
    default_bindings_part3(default_bindings_part2(default_bindings_part1(default_bindings_part0(Map::empty()))))
}

fn add_default_bindings_part0(kb: &mut Bindings)
    ensures
        final(kb).view() == default_bindings_part0(old(kb).view()),
{
    kb.insert_one("q", Command::Quit);
    kb.insert_one("Shift+p", Command::TogglePlay);
    kb.insert_one("Shift+u", Command::UpdateLibrary);
    kb.insert_one("Shift+s", Command::Stop);
    kb.insert_one("<", Command::Previous);
    kb.insert_one(">", Command::Next);
    kb.insert_one("c", Command::Clear);
    kb.insert_one("Space", Command::Queue);
    kb.insert_one(".", Command::PlayNext);
    kb.insert_one("Enter", Command::Play);
    kb.insert_one("n", Command::Jump(JumpMode::Next));
    kb.insert_one("Shift+n", Command::Jump(JumpMode::Previous));
    kb.insert_one("s", Command::Save);
    kb.insert_one("Ctrl+s", Command::SaveQueue);
}

fn add_default_bindings_part1(kb: &mut Bindings)
    ensures
        final(kb).view() == default_bindings_part1(old(kb).view()),
{
    kb.insert_one("d", Command::Delete);
    kb.insert_one("f", Command::Seek(SeekDirection::Relative(1000)));
    kb.insert_one("b", Command::Seek(SeekDirection::Relative(-1000)));
    kb.insert_one("Shift+f", Command::Seek(SeekDirection::Relative(10000)));
    kb.insert_one("Shift+b", Command::Seek(SeekDirection::Relative(-10000)));
    kb.insert_one("+", Command::VolumeUp(1));
    kb.insert_one("]", Command::VolumeUp(5));
    kb.insert_one("-", Command::VolumeDown(1));
    kb.insert_one("[", Command::VolumeDown(5));
    kb.insert_one("r", Command::Repeat(None));
    kb.insert_one("z", Command::Shuffle(None));
    kb.insert_one("x", Command::Share(TargetMode::Current));
    kb.insert_one("Shift+x", Command::Share(TargetMode::Selected));
    kb.insert_one("F1", Command::Focus(string_of("queue")));
}

fn add_default_bindings_part2(kb: &mut Bindings)
    ensures
        final(kb).view() == default_bindings_part2(old(kb).view()),
{
    kb.insert_one("F2", Command::Focus(string_of("search")));
    kb.insert_one("F3", Command::Focus(string_of("library")));
    kb.insert_one("?", Command::Help);
    kb.insert_one("Backspace", Command::Back);
    kb.insert_one("o", Command::Open(TargetMode::Selected));
    kb.insert_one("Shift+o", Command::Open(TargetMode::Current));
    kb.insert_one("a", Command::Goto(GotoMode::Album));
    kb.insert_one("A", Command::Goto(GotoMode::Artist));
    kb.insert_one("Up", Command::Move(MoveMode::Up, MoveAmount::Integer(1)));
    kb.insert_one("p", Command::Move(MoveMode::Playing, MoveAmount::Integer(1)));
    kb.insert_one("Down", Command::Move(MoveMode::Down, MoveAmount::Integer(1)));
    kb.insert_one("Left", Command::Move(MoveMode::Left, MoveAmount::Integer(1)));
    kb.insert_one("Right", Command::Move(MoveMode::Right, MoveAmount::Integer(1)));
    kb.insert_one("PageUp", Command::Move(MoveMode::Up, MoveAmount::Integer(5)));
}

fn add_default_bindings_part3(kb: &mut Bindings)
    ensures
        final(kb).view() == default_bindings_part3(old(kb).view()),
{
    kb.insert_one("PageDown", Command::Move(MoveMode::Down, MoveAmount::Integer(5)));
    kb.insert_one("Home", Command::Move(MoveMode::Up, MoveAmount::Extreme));
    kb.insert_one("End", Command::Move(MoveMode::Down, MoveAmount::Extreme));
    kb.insert_one("k", Command::Move(MoveMode::Up, MoveAmount::Integer(1)));
    kb.insert_one("j", Command::Move(MoveMode::Down, MoveAmount::Integer(1)));
    kb.insert_one("h", Command::Move(MoveMode::Left, MoveAmount::Integer(1)));
    kb.insert_one("l", Command::Move(MoveMode::Right, MoveAmount::Integer(1)));
    kb.insert_one("Ctrl+p", Command::Move(MoveMode::Up, MoveAmount::Integer(1)));
    kb.insert_one("Ctrl+n", Command::Move(MoveMode::Down, MoveAmount::Integer(1)));
    kb.insert_one("Ctrl+a", Command::Move(MoveMode::Left, MoveAmount::Integer(1)));
    kb.insert_one("Ctrl+e", Command::Move(MoveMode::Right, MoveAmount::Integer(1)));
    kb.insert_one("Shift+Up", Command::Shift(ShiftMode::Up, None));
    kb.insert_one("Shift+Down", Command::Shift(ShiftMode::Down, None));
    kb.insert_one("Ctrl+v", Command::Insert(InsertSource::Clipboard));
}

/// The bindings that apply unless the configuration turns them off.
pub fn default_keybindings() -> (r: Bindings)
    ensures
        r.view() == default_binding_map(),
{
    let mut kb = Bindings::new();
    add_default_bindings_part0(&mut kb);
    add_default_bindings_part1(&mut kb);
    add_default_bindings_part2(&mut kb);
    add_default_bindings_part3(&mut kb);
    kb
}

/// The bindings after adding each custom binding whose command line reads
/// without error, in order; bindings that do not read are left out.
pub open spec fn custom_bindings(m: Map<Seq<char>, Seq<CommandView>>, custom: Seq<(Seq<char>, Seq<char>)>) -> Map<
    Seq<char>,
    Seq<CommandView>,
>
    decreases custom.len(),
{
    if custom.len() == 0 {
        m
    } else {
        let before = custom_bindings(m, custom.drop_last());
        match parse_spec(custom.last().1) {
            Ok(cmds) => before.insert(custom.last().0, cmds),
            Err(_) => before,
        }
    }
}

pub open spec fn pair_views(v: Seq<(String, String)>) -> Seq<(Seq<char>, Seq<char>)> {
    v.map_values(|p: (String, String)| (p.0@, p.1@))
}

/// The key bindings for a configuration: the defaults (unless
/// `default_keybindings` is `Some(false)`), then the custom bindings.
pub fn get_bindings(default_keybindings: Option<bool>, custom: &Vec<(String, String)>) -> (r: Bindings)
    ensures
        r.view() == custom_bindings(
            if default_keybindings.unwrap_or(true) {
                default_binding_map()
            } else {
                Map::empty()
            },
            pair_views(custom@),
        ),
{
    let use_defaults = match default_keybindings {
        Some(b) => b,
        None => true,
    };
    let mut kb = if use_defaults {
        self::default_keybindings()
    } else {
        Bindings::new()
    };
    let ghost start = kb.view();
    let ghost cs = pair_views(custom@);
    let mut i: usize = 0;
    while i < custom.len()
        invariant
            i <= custom@.len(),
            cs == pair_views(custom@),
            kb.view() == custom_bindings(start, cs.take(i as int)),
        decreases custom@.len() - i,
    {
        assert(cs.take(i + 1).drop_last() =~= cs.take(i as int));
        assert(cs.take(i + 1).last() == (custom@[i as int].0@, custom@[i as int].1@));
        match parse(custom[i].1.as_str()) {
            Ok(cmds) => kb.insert(custom[i].0.clone(), cmds),
            Err(_) => {},
        }
        i = i + 1;
    }
    assert(cs.take(custom@.len() as int) =~= cs);
    kb
}

/// One percent of the maximum player volume.
pub const VOLUME_PERCENT: u16 = 655;

/// What carrying out a command that no view handled amounts to.
#[derive(Clone, Debug)]
pub enum DefaultAction {
    /// Nothing to do.
    Nothing,
    Quit,
    /// Stop the queue.
    Stop,
    /// Go to the previous item of the queue.
    Previous,
    /// Seek to this position in milliseconds.
    SeekTo(u32),
    /// Seek by this many milliseconds from the current position.
    SeekBy(i32),
    /// Go to the next item of the queue, by hand.
    Next,
    Clear,
    UpdateLibrary,
    TogglePlayback,
    SetShuffle(bool),
    SetRepeat(RepeatSetting),
    SetVolume(u16),
    ShowHelp,
    ReloadConfig,
    /// Create a playlist with this name.
    CreatePlaylist(String),
    /// The command is not one of the default commands.
    Unknown,
}

pub enum DefaultActionView {
    Nothing,
    Quit,
    Stop,
    Previous,
    SeekTo(u32),
    SeekBy(i32),
    Next,
    Clear,
    UpdateLibrary,
    TogglePlayback,
    SetShuffle(bool),
    SetRepeat(RepeatSetting),
    SetVolume(u16),
    ShowHelp,
    ReloadConfig,
    CreatePlaylist(Seq<char>),
    Unknown,
}

impl DefaultAction {
    pub open spec fn view(&self) -> DefaultActionView {
        match self {
            DefaultAction::Nothing => DefaultActionView::Nothing,
            DefaultAction::Quit => DefaultActionView::Quit,
            DefaultAction::Stop => DefaultActionView::Stop,
            DefaultAction::Previous => DefaultActionView::Previous,
            DefaultAction::SeekTo(p) => DefaultActionView::SeekTo(*p),
            DefaultAction::SeekBy(d) => DefaultActionView::SeekBy(*d),
            DefaultAction::Next => DefaultActionView::Next,
            DefaultAction::Clear => DefaultActionView::Clear,
            DefaultAction::UpdateLibrary => DefaultActionView::UpdateLibrary,
            DefaultAction::TogglePlayback => DefaultActionView::TogglePlayback,
            DefaultAction::SetShuffle(b) => DefaultActionView::SetShuffle(*b),
            DefaultAction::SetRepeat(r) => DefaultActionView::SetRepeat(*r),
            DefaultAction::SetVolume(v) => DefaultActionView::SetVolume(*v),
            DefaultAction::ShowHelp => DefaultActionView::ShowHelp,
            DefaultAction::ReloadConfig => DefaultActionView::ReloadConfig,
            DefaultAction::CreatePlaylist(n) => DefaultActionView::CreatePlaylist(n@),
            DefaultAction::Unknown => DefaultActionView::Unknown,
        }
    }
}

/// The repeat setting that follows `r` when cycling: off, whole queue, one track.
pub open spec fn next_repeat(r: RepeatSetting) -> RepeatSetting {
    match r {
        RepeatSetting::Off => RepeatSetting::RepeatPlaylist,
        RepeatSetting::RepeatPlaylist => RepeatSetting::RepeatTrack,
        RepeatSetting::RepeatTrack => RepeatSetting::Off,
    }
}

pub open spec fn saturating_u16(v: int) -> u16 {
    if v > 0xffff {
        0xffff
    } else if v < 0 {
        0
    } else {
        v as u16
    }
}

/// What the default handling of `cmd` does, given the queue's shuffle and
/// repeat settings, the player's volume and how far into the current track
/// playback is.
pub open spec fn default_action_of(
    cmd: CommandView,
    shuffle: bool,
    repeat: RepeatSetting,
    volume: u16,
    progress_ms: u64,
) -> DefaultActionView {
    match cmd {
        CommandView::Noop => DefaultActionView::Nothing,
        CommandView::Quit => DefaultActionView::Quit,
        CommandView::Stop => DefaultActionView::Stop,
        CommandView::Previous => if progress_ms < 5000 {
            DefaultActionView::Previous
        } else {
            DefaultActionView::SeekTo(0)
        },
        CommandView::Next => DefaultActionView::Next,
        CommandView::Clear => DefaultActionView::Clear,
        CommandView::UpdateLibrary => DefaultActionView::UpdateLibrary,
        CommandView::TogglePlay => DefaultActionView::TogglePlayback,
        CommandView::Shuffle(m) => DefaultActionView::SetShuffle(
            match m {
                Some(b) => b,
                None => !shuffle,
            },
        ),
        CommandView::Repeat(m) => DefaultActionView::SetRepeat(
            match m {
                Some(r) => r,
                None => next_repeat(repeat),
            },
        ),
        CommandView::Seek(SeekDirection::Relative(d)) => DefaultActionView::SeekBy(d),
        CommandView::Seek(SeekDirection::Absolute(p)) => DefaultActionView::SeekTo(p),
        CommandView::VolumeUp(a) => DefaultActionView::SetVolume(
            saturating_u16(volume + VOLUME_PERCENT * a),
        ),
        CommandView::VolumeDown(a) => DefaultActionView::SetVolume(
            saturating_u16(volume - VOLUME_PERCENT * a),
        ),
        CommandView::Help => DefaultActionView::ShowHelp,
        CommandView::ReloadConfig => DefaultActionView::ReloadConfig,
        CommandView::NewPlaylist(n) => DefaultActionView::CreatePlaylist(n),
        CommandView::Search(_) | CommandView::Jump(_) | CommandView::Move(_, _) | CommandView::Shift(
            _,
            _,
        ) | CommandView::Play | CommandView::PlayNext | CommandView::Queue | CommandView::Save
        | CommandView::Delete | CommandView::Back | CommandView::Open(_) | CommandView::Insert(_)
        | CommandView::Goto(_) => DefaultActionView::Nothing,
        _ => DefaultActionView::Unknown,
    }
}

/// The default handling of `cmd` can run without failing: a volume change
/// of `VOLUME_PERCENT` per step must fit in 16 bits.
pub open spec fn default_action_defined(cmd: CommandView) -> bool {
    match cmd {
        CommandView::VolumeUp(a) => VOLUME_PERCENT * a <= 0xffff,
        CommandView::VolumeDown(a) => VOLUME_PERCENT * a <= 0xffff,
        _ => true,
    }
}

/// What the default handling of a command amounts to.
pub fn handle_default_command(
    cmd: &Command,
    shuffle: bool,
    repeat: RepeatSetting,
    volume: u16,
    progress_ms: u64,
) -> (r: DefaultAction)
    requires
        default_action_defined(cmd.view()),
    ensures
        r.view() == default_action_of(cmd.view(), shuffle, repeat, volume, progress_ms),
{
    match cmd {
        Command::Noop => DefaultAction::Nothing,
        Command::Quit => DefaultAction::Quit,
        Command::Stop => DefaultAction::Stop,
        Command::Previous => {
            if progress_ms < 5000 {
                DefaultAction::Previous
            } else {
                DefaultAction::SeekTo(0)
            }
        },
        Command::Next => DefaultAction::Next,
        Command::Clear => DefaultAction::Clear,
        Command::UpdateLibrary => DefaultAction::UpdateLibrary,
        Command::TogglePlay => DefaultAction::TogglePlayback,
        Command::Shuffle(m) => DefaultAction::SetShuffle(
            match m {
                Some(b) => *b,
                None => !shuffle,
            },
        ),
        Command::Repeat(m) => DefaultAction::SetRepeat(
            match m {
                Some(r) => *r,
                None => match repeat {
                    RepeatSetting::Off => RepeatSetting::RepeatPlaylist,
                    RepeatSetting::RepeatPlaylist => RepeatSetting::RepeatTrack,
                    RepeatSetting::RepeatTrack => RepeatSetting::Off,
                },
            },
        ),
        Command::Seek(SeekDirection::Relative(d)) => DefaultAction::SeekBy(*d),
        Command::Seek(SeekDirection::Absolute(p)) => DefaultAction::SeekTo(*p),
        Command::VolumeUp(a) => DefaultAction::SetVolume(volume.saturating_add(VOLUME_PERCENT * *a)),
        Command::VolumeDown(a) => DefaultAction::SetVolume(volume.saturating_sub(VOLUME_PERCENT * *a)),
        Command::Help => DefaultAction::ShowHelp,
        Command::ReloadConfig => DefaultAction::ReloadConfig,
        Command::NewPlaylist(n) => DefaultAction::CreatePlaylist(n.clone()),
        Command::Search(_) | Command::Jump(_) | Command::Move(_, _) | Command::Shift(_, _)
        | Command::Play | Command::PlayNext | Command::Queue | Command::Save | Command::Delete
        | Command::Back | Command::Open(_) | Command::Insert(_) | Command::Goto(_) => DefaultAction::Nothing,
        _ => DefaultAction::Unknown,
    }
}

/// The position that seeking by `delta` milliseconds from `progress_ms`
/// lands on: never before the start.
pub fn seek_relative_target(progress_ms: u32, delta: i32) -> (r: u32)
    requires
        progress_ms <= 0x7fff_ffff,
        i32::MIN <= progress_ms + delta <= i32::MAX,
    ensures
        r == (if progress_ms + delta < 0 { 0 } else { progress_ms + delta }),
{
    let new: i32 = progress_ms as i32 + delta;
    if new < 0 {
        0
    } else {
        new as u32
    }
}

/// What toggling playback does for a player in state `status`: pause when
/// playing, play when paused, nothing otherwise.
#[derive(Clone, Copy, Debug, PartialEq, Eq, Structural)]
pub enum ToggleAction {
    Pause,
    Play,
    Nothing,
}

pub fn toggle_action(status: crate::queue::PlayerStatus) -> (r: ToggleAction)
    ensures
        r == match status {
            crate::queue::PlayerStatus::Playing => ToggleAction::Pause,
            crate::queue::PlayerStatus::Paused => ToggleAction::Play,
            _ => ToggleAction::Nothing,
        },
{
    match status {
        crate::queue::PlayerStatus::Playing => ToggleAction::Pause,
        crate::queue::PlayerStatus::Paused => ToggleAction::Play,
        _ => ToggleAction::Nothing,
    }
}


/// The characters of the default bindings' key names.
proof fn lemma_default_key_texts()
    ensures
        "+"@ == seq!['+'],
        "-"@ == seq!['-'],
        "."@ == seq!['.'],
        "<"@ == seq!['<'],
        ">"@ == seq!['>'],
        "?"@ == seq!['?'],
        "A"@ == seq!['A'],
        "Alt"@ == seq!['A', 'l', 't'],
        "Backspace"@ == seq!['B', 'a', 'c', 'k', 's', 'p', 'a', 'c', 'e'],
        "Ctrl"@ == seq!['C', 't', 'r', 'l'],
        "Ctrl+a"@ == seq!['C', 't', 'r', 'l', '+', 'a'],
        "Ctrl+e"@ == seq!['C', 't', 'r', 'l', '+', 'e'],
        "Ctrl+n"@ == seq!['C', 't', 'r', 'l', '+', 'n'],
        "Ctrl+p"@ == seq!['C', 't', 'r', 'l', '+', 'p'],
        "Ctrl+s"@ == seq!['C', 't', 'r', 'l', '+', 's'],
        "Ctrl+v"@ == seq!['C', 't', 'r', 'l', '+', 'v'],
        "Down"@ == seq!['D', 'o', 'w', 'n'],
        "End"@ == seq!['E', 'n', 'd'],
        "Enter"@ == seq!['E', 'n', 't', 'e', 'r'],
        "F1"@ == seq!['F', '1'],
        "F2"@ == seq!['F', '2'],
        "F3"@ == seq!['F', '3'],
        "Home"@ == seq!['H', 'o', 'm', 'e'],
        "Left"@ == seq!['L', 'e', 'f', 't'],
        "PageDown"@ == seq!['P', 'a', 'g', 'e', 'D', 'o', 'w', 'n'],
        "PageUp"@ == seq!['P', 'a', 'g', 'e', 'U', 'p'],
        "Right"@ == seq!['R', 'i', 'g', 'h', 't'],
        "Shift"@ == seq!['S', 'h', 'i', 'f', 't'],
        "Shift+Down"@ == seq!['S', 'h', 'i', 'f', 't', '+', 'D', 'o', 'w', 'n'],
        "Shift+Up"@ == seq!['S', 'h', 'i', 'f', 't', '+', 'U', 'p'],
        "Shift+b"@ == seq!['S', 'h', 'i', 'f', 't', '+', 'b'],
        "Shift+f"@ == seq!['S', 'h', 'i', 'f', 't', '+', 'f'],
        "Shift+n"@ == seq!['S', 'h', 'i', 'f', 't', '+', 'n'],
        "Shift+o"@ == seq!['S', 'h', 'i', 'f', 't', '+', 'o'],
        "Shift+p"@ == seq!['S', 'h', 'i', 'f', 't', '+', 'p'],
        "Shift+s"@ == seq!['S', 'h', 'i', 'f', 't', '+', 's'],
        "Shift+u"@ == seq!['S', 'h', 'i', 'f', 't', '+', 'u'],
        "Shift+x"@ == seq!['S', 'h', 'i', 'f', 't', '+', 'x'],
        "Space"@ == seq!['S', 'p', 'a', 'c', 'e'],
        "Up"@ == seq!['U', 'p'],
        "["@ == seq!['['],
        "]"@ == seq![']'],
        "a"@ == seq!['a'],
        "b"@ == seq!['b'],
        "c"@ == seq!['c'],
        "d"@ == seq!['d'],
        "e"@ == seq!['e'],
        "f"@ == seq!['f'],
        "h"@ == seq!['h'],
        "j"@ == seq!['j'],
        "k"@ == seq!['k'],
        "l"@ == seq!['l'],
        "n"@ == seq!['n'],
        "o"@ == seq!['o'],
        "p"@ == seq!['p'],
        "q"@ == seq!['q'],
        "r"@ == seq!['r'],
        "s"@ == seq!['s'],
        "u"@ == seq!['u'],
        "v"@ == seq!['v'],
        "x"@ == seq!['x'],
        "z"@ == seq!['z'],
{
    reveal_strlit("+");
    reveal_strlit("-");
    reveal_strlit(".");
    reveal_strlit("<");
    reveal_strlit(">");
    reveal_strlit("?");
    reveal_strlit("A");
    reveal_strlit("Alt");
    reveal_strlit("Backspace");
    reveal_strlit("Ctrl");
    reveal_strlit("Ctrl+a");
    reveal_strlit("Ctrl+e");
    reveal_strlit("Ctrl+n");
    reveal_strlit("Ctrl+p");
    reveal_strlit("Ctrl+s");
    reveal_strlit("Ctrl+v");
    reveal_strlit("Down");
    reveal_strlit("End");
    reveal_strlit("Enter");
    reveal_strlit("F1");
    reveal_strlit("F2");
    reveal_strlit("F3");
    reveal_strlit("Home");
    reveal_strlit("Left");
    reveal_strlit("PageDown");
    reveal_strlit("PageUp");
    reveal_strlit("Right");
    reveal_strlit("Shift");
    reveal_strlit("Shift+Down");
    reveal_strlit("Shift+Up");
    reveal_strlit("Shift+b");
    reveal_strlit("Shift+f");
    reveal_strlit("Shift+n");
    reveal_strlit("Shift+o");
    reveal_strlit("Shift+p");
    reveal_strlit("Shift+s");
    reveal_strlit("Shift+u");
    reveal_strlit("Shift+x");
    reveal_strlit("Space");
    reveal_strlit("Up");
    reveal_strlit("[");
    reveal_strlit("]");
    reveal_strlit("a");
    reveal_strlit("b");
    reveal_strlit("c");
    reveal_strlit("d");
    reveal_strlit("e");
    reveal_strlit("f");
    reveal_strlit("h");
    reveal_strlit("j");
    reveal_strlit("k");
    reveal_strlit("l");
    reveal_strlit("n");
    reveal_strlit("o");
    reveal_strlit("p");
    reveal_strlit("q");
    reveal_strlit("r");
    reveal_strlit("s");
    reveal_strlit("u");
    reveal_strlit("v");
    reveal_strlit("x");
    reveal_strlit("z");
}

/// A binding without `+` is a key alone; `modifier+key`, with no other `+`,
/// is a modifier and a key.
proof fn lemma_binding_parts(m: Seq<char>, k: Seq<char>)
    requires
        !m.contains('+'),
        !k.contains('+'),
    ensures
        split_on(k, '+') == seq![k],
        split_on(m + seq!['+'] + k, '+') == seq![m, k],
{
    lemma_split_two(m, k, '+');
}

proof fn lemma_key_event_kind(s: Seq<char>)
    ensures
        key_event(s) is Key || key_event(s) is Char,
{
}

/// The binding `kb` reads as an event.
pub open spec fn binding_reads(kb: Seq<char>) -> bool {
    keybinding_defined(kb) && keybinding_event(kb) is Some
}

proof fn lemma_default_key_0()
    ensures
        binding_reads("q"@),
{
    lemma_default_key_texts();
    assert(!"q"@.contains('+'));
    lemma_binding_parts(Seq::empty(), "q"@);
}

proof fn lemma_default_key_1()
    ensures
        binding_reads("Shift+p"@),
{
    lemma_default_key_texts();
    assert(!"Shift"@.contains('+'));
    assert(!"p"@.contains('+'));
    lemma_binding_parts("Shift"@, "p"@);
    assert("Shift+p"@ =~= "Shift"@ + seq!['+'] + "p"@);
    assert("Shift+p"@ != "+"@);
    lemma_key_event_kind("p"@);
}

proof fn lemma_default_key_2()
    ensures
        binding_reads("Shift+u"@),
{
    lemma_default_key_texts();
    assert(!"Shift"@.contains('+'));
    assert(!"u"@.contains('+'));
    lemma_binding_parts("Shift"@, "u"@);
    assert("Shift+u"@ =~= "Shift"@ + seq!['+'] + "u"@);
    assert("Shift+u"@ != "+"@);
    lemma_key_event_kind("u"@);
}

proof fn lemma_default_key_3()
    ensures
        binding_reads("Shift+s"@),
{
    lemma_default_key_texts();
    assert(!"Shift"@.contains('+'));
    assert(!"s"@.contains('+'));
    lemma_binding_parts("Shift"@, "s"@);
    assert("Shift+s"@ =~= "Shift"@ + seq!['+'] + "s"@);
    assert("Shift+s"@ != "+"@);
    lemma_key_event_kind("s"@);
}

proof fn lemma_default_key_4()
    ensures
        binding_reads("<"@),
{
    lemma_default_key_texts();
    assert(!"<"@.contains('+'));
    lemma_binding_parts(Seq::empty(), "<"@);
}

proof fn lemma_default_key_5()
    ensures
        binding_reads(">"@),
{
    lemma_default_key_texts();
    assert(!">"@.contains('+'));
    lemma_binding_parts(Seq::empty(), ">"@);
}

proof fn lemma_default_key_6()
    ensures
        binding_reads("c"@),
{
    lemma_default_key_texts();
    assert(!"c"@.contains('+'));
    lemma_binding_parts(Seq::empty(), "c"@);
}

proof fn lemma_default_key_7()
    ensures
        binding_reads("Space"@),
{
    lemma_default_key_texts();
    assert(!"Space"@.contains('+'));
    lemma_binding_parts(Seq::empty(), "Space"@);
}

proof fn lemma_default_key_8()
    ensures
        binding_reads("."@),
{
    lemma_default_key_texts();
    assert(!"."@.contains('+'));
    lemma_binding_parts(Seq::empty(), "."@);
}

proof fn lemma_default_key_9()
    ensures
        binding_reads("Enter"@),
{
    lemma_default_key_texts();
    assert(!"Enter"@.contains('+'));
    lemma_binding_parts(Seq::empty(), "Enter"@);
}

proof fn lemma_default_key_10()
    ensures
        binding_reads("n"@),
{
    lemma_default_key_texts();
    assert(!"n"@.contains('+'));
    lemma_binding_parts(Seq::empty(), "n"@);
}

proof fn lemma_default_key_11()
    ensures
        binding_reads("Shift+n"@),
{
    lemma_default_key_texts();
    assert(!"Shift"@.contains('+'));
    assert(!"n"@.contains('+'));
    lemma_binding_parts("Shift"@, "n"@);
    assert("Shift+n"@ =~= "Shift"@ + seq!['+'] + "n"@);
    assert("Shift+n"@ != "+"@);
    lemma_key_event_kind("n"@);
}

proof fn lemma_default_key_12()
    ensures
        binding_reads("s"@),
{
    lemma_default_key_texts();
    assert(!"s"@.contains('+'));
    lemma_binding_parts(Seq::empty(), "s"@);
}

proof fn lemma_default_key_13()
    ensures
        binding_reads("Ctrl+s"@),
{
    lemma_default_key_texts();
    assert(!"Ctrl"@.contains('+'));
    assert(!"s"@.contains('+'));
    lemma_binding_parts("Ctrl"@, "s"@);
    assert("Ctrl+s"@ =~= "Ctrl"@ + seq!['+'] + "s"@);
    assert("Ctrl+s"@ != "+"@);
    lemma_key_event_kind("s"@);
}

proof fn lemma_default_key_14()
    ensures
        binding_reads("d"@),
{
    lemma_default_key_texts();
    assert(!"d"@.contains('+'));
    lemma_binding_parts(Seq::empty(), "d"@);
}

proof fn lemma_default_key_15()
    ensures
        binding_reads("f"@),
{
    lemma_default_key_texts();
    assert(!"f"@.contains('+'));
    lemma_binding_parts(Seq::empty(), "f"@);
}

proof fn lemma_default_key_16()
    ensures
        binding_reads("b"@),
{
    lemma_default_key_texts();
    assert(!"b"@.contains('+'));
    lemma_binding_parts(Seq::empty(), "b"@);
}

proof fn lemma_default_key_17()
    ensures
        binding_reads("Shift+f"@),
{
    lemma_default_key_texts();
    assert(!"Shift"@.contains('+'));
    assert(!"f"@.contains('+'));
    lemma_binding_parts("Shift"@, "f"@);
    assert("Shift+f"@ =~= "Shift"@ + seq!['+'] + "f"@);
    assert("Shift+f"@ != "+"@);
    lemma_key_event_kind("f"@);
}

proof fn lemma_default_key_18()
    ensures
        binding_reads("Shift+b"@),
{
    lemma_default_key_texts();
    assert(!"Shift"@.contains('+'));
    assert(!"b"@.contains('+'));
    lemma_binding_parts("Shift"@, "b"@);
    assert("Shift+b"@ =~= "Shift"@ + seq!['+'] + "b"@);
    assert("Shift+b"@ != "+"@);
    lemma_key_event_kind("b"@);
}

proof fn lemma_default_key_19()
    ensures
        binding_reads("+"@),
{
    lemma_default_key_texts();


}

proof fn lemma_default_key_20()
    ensures
        binding_reads("]"@),
{
    lemma_default_key_texts();
    assert(!"]"@.contains('+'));
    lemma_binding_parts(Seq::empty(), "]"@);
}

proof fn lemma_default_key_21()
    ensures
        binding_reads("-"@),
{
    lemma_default_key_texts();
    assert(!"-"@.contains('+'));
    lemma_binding_parts(Seq::empty(), "-"@);
}

proof fn lemma_default_key_22()
    ensures
        binding_reads("["@),
{
    lemma_default_key_texts();
    assert(!"["@.contains('+'));
    lemma_binding_parts(Seq::empty(), "["@);
}

proof fn lemma_default_key_23()
    ensures
        binding_reads("r"@),
{
    lemma_default_key_texts();
    assert(!"r"@.contains('+'));
    lemma_binding_parts(Seq::empty(), "r"@);
}

proof fn lemma_default_key_24()
    ensures
        binding_reads("z"@),
{
    lemma_default_key_texts();
    assert(!"z"@.contains('+'));
    lemma_binding_parts(Seq::empty(), "z"@);
}

proof fn lemma_default_key_25()
    ensures
        binding_reads("x"@),
{
    lemma_default_key_texts();
    assert(!"x"@.contains('+'));
    lemma_binding_parts(Seq::empty(), "x"@);
}

proof fn lemma_default_key_26()
    ensures
        binding_reads("Shift+x"@),
{
    lemma_default_key_texts();
    assert(!"Shift"@.contains('+'));
    assert(!"x"@.contains('+'));
    lemma_binding_parts("Shift"@, "x"@);
    assert("Shift+x"@ =~= "Shift"@ + seq!['+'] + "x"@);
    assert("Shift+x"@ != "+"@);
    lemma_key_event_kind("x"@);
}

proof fn lemma_default_key_27()
    ensures
        binding_reads("F1"@),
{
    lemma_default_key_texts();
    assert(!"F1"@.contains('+'));
    lemma_binding_parts(Seq::empty(), "F1"@);
}

proof fn lemma_default_key_28()
    ensures
        binding_reads("F2"@),
{
    lemma_default_key_texts();
    assert(!"F2"@.contains('+'));
    lemma_binding_parts(Seq::empty(), "F2"@);
}

proof fn lemma_default_key_29()
    ensures
        binding_reads("F3"@),
{
    lemma_default_key_texts();
    assert(!"F3"@.contains('+'));
    lemma_binding_parts(Seq::empty(), "F3"@);
}

proof fn lemma_default_key_30()
    ensures
        binding_reads("?"@),
{
    lemma_default_key_texts();
    assert(!"?"@.contains('+'));
    lemma_binding_parts(Seq::empty(), "?"@);
}

proof fn lemma_default_key_31()
    ensures
        binding_reads("Backspace"@),
{
    lemma_default_key_texts();
    assert(!"Backspace"@.contains('+'));
    lemma_binding_parts(Seq::empty(), "Backspace"@);
}

proof fn lemma_default_key_32()
    ensures
        binding_reads("o"@),
{
    lemma_default_key_texts();
    assert(!"o"@.contains('+'));
    lemma_binding_parts(Seq::empty(), "o"@);
}

proof fn lemma_default_key_33()
    ensures
        binding_reads("Shift+o"@),
{
    lemma_default_key_texts();
    assert(!"Shift"@.contains('+'));
    assert(!"o"@.contains('+'));
    lemma_binding_parts("Shift"@, "o"@);
    assert("Shift+o"@ =~= "Shift"@ + seq!['+'] + "o"@);
    assert("Shift+o"@ != "+"@);
    lemma_key_event_kind("o"@);
}

proof fn lemma_default_key_34()
    ensures
        binding_reads("a"@),
{
    lemma_default_key_texts();
    assert(!"a"@.contains('+'));
    lemma_binding_parts(Seq::empty(), "a"@);
}

proof fn lemma_default_key_35()
    ensures
        binding_reads("A"@),
{
    lemma_default_key_texts();
    assert(!"A"@.contains('+'));
    lemma_binding_parts(Seq::empty(), "A"@);
}

proof fn lemma_default_key_36()
    ensures
        binding_reads("Up"@),
{
    lemma_default_key_texts();
    assert(!"Up"@.contains('+'));
    lemma_binding_parts(Seq::empty(), "Up"@);
}

proof fn lemma_default_key_37()
    ensures
        binding_reads("p"@),
{
    lemma_default_key_texts();
    assert(!"p"@.contains('+'));
    lemma_binding_parts(Seq::empty(), "p"@);
}

proof fn lemma_default_key_38()
    ensures
        binding_reads("Down"@),
{
    lemma_default_key_texts();
    assert(!"Down"@.contains('+'));
    lemma_binding_parts(Seq::empty(), "Down"@);
}

proof fn lemma_default_key_39()
    ensures
        binding_reads("Left"@),
{
    lemma_default_key_texts();
    assert(!"Left"@.contains('+'));
    lemma_binding_parts(Seq::empty(), "Left"@);
}

proof fn lemma_default_key_40()
    ensures
        binding_reads("Right"@),
{
    lemma_default_key_texts();
    assert(!"Right"@.contains('+'));
    lemma_binding_parts(Seq::empty(), "Right"@);
}

proof fn lemma_default_key_41()
    ensures
        binding_reads("PageUp"@),
{
    lemma_default_key_texts();
    assert(!"PageUp"@.contains('+'));
    lemma_binding_parts(Seq::empty(), "PageUp"@);
}

proof fn lemma_default_key_42()
    ensures
        binding_reads("PageDown"@),
{
    lemma_default_key_texts();
    assert(!"PageDown"@.contains('+'));
    lemma_binding_parts(Seq::empty(), "PageDown"@);
}

proof fn lemma_default_key_43()
    ensures
        binding_reads("Home"@),
{
    lemma_default_key_texts();
    assert(!"Home"@.contains('+'));
    lemma_binding_parts(Seq::empty(), "Home"@);
}

proof fn lemma_default_key_44()
    ensures
        binding_reads("End"@),
{
    lemma_default_key_texts();
    assert(!"End"@.contains('+'));
    lemma_binding_parts(Seq::empty(), "End"@);
}

proof fn lemma_default_key_45()
    ensures
        binding_reads("k"@),
{
    lemma_default_key_texts();
    assert(!"k"@.contains('+'));
    lemma_binding_parts(Seq::empty(), "k"@);
}

proof fn lemma_default_key_46()
    ensures
        binding_reads("j"@),
{
    lemma_default_key_texts();
    assert(!"j"@.contains('+'));
    lemma_binding_parts(Seq::empty(), "j"@);
}

proof fn lemma_default_key_47()
    ensures
        binding_reads("h"@),
{
    lemma_default_key_texts();
    assert(!"h"@.contains('+'));
    lemma_binding_parts(Seq::empty(), "h"@);
}

proof fn lemma_default_key_48()
    ensures
        binding_reads("l"@),
{
    lemma_default_key_texts();
    assert(!"l"@.contains('+'));
    lemma_binding_parts(Seq::empty(), "l"@);
}

proof fn lemma_default_key_49()
    ensures
        binding_reads("Ctrl+p"@),
{
    lemma_default_key_texts();
    assert(!"Ctrl"@.contains('+'));
    assert(!"p"@.contains('+'));
    lemma_binding_parts("Ctrl"@, "p"@);
    assert("Ctrl+p"@ =~= "Ctrl"@ + seq!['+'] + "p"@);
    assert("Ctrl+p"@ != "+"@);
    lemma_key_event_kind("p"@);
}

proof fn lemma_default_key_50()
    ensures
        binding_reads("Ctrl+n"@),
{
    lemma_default_key_texts();
    assert(!"Ctrl"@.contains('+'));
    assert(!"n"@.contains('+'));
    lemma_binding_parts("Ctrl"@, "n"@);
    assert("Ctrl+n"@ =~= "Ctrl"@ + seq!['+'] + "n"@);
    assert("Ctrl+n"@ != "+"@);
    lemma_key_event_kind("n"@);
}

proof fn lemma_default_key_51()
    ensures
        binding_reads("Ctrl+a"@),
{
    lemma_default_key_texts();
    assert(!"Ctrl"@.contains('+'));
    assert(!"a"@.contains('+'));
    lemma_binding_parts("Ctrl"@, "a"@);
    assert("Ctrl+a"@ =~= "Ctrl"@ + seq!['+'] + "a"@);
    assert("Ctrl+a"@ != "+"@);
    lemma_key_event_kind("a"@);
}

proof fn lemma_default_key_52()
    ensures
        binding_reads("Ctrl+e"@),
{
    lemma_default_key_texts();
    assert(!"Ctrl"@.contains('+'));
    assert(!"e"@.contains('+'));
    lemma_binding_parts("Ctrl"@, "e"@);
    assert("Ctrl+e"@ =~= "Ctrl"@ + seq!['+'] + "e"@);
    assert("Ctrl+e"@ != "+"@);
    lemma_key_event_kind("e"@);
}

proof fn lemma_default_key_53()
    ensures
        binding_reads("Shift+Up"@),
{
    lemma_default_key_texts();
    assert(!"Shift"@.contains('+'));
    assert(!"Up"@.contains('+'));
    lemma_binding_parts("Shift"@, "Up"@);
    assert("Shift+Up"@ =~= "Shift"@ + seq!['+'] + "Up"@);
    assert("Shift+Up"@ != "+"@);
    lemma_key_event_kind("Up"@);
}

proof fn lemma_default_key_54()
    ensures
        binding_reads("Shift+Down"@),
{
    lemma_default_key_texts();
    assert(!"Shift"@.contains('+'));
    assert(!"Down"@.contains('+'));
    lemma_binding_parts("Shift"@, "Down"@);
    assert("Shift+Down"@ =~= "Shift"@ + seq!['+'] + "Down"@);
    assert("Shift+Down"@ != "+"@);
    lemma_key_event_kind("Down"@);
}

proof fn lemma_default_key_55()
    ensures
        binding_reads("Ctrl+v"@),
{
    lemma_default_key_texts();
    assert(!"Ctrl"@.contains('+'));
    assert(!"v"@.contains('+'));
    lemma_binding_parts("Ctrl"@, "v"@);
    assert("Ctrl+v"@ =~= "Ctrl"@ + seq!['+'] + "v"@);
    assert("Ctrl+v"@ != "+"@);
    lemma_key_event_kind("v"@);
}

/// Every key of the default bindings reads as an event.
pub proof fn lemma_default_keys_read(k: Seq<char>)
    requires
        default_binding_map().dom().contains(k),
    ensures
        binding_reads(k),
{
    if k == "q"@ {
        lemma_default_key_0();
    } else if k == "Shift+p"@ {
        lemma_default_key_1();
    } else if k == "Shift+u"@ {
        lemma_default_key_2();
    } else if k == "Shift+s"@ {
        lemma_default_key_3();
    } else if k == "<"@ {
        lemma_default_key_4();
    } else if k == ">"@ {
        lemma_default_key_5();
    } else if k == "c"@ {
        lemma_default_key_6();
    } else if k == "Space"@ {
        lemma_default_key_7();
    } else if k == "."@ {
        lemma_default_key_8();
    } else if k == "Enter"@ {
        lemma_default_key_9();
    } else if k == "n"@ {
        lemma_default_key_10();
    } else if k == "Shift+n"@ {
        lemma_default_key_11();
    } else if k == "s"@ {
        lemma_default_key_12();
    } else if k == "Ctrl+s"@ {
        lemma_default_key_13();
    } else if k == "d"@ {
        lemma_default_key_14();
    } else if k == "f"@ {
        lemma_default_key_15();
    } else if k == "b"@ {
        lemma_default_key_16();
    } else if k == "Shift+f"@ {
        lemma_default_key_17();
    } else if k == "Shift+b"@ {
        lemma_default_key_18();
    } else if k == "+"@ {
        lemma_default_key_19();
    } else if k == "]"@ {
        lemma_default_key_20();
    } else if k == "-"@ {
        lemma_default_key_21();
    } else if k == "["@ {
        lemma_default_key_22();
    } else if k == "r"@ {
        lemma_default_key_23();
    } else if k == "z"@ {
        lemma_default_key_24();
    } else if k == "x"@ {
        lemma_default_key_25();
    } else if k == "Shift+x"@ {
        lemma_default_key_26();
    } else if k == "F1"@ {
        lemma_default_key_27();
    } else if k == "F2"@ {
        lemma_default_key_28();
    } else if k == "F3"@ {
        lemma_default_key_29();
    } else if k == "?"@ {
        lemma_default_key_30();
    } else if k == "Backspace"@ {
        lemma_default_key_31();
    } else if k == "o"@ {
        lemma_default_key_32();
    } else if k == "Shift+o"@ {
        lemma_default_key_33();
    } else if k == "a"@ {
        lemma_default_key_34();
    } else if k == "A"@ {
        lemma_default_key_35();
    } else if k == "Up"@ {
        lemma_default_key_36();
    } else if k == "p"@ {
        lemma_default_key_37();
    } else if k == "Down"@ {
        lemma_default_key_38();
    } else if k == "Left"@ {
        lemma_default_key_39();
    } else if k == "Right"@ {
        lemma_default_key_40();
    } else if k == "PageUp"@ {
        lemma_default_key_41();
    } else if k == "PageDown"@ {
        lemma_default_key_42();
    } else if k == "Home"@ {
        lemma_default_key_43();
    } else if k == "End"@ {
        lemma_default_key_44();
    } else if k == "k"@ {
        lemma_default_key_45();
    } else if k == "j"@ {
        lemma_default_key_46();
    } else if k == "h"@ {
        lemma_default_key_47();
    } else if k == "l"@ {
        lemma_default_key_48();
    } else if k == "Ctrl+p"@ {
        lemma_default_key_49();
    } else if k == "Ctrl+n"@ {
        lemma_default_key_50();
    } else if k == "Ctrl+a"@ {
        lemma_default_key_51();
    } else if k == "Ctrl+e"@ {
        lemma_default_key_52();
    } else if k == "Shift+Up"@ {
        lemma_default_key_53();
    } else if k == "Shift+Down"@ {
        lemma_default_key_54();
    } else if k == "Ctrl+v"@ {
        lemma_default_key_55();
    }
}


/// The name a key is written with in a binding.
pub open spec fn key_name(k: Key) -> Seq<char> {
    match k {
        Key::Enter => "Enter"@,
        Key::Tab => "Tab"@,
        Key::Backspace => "Backspace"@,
        Key::Esc => "Esc"@,
        Key::Left => "Left"@,
        Key::Right => "Right"@,
        Key::Up => "Up"@,
        Key::Down => "Down"@,
        Key::Ins => "Ins"@,
        Key::Del => "Del"@,
        Key::Home => "Home"@,
        Key::End => "End"@,
        Key::PageUp => "PageUp"@,
        Key::PageDown => "PageDown"@,
        Key::PauseBreak => "PauseBreak"@,
        Key::NumpadCenter => "NumpadCenter"@,
        Key::F0 => "F0"@,
        Key::F1 => "F1"@,
        Key::F2 => "F2"@,
        Key::F3 => "F3"@,
        Key::F4 => "F4"@,
        Key::F5 => "F5"@,
        Key::F6 => "F6"@,
        Key::F7 => "F7"@,
        Key::F8 => "F8"@,
        Key::F9 => "F9"@,
        Key::F10 => "F10"@,
        Key::F11 => "F11"@,
        Key::F12 => "F12"@,
    }
}

/// The characters of the key names.
proof fn lemma_key_name_texts()
    ensures
        "Backspace"@ == seq!['B', 'a', 'c', 'k', 's', 'p', 'a', 'c', 'e'],
        "Del"@ == seq!['D', 'e', 'l'],
        "Down"@ == seq!['D', 'o', 'w', 'n'],
        "End"@ == seq!['E', 'n', 'd'],
        "Enter"@ == seq!['E', 'n', 't', 'e', 'r'],
        "Esc"@ == seq!['E', 's', 'c'],
        "F0"@ == seq!['F', '0'],
        "F1"@ == seq!['F', '1'],
        "F10"@ == seq!['F', '1', '0'],
        "F11"@ == seq!['F', '1', '1'],
        "F12"@ == seq!['F', '1', '2'],
        "F2"@ == seq!['F', '2'],
        "F3"@ == seq!['F', '3'],
        "F4"@ == seq!['F', '4'],
        "F5"@ == seq!['F', '5'],
        "F6"@ == seq!['F', '6'],
        "F7"@ == seq!['F', '7'],
        "F8"@ == seq!['F', '8'],
        "F9"@ == seq!['F', '9'],
        "Home"@ == seq!['H', 'o', 'm', 'e'],
        "Ins"@ == seq!['I', 'n', 's'],
        "Left"@ == seq!['L', 'e', 'f', 't'],
        "NumpadCenter"@ == seq!['N', 'u', 'm', 'p', 'a', 'd', 'C', 'e', 'n', 't', 'e', 'r'],
        "PageDown"@ == seq!['P', 'a', 'g', 'e', 'D', 'o', 'w', 'n'],
        "PageUp"@ == seq!['P', 'a', 'g', 'e', 'U', 'p'],
        "PauseBreak"@ == seq!['P', 'a', 'u', 's', 'e', 'B', 'r', 'e', 'a', 'k'],
        "Right"@ == seq!['R', 'i', 'g', 'h', 't'],
        "Shift"@ == seq!['S', 'h', 'i', 'f', 't'],
        "Space"@ == seq!['S', 'p', 'a', 'c', 'e'],
        "Tab"@ == seq!['T', 'a', 'b'],
        "Up"@ == seq!['U', 'p'],
{
    reveal_strlit("Backspace");
    reveal_strlit("Del");
    reveal_strlit("Down");
    reveal_strlit("End");
    reveal_strlit("Enter");
    reveal_strlit("Esc");
    reveal_strlit("F0");
    reveal_strlit("F1");
    reveal_strlit("F10");
    reveal_strlit("F11");
    reveal_strlit("F12");
    reveal_strlit("F2");
    reveal_strlit("F3");
    reveal_strlit("F4");
    reveal_strlit("F5");
    reveal_strlit("F6");
    reveal_strlit("F7");
    reveal_strlit("F8");
    reveal_strlit("F9");
    reveal_strlit("Home");
    reveal_strlit("Ins");
    reveal_strlit("Left");
    reveal_strlit("NumpadCenter");
    reveal_strlit("PageDown");
    reveal_strlit("PageUp");
    reveal_strlit("PauseBreak");
    reveal_strlit("Right");
    reveal_strlit("Shift");
    reveal_strlit("Space");
    reveal_strlit("Tab");
    reveal_strlit("Up");
}

proof fn lemma_key_reads_back_enter()
    ensures
        key_event(key_name(Key::Enter)) == Event::Key(Key::Enter),
{
    lemma_key_name_texts();
    assert("Enter"@[0] != "Space"@[0]);
    assert("Enter"@[0] != "Right"@[0]);
}

proof fn lemma_key_reads_back_tab()
    ensures
        key_event(key_name(Key::Tab)) == Event::Key(Key::Tab),
{
    lemma_key_name_texts();
    assert("Tab"@[0] != "Esc"@[0]);
    assert("Tab"@[0] != "Ins"@[0]);
    assert("Tab"@[0] != "Del"@[0]);
    assert("Tab"@[0] != "End"@[0]);
    assert("Tab"@[0] != "F10"@[0]);
    assert("Tab"@[0] != "F11"@[0]);
    assert("Tab"@[0] != "F12"@[0]);
}

proof fn lemma_key_reads_back_backspace()
    ensures
        key_event(key_name(Key::Backspace)) == Event::Key(Key::Backspace),
{
    lemma_key_name_texts();

}

proof fn lemma_key_reads_back_esc()
    ensures
        key_event(key_name(Key::Esc)) == Event::Key(Key::Esc),
{
    lemma_key_name_texts();
    assert("Esc"@[0] != "Tab"@[0]);
    assert("Esc"@[0] != "Ins"@[0]);
    assert("Esc"@[0] != "Del"@[0]);
    assert("Esc"@[1] != "End"@[1]);
    assert("Esc"@[0] != "F10"@[0]);
    assert("Esc"@[0] != "F11"@[0]);
    assert("Esc"@[0] != "F12"@[0]);
}

proof fn lemma_key_reads_back_left()
    ensures
        key_event(key_name(Key::Left)) == Event::Key(Key::Left),
{
    lemma_key_name_texts();
    assert("Left"@[0] != "Down"@[0]);
    assert("Left"@[0] != "Home"@[0]);
}

proof fn lemma_key_reads_back_right()
    ensures
        key_event(key_name(Key::Right)) == Event::Key(Key::Right),
{
    lemma_key_name_texts();
    assert("Right"@[0] != "Space"@[0]);
    assert("Right"@[0] != "Enter"@[0]);
}

proof fn lemma_key_reads_back_up()
    ensures
        key_event(key_name(Key::Up)) == Event::Key(Key::Up),
{
    lemma_key_name_texts();
    assert("Up"@[0] != "F0"@[0]);
    assert("Up"@[0] != "F1"@[0]);
    assert("Up"@[0] != "F2"@[0]);
    assert("Up"@[0] != "F3"@[0]);
    assert("Up"@[0] != "F4"@[0]);
    assert("Up"@[0] != "F5"@[0]);
    assert("Up"@[0] != "F6"@[0]);
    assert("Up"@[0] != "F7"@[0]);
    assert("Up"@[0] != "F8"@[0]);
    assert("Up"@[0] != "F9"@[0]);
}

proof fn lemma_key_reads_back_down()
    ensures
        key_event(key_name(Key::Down)) == Event::Key(Key::Down),
{
    lemma_key_name_texts();
    assert("Down"@[0] != "Left"@[0]);
    assert("Down"@[0] != "Home"@[0]);
}

proof fn lemma_key_reads_back_ins()
    ensures
        key_event(key_name(Key::Ins)) == Event::Key(Key::Ins),
{
    lemma_key_name_texts();
    assert("Ins"@[0] != "Tab"@[0]);
    assert("Ins"@[0] != "Esc"@[0]);
    assert("Ins"@[0] != "Del"@[0]);
    assert("Ins"@[0] != "End"@[0]);
    assert("Ins"@[0] != "F10"@[0]);
    assert("Ins"@[0] != "F11"@[0]);
    assert("Ins"@[0] != "F12"@[0]);
}

proof fn lemma_key_reads_back_del()
    ensures
        key_event(key_name(Key::Del)) == Event::Key(Key::Del),
{
    lemma_key_name_texts();
    assert("Del"@[0] != "Tab"@[0]);
    assert("Del"@[0] != "Esc"@[0]);
    assert("Del"@[0] != "Ins"@[0]);
    assert("Del"@[0] != "End"@[0]);
    assert("Del"@[0] != "F10"@[0]);
    assert("Del"@[0] != "F11"@[0]);
    assert("Del"@[0] != "F12"@[0]);
}

proof fn lemma_key_reads_back_home()
    ensures
        key_event(key_name(Key::Home)) == Event::Key(Key::Home),
{
    lemma_key_name_texts();
    assert("Home"@[0] != "Left"@[0]);
    assert("Home"@[0] != "Down"@[0]);
}

proof fn lemma_key_reads_back_end()
    ensures
        key_event(key_name(Key::End)) == Event::Key(Key::End),
{
    lemma_key_name_texts();
    assert("End"@[0] != "Tab"@[0]);
    assert("End"@[1] != "Esc"@[1]);
    assert("End"@[0] != "Ins"@[0]);
    assert("End"@[0] != "Del"@[0]);
    assert("End"@[0] != "F10"@[0]);
    assert("End"@[0] != "F11"@[0]);
    assert("End"@[0] != "F12"@[0]);
}

proof fn lemma_key_reads_back_pageup()
    ensures
        key_event(key_name(Key::PageUp)) == Event::Key(Key::PageUp),
{
    lemma_key_name_texts();

}

proof fn lemma_key_reads_back_pagedown()
    ensures
        key_event(key_name(Key::PageDown)) == Event::Key(Key::PageDown),
{
    lemma_key_name_texts();

}

proof fn lemma_key_reads_back_pausebreak()
    ensures
        key_event(key_name(Key::PauseBreak)) == Event::Key(Key::PauseBreak),
{
    lemma_key_name_texts();

}

proof fn lemma_key_reads_back_numpadcenter()
    ensures
        key_event(key_name(Key::NumpadCenter)) == Event::Key(Key::NumpadCenter),
{
    lemma_key_name_texts();

}

proof fn lemma_key_reads_back_f0()
    ensures
        key_event(key_name(Key::F0)) == Event::Key(Key::F0),
{
    lemma_key_name_texts();
    assert("F0"@[0] != "Up"@[0]);
    assert("F0"@[1] != "F1"@[1]);
    assert("F0"@[1] != "F2"@[1]);
    assert("F0"@[1] != "F3"@[1]);
    assert("F0"@[1] != "F4"@[1]);
    assert("F0"@[1] != "F5"@[1]);
    assert("F0"@[1] != "F6"@[1]);
    assert("F0"@[1] != "F7"@[1]);
    assert("F0"@[1] != "F8"@[1]);
    assert("F0"@[1] != "F9"@[1]);
}

proof fn lemma_key_reads_back_f1()
    ensures
        key_event(key_name(Key::F1)) == Event::Key(Key::F1),
{
    lemma_key_name_texts();
    assert("F1"@[0] != "Up"@[0]);
    assert("F1"@[1] != "F0"@[1]);
    assert("F1"@[1] != "F2"@[1]);
    assert("F1"@[1] != "F3"@[1]);
    assert("F1"@[1] != "F4"@[1]);
    assert("F1"@[1] != "F5"@[1]);
    assert("F1"@[1] != "F6"@[1]);
    assert("F1"@[1] != "F7"@[1]);
    assert("F1"@[1] != "F8"@[1]);
    assert("F1"@[1] != "F9"@[1]);
}

proof fn lemma_key_reads_back_f2()
    ensures
        key_event(key_name(Key::F2)) == Event::Key(Key::F2),
{
    lemma_key_name_texts();
    assert("F2"@[0] != "Up"@[0]);
    assert("F2"@[1] != "F0"@[1]);
    assert("F2"@[1] != "F1"@[1]);
    assert("F2"@[1] != "F3"@[1]);
    assert("F2"@[1] != "F4"@[1]);
    assert("F2"@[1] != "F5"@[1]);
    assert("F2"@[1] != "F6"@[1]);
    assert("F2"@[1] != "F7"@[1]);
    assert("F2"@[1] != "F8"@[1]);
    assert("F2"@[1] != "F9"@[1]);
}

proof fn lemma_key_reads_back_f3()
    ensures
        key_event(key_name(Key::F3)) == Event::Key(Key::F3),
{
    lemma_key_name_texts();
    assert("F3"@[0] != "Up"@[0]);
    assert("F3"@[1] != "F0"@[1]);
    assert("F3"@[1] != "F1"@[1]);
    assert("F3"@[1] != "F2"@[1]);
    assert("F3"@[1] != "F4"@[1]);
    assert("F3"@[1] != "F5"@[1]);
    assert("F3"@[1] != "F6"@[1]);
    assert("F3"@[1] != "F7"@[1]);
    assert("F3"@[1] != "F8"@[1]);
    assert("F3"@[1] != "F9"@[1]);
}

proof fn lemma_key_reads_back_f4()
    ensures
        key_event(key_name(Key::F4)) == Event::Key(Key::F4),
{
    lemma_key_name_texts();
    assert("F4"@[0] != "Up"@[0]);
    assert("F4"@[1] != "F0"@[1]);
    assert("F4"@[1] != "F1"@[1]);
    assert("F4"@[1] != "F2"@[1]);
    assert("F4"@[1] != "F3"@[1]);
    assert("F4"@[1] != "F5"@[1]);
    assert("F4"@[1] != "F6"@[1]);
    assert("F4"@[1] != "F7"@[1]);
    assert("F4"@[1] != "F8"@[1]);
    assert("F4"@[1] != "F9"@[1]);
}

proof fn lemma_key_reads_back_f5()
    ensures
        key_event(key_name(Key::F5)) == Event::Key(Key::F5),
{
    lemma_key_name_texts();
    assert("F5"@[0] != "Up"@[0]);
    assert("F5"@[1] != "F0"@[1]);
    assert("F5"@[1] != "F1"@[1]);
    assert("F5"@[1] != "F2"@[1]);
    assert("F5"@[1] != "F3"@[1]);
    assert("F5"@[1] != "F4"@[1]);
    assert("F5"@[1] != "F6"@[1]);
    assert("F5"@[1] != "F7"@[1]);
    assert("F5"@[1] != "F8"@[1]);
    assert("F5"@[1] != "F9"@[1]);
}

proof fn lemma_key_reads_back_f6()
    ensures
        key_event(key_name(Key::F6)) == Event::Key(Key::F6),
{
    lemma_key_name_texts();
    assert("F6"@[0] != "Up"@[0]);
    assert("F6"@[1] != "F0"@[1]);
    assert("F6"@[1] != "F1"@[1]);
    assert("F6"@[1] != "F2"@[1]);
    assert("F6"@[1] != "F3"@[1]);
    assert("F6"@[1] != "F4"@[1]);
    assert("F6"@[1] != "F5"@[1]);
    assert("F6"@[1] != "F7"@[1]);
    assert("F6"@[1] != "F8"@[1]);
    assert("F6"@[1] != "F9"@[1]);
}

proof fn lemma_key_reads_back_f7()
    ensures
        key_event(key_name(Key::F7)) == Event::Key(Key::F7),
{
    lemma_key_name_texts();
    assert("F7"@[0] != "Up"@[0]);
    assert("F7"@[1] != "F0"@[1]);
    assert("F7"@[1] != "F1"@[1]);
    assert("F7"@[1] != "F2"@[1]);
    assert("F7"@[1] != "F3"@[1]);
    assert("F7"@[1] != "F4"@[1]);
    assert("F7"@[1] != "F5"@[1]);
    assert("F7"@[1] != "F6"@[1]);
    assert("F7"@[1] != "F8"@[1]);
    assert("F7"@[1] != "F9"@[1]);
}

proof fn lemma_key_reads_back_f8()
    ensures
        key_event(key_name(Key::F8)) == Event::Key(Key::F8),
{
    lemma_key_name_texts();
    assert("F8"@[0] != "Up"@[0]);
    assert("F8"@[1] != "F0"@[1]);
    assert("F8"@[1] != "F1"@[1]);
    assert("F8"@[1] != "F2"@[1]);
    assert("F8"@[1] != "F3"@[1]);
    assert("F8"@[1] != "F4"@[1]);
    assert("F8"@[1] != "F5"@[1]);
    assert("F8"@[1] != "F6"@[1]);
    assert("F8"@[1] != "F7"@[1]);
    assert("F8"@[1] != "F9"@[1]);
}

proof fn lemma_key_reads_back_f9()
    ensures
        key_event(key_name(Key::F9)) == Event::Key(Key::F9),
{
    lemma_key_name_texts();
    assert("F9"@[0] != "Up"@[0]);
    assert("F9"@[1] != "F0"@[1]);
    assert("F9"@[1] != "F1"@[1]);
    assert("F9"@[1] != "F2"@[1]);
    assert("F9"@[1] != "F3"@[1]);
    assert("F9"@[1] != "F4"@[1]);
    assert("F9"@[1] != "F5"@[1]);
    assert("F9"@[1] != "F6"@[1]);
    assert("F9"@[1] != "F7"@[1]);
    assert("F9"@[1] != "F8"@[1]);
}

proof fn lemma_key_reads_back_f10()
    ensures
        key_event(key_name(Key::F10)) == Event::Key(Key::F10),
{
    lemma_key_name_texts();
    assert("F10"@ != "Space"@);
    assert("F10"@ != "Enter"@);
    assert("F10"@ != "Tab"@);
    assert("F10"@ != "Backspace"@);
    assert("F10"@ != "Esc"@);
    assert("F10"@ != "Left"@);
    assert("F10"@ != "Right"@);
    assert("F10"@ != "Up"@);
    assert("F10"@ != "Down"@);
    assert("F10"@ != "Ins"@);
    assert("F10"@ != "Del"@);
    assert("F10"@ != "Home"@);
    assert("F10"@ != "End"@);
    assert("F10"@ != "PageUp"@);
    assert("F10"@ != "PageDown"@);
    assert("F10"@ != "PauseBreak"@);
    assert("F10"@ != "NumpadCenter"@);
    assert("F10"@ != "F0"@);
    assert("F10"@.len() == 3 && "F1"@.len() == 2);
    assert("F10"@ != "F1"@);
    assert("F10"@ != "F2"@);
    assert("F10"@ != "F3"@);
    assert("F10"@ != "F4"@);
    assert("F10"@ != "F5"@);
    assert("F10"@ != "F6"@);
    assert("F10"@ != "F7"@);
    assert("F10"@ != "F8"@);
    assert("F10"@ != "F9"@);
    assert("F10"@[0] != "Tab"@[0]);
    assert("F10"@[0] != "Esc"@[0]);
    assert("F10"@[0] != "Ins"@[0]);
    assert("F10"@[0] != "Del"@[0]);
    assert("F10"@[0] != "End"@[0]);
    assert("F10"@[2] != "F11"@[2]);
    assert("F10"@[2] != "F12"@[2]);
}

proof fn lemma_key_reads_back_f11()
    ensures
        key_event(key_name(Key::F11)) == Event::Key(Key::F11),
{
    lemma_key_name_texts();
    assert("F11"@ != "Space"@);
    assert("F11"@ != "Enter"@);
    assert("F11"@ != "Tab"@);
    assert("F11"@ != "Backspace"@);
    assert("F11"@ != "Esc"@);
    assert("F11"@ != "Left"@);
    assert("F11"@ != "Right"@);
    assert("F11"@ != "Up"@);
    assert("F11"@ != "Down"@);
    assert("F11"@ != "Ins"@);
    assert("F11"@ != "Del"@);
    assert("F11"@ != "Home"@);
    assert("F11"@ != "End"@);
    assert("F11"@ != "PageUp"@);
    assert("F11"@ != "PageDown"@);
    assert("F11"@ != "PauseBreak"@);
    assert("F11"@ != "NumpadCenter"@);
    assert("F11"@ != "F0"@);
    assert("F11"@.len() == 3 && "F1"@.len() == 2);
    assert("F11"@ != "F1"@);
    assert("F11"@ != "F2"@);
    assert("F11"@ != "F3"@);
    assert("F11"@ != "F4"@);
    assert("F11"@ != "F5"@);
    assert("F11"@ != "F6"@);
    assert("F11"@ != "F7"@);
    assert("F11"@ != "F8"@);
    assert("F11"@ != "F9"@);
    assert("F11"@ != "F10"@);
    assert("F11"@[0] != "Tab"@[0]);
    assert("F11"@[0] != "Esc"@[0]);
    assert("F11"@[0] != "Ins"@[0]);
    assert("F11"@[0] != "Del"@[0]);
    assert("F11"@[0] != "End"@[0]);
    assert("F11"@[2] != "F10"@[2]);
    assert("F11"@[2] != "F12"@[2]);
}

proof fn lemma_key_reads_back_f12()
    ensures
        key_event(key_name(Key::F12)) == Event::Key(Key::F12),
{
    lemma_key_name_texts();
    assert("F12"@ != "Space"@);
    assert("F12"@ != "Enter"@);
    assert("F12"@ != "Tab"@);
    assert("F12"@ != "Backspace"@);
    assert("F12"@ != "Esc"@);
    assert("F12"@ != "Left"@);
    assert("F12"@ != "Right"@);
    assert("F12"@ != "Up"@);
    assert("F12"@ != "Down"@);
    assert("F12"@ != "Ins"@);
    assert("F12"@ != "Del"@);
    assert("F12"@ != "Home"@);
    assert("F12"@ != "End"@);
    assert("F12"@ != "PageUp"@);
    assert("F12"@ != "PageDown"@);
    assert("F12"@ != "PauseBreak"@);
    assert("F12"@ != "NumpadCenter"@);
    assert("F12"@ != "F0"@);
    assert("F12"@.len() == 3 && "F1"@.len() == 2);
    assert("F12"@ != "F1"@);
    assert("F12"@ != "F2"@);
    assert("F12"@ != "F3"@);
    assert("F12"@ != "F4"@);
    assert("F12"@ != "F5"@);
    assert("F12"@ != "F6"@);
    assert("F12"@ != "F7"@);
    assert("F12"@ != "F8"@);
    assert("F12"@ != "F9"@);
    assert("F12"@ != "F10"@);
    assert("F12"@ != "F11"@);
    assert("F12"@[0] != "Tab"@[0]);
    assert("F12"@[0] != "Esc"@[0]);
    assert("F12"@[0] != "Ins"@[0]);
    assert("F12"@[0] != "Del"@[0]);
    assert("F12"@[0] != "End"@[0]);
    assert("F12"@[2] != "F10"@[2]);
    assert("F12"@[2] != "F11"@[2]);
}

/// Every key reads back from its name, alone and after `Shift+`: a binding
/// names the key it is written with, so distinct keys never read alike.
pub proof fn lemma_key_names_read_back(k: Key)
    ensures
        key_event(key_name(k)) == Event::Key(k),
        keybinding_event("Shift"@ + seq!['+'] + key_name(k)) == Some(Event::Shift(k)),
{
    match k {
        Key::Enter => lemma_key_reads_back_enter(),
        Key::Tab => lemma_key_reads_back_tab(),
        Key::Backspace => lemma_key_reads_back_backspace(),
        Key::Esc => lemma_key_reads_back_esc(),
        Key::Left => lemma_key_reads_back_left(),
        Key::Right => lemma_key_reads_back_right(),
        Key::Up => lemma_key_reads_back_up(),
        Key::Down => lemma_key_reads_back_down(),
        Key::Ins => lemma_key_reads_back_ins(),
        Key::Del => lemma_key_reads_back_del(),
        Key::Home => lemma_key_reads_back_home(),
        Key::End => lemma_key_reads_back_end(),
        Key::PageUp => lemma_key_reads_back_pageup(),
        Key::PageDown => lemma_key_reads_back_pagedown(),
        Key::PauseBreak => lemma_key_reads_back_pausebreak(),
        Key::NumpadCenter => lemma_key_reads_back_numpadcenter(),
        Key::F0 => lemma_key_reads_back_f0(),
        Key::F1 => lemma_key_reads_back_f1(),
        Key::F2 => lemma_key_reads_back_f2(),
        Key::F3 => lemma_key_reads_back_f3(),
        Key::F4 => lemma_key_reads_back_f4(),
        Key::F5 => lemma_key_reads_back_f5(),
        Key::F6 => lemma_key_reads_back_f6(),
        Key::F7 => lemma_key_reads_back_f7(),
        Key::F8 => lemma_key_reads_back_f8(),
        Key::F9 => lemma_key_reads_back_f9(),
        Key::F10 => lemma_key_reads_back_f10(),
        Key::F11 => lemma_key_reads_back_f11(),
        Key::F12 => lemma_key_reads_back_f12(),
    }
    lemma_key_name_texts();
    let n = key_name(k);
    assert(!n.contains('+')) by {
        if n.contains('+') {
            let i = choose|i: int| 0 <= i < n.len() && n[i] == '+';
            assert(n[i] != '+');
        }
    }
    assert(!"Shift"@.contains('+')) by {
        if "Shift"@.contains('+') {
            let i = choose|i: int| 0 <= i < "Shift"@.len() && "Shift"@[i] == '+';
            assert("Shift"@[i] != '+');
        }
    }
    lemma_split_two("Shift"@, n, '+');
    reveal_strlit("+");
    assert("Shift"@ + seq!['+'] + n != "+"@) by {
        assert(("Shift"@ + seq!['+'] + n).len() != "+"@.len());
    }
}

} // verus!
