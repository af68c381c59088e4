//! Key handling: what each key does to the greeter's state, and what it asks of greetd.

use vstd::prelude::*;
use crate::greeter::{Greeter, GreeterView, Mode};
use crate::masked::{MaskedString, MaskedStringView};
use crate::power::PowerOption;
use crate::sessions::{source_text, SessionSource, SessionSourceView};
use crate::text::{chars_of, owned, string_of};

verus! {

broadcast use vstd::string::group_string_axioms;

/// A key, as far as the greeter tells keys apart.
#[derive(Debug, Clone, Copy, PartialEq, Eq, Structural)]
pub enum KeyCode {
    Char(char),
    F(u8),
    Esc,
    Left,
    Right,
    Up,
    Down,
    Tab,
    Enter,
    Backspace,
    Delete,
    Other,
}

/// A key press: the key, and whether Ctrl, and only Ctrl, was held.
#[derive(Debug, Clone, Copy, PartialEq, Eq)]
pub struct Key {
    pub code: KeyCode,
    pub control: bool,
}

/// What a key asks of the outside world, after its effect on the state.
#[derive(Debug, PartialEq, Eq)]
pub enum KeyAction {
    /// Nothing.
    Nothing,
    /// Exit with `AuthStatus::Cancel` (debug builds).
    ExitCancel,
    /// Cancel greetd's session, then reset the greeter from the username.
    CancelAndReset,
    /// Ask greetd to create a session for this user.
    CreateSession(String),
    /// Answer greetd's question.
    PostAuthResponse(String),
    /// Run this power action.
    Power(PowerOption),
}

pub enum KeyActionView {
    Nothing,
    ExitCancel,
    CancelAndReset,
    CreateSession(Seq<char>),
    PostAuthResponse(Seq<char>),
    Power(PowerOption),
}

impl View for KeyAction {
    type V = KeyActionView;

    open spec fn view(&self) -> KeyActionView {
        match self {
            KeyAction::Nothing => KeyActionView::Nothing,
            KeyAction::ExitCancel => KeyActionView::ExitCancel,
            KeyAction::CancelAndReset => KeyActionView::CancelAndReset,
            KeyAction::CreateSession(u) => KeyActionView::CreateSession(u@),
            KeyAction::PostAuthResponse(r) => KeyActionView::PostAuthResponse(r@),
            KeyAction::Power(p) => KeyActionView::Power(*p),
        }
    }
}

/// Which rule a key falls under, tried in this order.
pub enum Rule {
    /// Waiting for greetd: keys are ignored.
    Busy,
    /// Ctrl+U: erase the value being edited.
    EraseLine,
    /// Ctrl+X, where allowed: exit.
    DebugExit,
    Escape,
    Left,
    Right,
    /// The function key bound to editing the command.
    CommandKey,
    /// The function key bound to the session menu.
    SessionsKey,
    /// The function key bound to the power menu.
    PowerKey,
    Up,
    Down,
    /// Ctrl+A: cursor to the start.
    Home,
    /// Ctrl+E: cursor to the end.
    End,
    Tab,
    Enter,
    /// Any other Ctrl combination: ignored.
    OtherControl,
    Insert(char),
    /// Backspace (`true`) or Delete (`false`).
    Erase(bool),
    Ignored,
}

/// The rule a key falls under.
pub open spec fn rule_of(g: GreeterView, key: Key, debug_exit: bool) -> Rule {
    if g.working {
        Rule::Busy
    } else if key.code == KeyCode::Char('u') && key.control {
        Rule::EraseLine
    } else if debug_exit && key.code == KeyCode::Char('x') && key.control {
        Rule::DebugExit
    } else if key.code == KeyCode::Esc {
        Rule::Escape
    } else if key.code == KeyCode::Left {
        Rule::Left
    } else if key.code == KeyCode::Right {
        Rule::Right
    } else if key.code == KeyCode::F(g.kb_command) {
        Rule::CommandKey
    } else if key.code == KeyCode::F(g.kb_sessions) {
        Rule::SessionsKey
    } else if key.code == KeyCode::F(g.kb_power) {
        Rule::PowerKey
    } else if key.code == KeyCode::Up {
        Rule::Up
    } else if key.code == KeyCode::Down {
        Rule::Down
    } else if key.code == KeyCode::Char('a') && key.control {
        Rule::Home
    } else if key.code == KeyCode::Char('e') && key.control {
        Rule::End
    } else if key.code == KeyCode::Tab {
        Rule::Tab
    } else if key.code == KeyCode::Enter {
        Rule::Enter
    } else if key.control {
        Rule::OtherControl
    } else {
        match key.code {
            KeyCode::Char(c) => Rule::Insert(c),
            KeyCode::Backspace => Rule::Erase(true),
            KeyCode::Delete => Rule::Erase(false),
            _ => Rule::Ignored,
        }
    }
}

/// Modes with a value being typed.
pub open spec fn editable(m: Mode) -> bool {
    m == Mode::Username || m == Mode::Password || m == Mode::Command
}

/// Transient screens, which return to the mode they were opened from.
pub open spec fn transient(m: Mode) -> bool {
    m == Mode::Command || m == Mode::Sessions || m == Mode::Power || m == Mode::Users
}

/// The value being edited: the username when asking for it, else the buffer.
pub open spec fn edited(g: GreeterView) -> Seq<char> {
    if g.mode == Mode::Username {
        g.username.value
    } else {
        g.buffer
    }
}

/// The state with the edited value replaced.
pub open spec fn with_edited(g: GreeterView, v: Seq<char>) -> GreeterView {
    if g.mode == Mode::Username {
        GreeterView { username: MaskedStringView { value: v, ..g.username }, ..g }
    } else {
        GreeterView { buffer: v, ..g }
    }
}

/// What `n as i16` gives for a length `n`.
pub open spec fn as_i16(n: int) -> int {
    if n % 65536 >= 32768 {
        n % 65536 - 65536
    } else {
        n % 65536
    }
}

/// Whether `v` fits an `i16`.
pub open spec fn fits_i16(v: int) -> bool {
    -32768 <= v <= 32767
}

/// Where a typed character goes: the cursor position counted from the start,
/// or the end of the value where that position is outside it.
pub open spec fn insert_position(len: int, offset: i16) -> int {
    let p = as_i16(len) + offset;
    if 0 <= p <= len {
        p
    } else {
        len
    }
}

/// The index Backspace (before the cursor) or Delete (at the cursor) removes.
pub open spec fn erase_index(len: int, offset: i16, backspace: bool) -> int {
    as_i16(len) + offset - if backspace { 1int } else { 0 }
}

/// Opening a transient screen: it returns to the screen it is opened from, or,
/// opened from another transient screen, to where that one returns.
pub open spec fn open_screen(g: GreeterView, m: Mode) -> GreeterView {
    GreeterView {
        previous_mode: if transient(g.mode) { g.previous_mode } else { g.mode },
        mode: m,
        ..g
    }
}

/// The buffer saved by a transient screen, now restored (empty where none was saved).
pub open spec fn restored(g: GreeterView) -> Seq<char> {
    match g.previous_buffer {
        Some(b) => b,
        None => Seq::empty(),
    }
}

/// Sends the username to greetd: waiting from now on, message and buffer cleared.
pub open spec fn submit_username(g: GreeterView) -> (GreeterView, KeyActionView) {
    (
        GreeterView { working: true, message: None, buffer: Seq::empty(), ..g },
        KeyActionView::CreateSession(g.username.value),
    )
}

/// Whether a key under a rule makes the handler panic (arithmetic overflow, or
/// moving down in an empty menu).
pub open spec fn rule_panics(g: GreeterView, r: Rule) -> bool {
    match r {
        Rule::Left => g.cursor_offset == i16::MIN,
        Rule::Right => g.cursor_offset == i16::MAX,
        Rule::Down => (g.mode == Mode::Sessions && g.sessions.options.len() == 0) || (g.mode
            == Mode::Power && g.powers.options.len() == 0),
        Rule::Home => as_i16(edited(g).len() as int) == -32768,
        Rule::Insert(_) => editable(g.mode) && !fits_i16(as_i16(edited(g).len() as int) + g.cursor_offset),
        Rule::Erase(backspace) => editable(g.mode) && {
            let a = as_i16(edited(g).len() as int) + g.cursor_offset;
            let i = erase_index(edited(g).len() as int, g.cursor_offset, backspace);
            ||| !fits_i16(a)
            ||| backspace && !fits_i16(i)
            ||| !backspace && 0 <= i < edited(g).len() && g.cursor_offset == i16::MAX
        },
        _ => false,
    }
}

/// Whether a key makes the handler panic.
pub open spec fn key_panics(g: GreeterView, key: Key, debug_exit: bool) -> bool {
    rule_panics(g, rule_of(g, key, debug_exit))
}

/// What a key under a rule does: the new state, and what it asks of the outside.
pub open spec fn rule_effect(g: GreeterView, r: Rule) -> (GreeterView, KeyActionView) {
    match r {
        Rule::Busy | Rule::OtherControl | Rule::Ignored => (g, KeyActionView::Nothing),
        Rule::EraseLine => (
            if g.mode == Mode::Username {
                GreeterView { username: MaskedStringView { value: Seq::empty(), mask: None }, ..g }
            } else if g.mode == Mode::Password || g.mode == Mode::Command {
                GreeterView { buffer: Seq::empty(), ..g }
            } else {
                g
            },
            KeyActionView::Nothing,
        ),
        Rule::DebugExit => (g, KeyActionView::ExitCancel),
        Rule::Escape => if g.mode == Mode::Command {
            (
                GreeterView {
                    mode: g.previous_mode,
                    buffer: restored(g),
                    previous_buffer: None,
                    cursor_offset: 0,
                    ..g
                },
                KeyActionView::Nothing,
            )
        } else if g.mode == Mode::Sessions || g.mode == Mode::Power || g.mode == Mode::Users {
            (GreeterView { mode: g.previous_mode, ..g }, KeyActionView::Nothing)
        } else if g.mode == Mode::Username {
            (
                GreeterView {
                    username: MaskedStringView { value: Seq::empty(), mask: None },
                    cursor_offset: 0,
                    ..g
                },
                KeyActionView::Nothing,
            )
        } else {
            (g, KeyActionView::CancelAndReset)
        },
        Rule::Left => (GreeterView { cursor_offset: (g.cursor_offset - 1) as i16, ..g }, KeyActionView::Nothing),
        Rule::Right => (GreeterView { cursor_offset: (g.cursor_offset + 1) as i16, ..g }, KeyActionView::Nothing),
        Rule::CommandKey => (
            GreeterView {
                previous_buffer: Some(g.buffer),
                buffer: match source_text(g.session_source, g.sessions.options, false) {
                    Some(c) => c,
                    None => Seq::empty(),
                },
                cursor_offset: 0,
                ..open_screen(g, Mode::Command)
            },
            KeyActionView::Nothing,
        ),
        Rule::SessionsKey => (open_screen(g, Mode::Sessions), KeyActionView::Nothing),
        Rule::PowerKey => (open_screen(g, Mode::Power), KeyActionView::Nothing),
        Rule::Up => (
            if g.mode == Mode::Sessions && g.sessions.selected > 0 {
                GreeterView {
                    sessions: crate::menu::MenuView { selected: (g.sessions.selected - 1) as usize, ..g.sessions },
                    ..g
                }
            } else if g.mode == Mode::Power && g.powers.selected > 0 {
                GreeterView {
                    powers: crate::menu::MenuView { selected: (g.powers.selected - 1) as usize, ..g.powers },
                    ..g
                }
            } else {
                g
            },
            KeyActionView::Nothing,
        ),
        Rule::Down => (
            if g.mode == Mode::Sessions && g.sessions.selected < g.sessions.options.len() - 1 {
                GreeterView {
                    sessions: crate::menu::MenuView { selected: (g.sessions.selected + 1) as usize, ..g.sessions },
                    ..g
                }
            } else if g.mode == Mode::Power && g.powers.selected < g.powers.options.len() - 1 {
                GreeterView {
                    powers: crate::menu::MenuView { selected: (g.powers.selected + 1) as usize, ..g.powers },
                    ..g
                }
            } else {
                g
            },
            KeyActionView::Nothing,
        ),
        Rule::Home => (
            GreeterView { cursor_offset: (-as_i16(edited(g).len() as int)) as i16, ..g },
            KeyActionView::Nothing,
        ),
        Rule::End => (GreeterView { cursor_offset: 0, ..g }, KeyActionView::Nothing),
        Rule::Tab => if g.mode == Mode::Username && g.username.value.len() > 0 {
            submit_username(g)
        } else {
            (g, KeyActionView::Nothing)
        },
        Rule::Enter => if g.mode == Mode::Username {
            if g.username.value.len() > 0 {
                submit_username(g)
            } else {
                (g, KeyActionView::Nothing)
            }
        } else if g.mode == Mode::Password {
            (
                GreeterView { working: true, message: None, buffer: Seq::empty(), ..g },
                KeyActionView::PostAuthResponse(g.buffer),
            )
        } else if g.mode == Mode::Command {
            (
                GreeterView {
                    sessions: crate::menu::MenuView { selected: 0, ..g.sessions },
                    session_source: SessionSourceView::Command(g.buffer),
                    buffer: restored(g),
                    previous_buffer: None,
                    mode: g.previous_mode,
                    ..g
                },
                KeyActionView::Nothing,
            )
        } else if g.mode == Mode::Sessions {
            (
                GreeterView {
                    session_source: if g.sessions.selected < g.sessions.options.len() {
                        SessionSourceView::Session(g.sessions.selected)
                    } else {
                        g.session_source
                    },
                    mode: g.previous_mode,
                    ..g
                },
                KeyActionView::Nothing,
            )
        } else if g.mode == Mode::Power {
            (
                GreeterView { mode: g.previous_mode, ..g },
                if g.powers.selected < g.powers.options.len() {
                    KeyActionView::Power(g.powers.options[g.powers.selected as int].action)
                } else {
                    KeyActionView::Nothing
                },
            )
        } else {
            (g, KeyActionView::Nothing)
        },
        Rule::Insert(c) => if editable(g.mode) {
            let v = edited(g);
            let p = insert_position(v.len() as int, g.cursor_offset);
            (with_edited(g, v.take(p) + seq![c] + v.skip(p)), KeyActionView::Nothing)
        } else {
            (g, KeyActionView::Nothing)
        },
        Rule::Erase(backspace) => if editable(g.mode) {
            let v = edited(g);
            let i = erase_index(v.len() as int, g.cursor_offset, backspace);
            if 0 <= i < v.len() {
                let h = with_edited(g, v.take(i) + v.skip(i + 1));
                (
                    if backspace { h } else { GreeterView { cursor_offset: (g.cursor_offset + 1) as i16, ..h } },
                    KeyActionView::Nothing,
                )
            } else {
                (g, KeyActionView::Nothing)
            }
        } else {
            (g, KeyActionView::Nothing)
        },
    }
}

/// What a key does to the greeter and asks of the outside world.
pub open spec fn key_effect(g: GreeterView, key: Key, debug_exit: bool) -> (GreeterView, KeyActionView) {
    rule_effect(g, rule_of(g, key, debug_exit))
}

fn length_as_i16(n: usize) -> (r: i32)
    ensures
        r as int == as_i16(n as int),
        -32768 <= r <= 32767,
{
    let m = (n % 65536) as i32;
    if m >= 32768 {
        m - 65536
    } else {
        m
    }
}

fn edited_chars(g: &Greeter) -> (v: Vec<char>)
    ensures
        v@ == edited(g@),
{
    if matches!(g.mode, Mode::Username) {
        chars_of(g.username.value.as_str())
    } else {
        chars_of(g.buffer.as_str())
    }
}

fn set_edited(g: &mut Greeter, v: &Vec<char>)
    requires
        editable(old(g).mode),
    ensures
        final(g)@ == with_edited(old(g)@, v@),
{
    let s = string_of(v);
    if matches!(g.mode, Mode::Username) {
        g.username.value = s;
    } else {
        g.buffer = s;
    }
}

fn spliced(v: &Vec<char>, at: usize, skip: usize, insert: Option<char>) -> (r: Vec<char>)
    requires
        at <= v@.len(),
        at + skip <= v@.len(),
    ensures
        r@ == v@.take(at as int) + match insert {
            Some(c) => seq![c],
            None => Seq::empty(),
        } + v@.skip(at + skip),
{
    let mut r: Vec<char> = Vec::new();
    let mut i: usize = 0;
    while i < at
        invariant
            i <= at <= v@.len(),
            r@ == v@.take(i as int),
        decreases at - i,
    {
        r.push(v[i]);
        i = i + 1;
        assert(r@ =~= v@.take(i as int));
    }
    let ghost front = r@;
    if let Some(c) = insert {
        r.push(c);
    }
    let ghost mid = r@;
    let n = v.len();
    assert(at + skip <= n);
    let mut j: usize = at + skip;
    while j < v.len()
        invariant
            at + skip <= j <= v@.len(),
            r@ == mid + v@.subrange(at + skip, j as int),
        decreases v.len() - j,
    {
        r.push(v[j]);
        j = j + 1;
        assert(r@ =~= mid + v@.subrange(at + skip, j as int));
    }
    assert(v@.subrange(at + skip, v@.len() as int) =~= v@.skip(at + skip));
    assert(r@ =~= v@.take(at as int) + match insert {
        Some(c) => seq![c],
        None => Seq::empty(),
    } + v@.skip(at + skip));
    r
}

fn submit(g: &mut Greeter) -> (r: KeyAction)
    ensures
        (final(g)@, r@) == submit_username(old(g)@),
{
    g.working = true;
    g.message = None;
    let username = g.username.value.clone();
    g.buffer = String::new();
    KeyAction::CreateSession(username)
}

fn take_restored(g: &mut Greeter) -> (r: String)
    ensures
        r@ == restored(old(g)@),
        final(g)@ == (GreeterView { previous_buffer: None, ..old(g)@ }),
{
    match g.previous_buffer.take() {
        Some(b) => b,
        None => String::new(),
    }
}

/// Whether [`handle_key`] would panic on this key.
pub fn key_would_panic(g: &Greeter, key: Key, debug_exit: bool) -> (r: bool)
    ensures
        r == key_panics(g@, key, debug_exit),
{
    let code = key.code;
    if g.working || (code == KeyCode::Char('u') && key.control) || (debug_exit && code
        == KeyCode::Char('x') && key.control) || code == KeyCode::Esc {
        return false;
    }
    if code == KeyCode::Left {
        return g.cursor_offset == i16::MIN;
    }
    if code == KeyCode::Right {
        return g.cursor_offset == i16::MAX;
    }
    if code == KeyCode::F(g.kb_command) || code == KeyCode::F(g.kb_sessions) || code == KeyCode::F(
        g.kb_power,
    ) || code == KeyCode::Up {
        return false;
    }
    if code == KeyCode::Down {
        return (matches!(g.mode, Mode::Sessions) && g.sessions.options.len() == 0) || (matches!(
            g.mode,
            Mode::Power
        ) && g.powers.options.len() == 0);
    }
    if code == KeyCode::Char('a') && key.control {
        let v = edited_chars(g);
        return length_as_i16(v.len()) == -32768;
    }
    if (code == KeyCode::Char('e') && key.control) || code == KeyCode::Tab || code == KeyCode::Enter
        || key.control {
        return false;
    }
    let edit = matches!(g.mode, Mode::Username | Mode::Password | Mode::Command);
    if !edit {
        return false;
    }
    let v = edited_chars(g);
    let a = length_as_i16(v.len()) + g.cursor_offset as i32;
    match code {
        KeyCode::Char(_) => !(-32768 <= a && a <= 32767),
        KeyCode::Backspace => !(-32768 <= a && a <= 32767) || a - 1 < -32768,
        KeyCode::Delete => !(-32768 <= a && a <= 32767) || (0 <= a && (a as usize) < v.len()
            && g.cursor_offset == i16::MAX),
        _ => false,
    }
}

/// The rule a key falls under.
pub fn classify(g: &Greeter, key: Key, debug_exit: bool) -> (r: Rule)
    ensures
        r == rule_of(g@, key, debug_exit),
{
    let code = key.code;
    if g.working {
        Rule::Busy
    } else if code == KeyCode::Char('u') && key.control {
        Rule::EraseLine
    } else if debug_exit && code == KeyCode::Char('x') && key.control {
        Rule::DebugExit
    } else if code == KeyCode::Esc {
        Rule::Escape
    } else if code == KeyCode::Left {
        Rule::Left
    } else if code == KeyCode::Right {
        Rule::Right
    } else if code == KeyCode::F(g.kb_command) {
        Rule::CommandKey
    } else if code == KeyCode::F(g.kb_sessions) {
        Rule::SessionsKey
    } else if code == KeyCode::F(g.kb_power) {
        Rule::PowerKey
    } else if code == KeyCode::Up {
        Rule::Up
    } else if code == KeyCode::Down {
        Rule::Down
    } else if code == KeyCode::Char('a') && key.control {
        Rule::Home
    } else if code == KeyCode::Char('e') && key.control {
        Rule::End
    } else if code == KeyCode::Tab {
        Rule::Tab
    } else if code == KeyCode::Enter {
        Rule::Enter
    } else if key.control {
        Rule::OtherControl
    } else {
        match code {
            KeyCode::Char(c) => Rule::Insert(c),
            KeyCode::Backspace => Rule::Erase(true),
            KeyCode::Delete => Rule::Erase(false),
            _ => Rule::Ignored,
        }
    }
}

fn erase_line(g: &mut Greeter)
    ensures
        (final(g)@, KeyActionView::Nothing) == rule_effect(old(g)@, Rule::EraseLine),
{
    match g.mode {
        Mode::Username => g.username = MaskedString::default(),
        Mode::Password | Mode::Command => g.buffer = String::new(),
        _ => {},
    }
}

fn escape(g: &mut Greeter) -> (r: KeyAction)
    ensures
        (final(g)@, r@) == rule_effect(old(g)@, Rule::Escape),
{
    match g.mode {
        Mode::Command => {
            g.mode = g.previous_mode;
            g.buffer = take_restored(g);
            g.cursor_offset = 0;
            KeyAction::Nothing
        },
        Mode::Sessions | Mode::Power | Mode::Users => {
            g.mode = g.previous_mode;
            KeyAction::Nothing
        },
        Mode::Username => {
            g.username = MaskedString::default();
            g.cursor_offset = 0;
            KeyAction::Nothing
        },
        _ => KeyAction::CancelAndReset,
    }
}

fn open(g: &mut Greeter, m: Mode)
    ensures
        final(g)@ == open_screen(old(g)@, m),
{
    let returns_to = if matches!(g.mode, Mode::Command | Mode::Sessions | Mode::Power | Mode::Users) {
        g.previous_mode
    } else {
        g.mode
    };
    g.previous_mode = returns_to;
    g.mode = m;
}

fn command_key(g: &mut Greeter)
    ensures
        (final(g)@, KeyActionView::Nothing) == rule_effect(old(g)@, Rule::CommandKey),
{
    let saved = g.buffer.clone();
    let command = match g.session_source.command(g) {
        Some(c) => owned(c),
        None => String::new(),
    };
    open(g, Mode::Command);
    g.previous_buffer = Some(saved);
    g.buffer = command;
    g.cursor_offset = 0;
}

fn up(g: &mut Greeter)
    ensures
        (final(g)@, KeyActionView::Nothing) == rule_effect(old(g)@, Rule::Up),
{
    if matches!(g.mode, Mode::Sessions) && g.sessions.selected > 0 {
        g.sessions.selected = g.sessions.selected - 1;
    } else if matches!(g.mode, Mode::Power) && g.powers.selected > 0 {
        g.powers.selected = g.powers.selected - 1;
    }
}

fn down(g: &mut Greeter)
    requires
        !rule_panics(old(g)@, Rule::Down),
    ensures
        (final(g)@, KeyActionView::Nothing) == rule_effect(old(g)@, Rule::Down),
{
    if matches!(g.mode, Mode::Sessions) && g.sessions.selected < g.sessions.options.len() - 1 {
        g.sessions.selected = g.sessions.selected + 1;
    } else if matches!(g.mode, Mode::Power) && g.powers.selected < g.powers.options.len() - 1 {
        g.powers.selected = g.powers.selected + 1;
    }
}

fn enter_password(g: &mut Greeter) -> (r: KeyAction)
    requires
        old(g).mode == Mode::Password,
    ensures
        (final(g)@, r@) == rule_effect(old(g)@, Rule::Enter),
{
    g.working = true;
    g.message = None;
    let response = g.buffer.clone();
    g.buffer = String::new();
    KeyAction::PostAuthResponse(response)
}

fn enter_command(g: &mut Greeter)
    requires
        old(g).mode == Mode::Command,
    ensures
        (final(g)@, KeyActionView::Nothing) == rule_effect(old(g)@, Rule::Enter),
{
    g.sessions.selected = 0;
    g.session_source = SessionSource::Command(g.buffer.clone());
    g.buffer = take_restored(g);
    g.mode = g.previous_mode;
}

fn enter_sessions(g: &mut Greeter)
    requires
        old(g).mode == Mode::Sessions,
    ensures
        (final(g)@, KeyActionView::Nothing) == rule_effect(old(g)@, Rule::Enter),
{
    if g.sessions.selected < g.sessions.options.len() {
        g.session_source = SessionSource::Session(g.sessions.selected);
    }
    g.mode = g.previous_mode;
}

fn enter_power(g: &mut Greeter) -> (r: KeyAction)
    requires
        old(g).mode == Mode::Power,
    ensures
        (final(g)@, r@) == rule_effect(old(g)@, Rule::Enter),
{
    let action = if g.powers.selected < g.powers.options.len() {
        KeyAction::Power(g.powers.options[g.powers.selected].action)
    } else {
        KeyAction::Nothing
    };
    g.mode = g.previous_mode;
    action
}

fn enter(g: &mut Greeter) -> (r: KeyAction)
    ensures
        (final(g)@, r@) == rule_effect(old(g)@, Rule::Enter),
{
    match g.mode {
        Mode::Username => {
            if g.username.value.as_str().unicode_len() > 0 {
                submit(g)
            } else {
                KeyAction::Nothing
            }
        },
        Mode::Password => enter_password(g),
        Mode::Command => {
            enter_command(g);
            KeyAction::Nothing
        },
        Mode::Sessions => {
            enter_sessions(g);
            KeyAction::Nothing
        },
        Mode::Power => enter_power(g),
        _ => KeyAction::Nothing,
    }
}

fn insert(g: &mut Greeter, c: char)
    requires
        !rule_panics(old(g)@, Rule::Insert(c)),
    ensures
        (final(g)@, KeyActionView::Nothing) == rule_effect(old(g)@, Rule::Insert(c)),
{
    if !matches!(g.mode, Mode::Username | Mode::Password | Mode::Command) {
        return;
    }
    let v = edited_chars(g);
    let len = v.len();
    let p = length_as_i16(len) + g.cursor_offset as i32;
    let at: usize = if 0 <= p && (p as usize) <= len {
        p as usize
    } else {
        len
    };
    let nv = spliced(&v, at, 0, Some(c));
    set_edited(g, &nv);
}

fn erase(g: &mut Greeter, backspace: bool)
    requires
        !rule_panics(old(g)@, Rule::Erase(backspace)),
    ensures
        (final(g)@, KeyActionView::Nothing) == rule_effect(old(g)@, Rule::Erase(backspace)),
{
    if !matches!(g.mode, Mode::Username | Mode::Password | Mode::Command) {
        return;
    }
    let v = edited_chars(g);
    let len = v.len();
    let a = length_as_i16(len) + g.cursor_offset as i32;
    let i = if backspace {
        a - 1
    } else {
        a
    };
    if 0 <= i && (i as usize) < len {
        let nv = spliced(&v, i as usize, 1, None);
        set_edited(g, &nv);
        if !backspace {
            g.cursor_offset = g.cursor_offset + 1;
        }
    }
}

/// Handles one key press: updates the greeter and tells what to ask of greetd or
/// of the rest of the program. `debug_exit` lets Ctrl+X exit (debug builds).
pub fn handle_key(g: &mut Greeter, key: Key, debug_exit: bool) -> (r: KeyAction)
    requires
        !key_panics(old(g)@, key, debug_exit),
    ensures
        (final(g)@, r@) == key_effect(old(g)@, key, debug_exit),
{
    let rule = classify(g, key, debug_exit);
    match rule {
        Rule::Busy | Rule::OtherControl | Rule::Ignored => KeyAction::Nothing,
        Rule::EraseLine => {
            erase_line(g);
            KeyAction::Nothing
        },
        Rule::DebugExit => KeyAction::ExitCancel,
        Rule::Escape => escape(g),
        Rule::Left => {
            g.cursor_offset = g.cursor_offset - 1;
            KeyAction::Nothing
        },
        Rule::Right => {
            g.cursor_offset = g.cursor_offset + 1;
            KeyAction::Nothing
        },
        Rule::CommandKey => {
            command_key(g);
            KeyAction::Nothing
        },
        Rule::SessionsKey => {
            open(g, Mode::Sessions);
            KeyAction::Nothing
        },
        Rule::PowerKey => {
            open(g, Mode::Power);
            KeyAction::Nothing
        },
        Rule::Up => {
            up(g);
            KeyAction::Nothing
        },
        Rule::Down => {
            down(g);
            KeyAction::Nothing
        },
        Rule::Home => {
            let v = edited_chars(g);
            let n = length_as_i16(v.len());
            g.cursor_offset = (-n) as i16;
            KeyAction::Nothing
        },
        Rule::End => {
            g.cursor_offset = 0;
            KeyAction::Nothing
        },
        Rule::Tab => {
            if matches!(g.mode, Mode::Username) && g.username.value.as_str().unicode_len() > 0 {
                submit(g)
            } else {
                KeyAction::Nothing
            }
        },
        Rule::Enter => enter(g),
        Rule::Insert(c) => {
            insert(g, c);
            KeyAction::Nothing
        },
        Rule::Erase(backspace) => {
            erase(g, backspace);
            KeyAction::Nothing
        },
    }
}


// ---------------------------------------------------------------- laws

/// While the greeter waits for greetd, keys change nothing and ask nothing.
pub proof fn lemma_busy_ignores_keys(g: GreeterView, key: Key, debug_exit: bool)
    requires
        g.working,
    ensures
        !key_panics(g, key, debug_exit),
        key_effect(g, key, debug_exit) == (g, KeyActionView::Nothing),
{
}

/// Ctrl+U empties the value being edited and leaves the rest as it was.
pub proof fn lemma_ctrl_u_clears(g: GreeterView, debug_exit: bool)
    requires
        !g.working,
        editable(g.mode),
    ensures
        edited(key_effect(g, Key { code: KeyCode::Char('u'), control: true }, debug_exit).0).len() == 0,
        key_effect(g, Key { code: KeyCode::Char('u'), control: true }, debug_exit).1 == KeyActionView::Nothing,
{
}

/// Opening the command editor and leaving it with Esc gives back the screen and the
/// value that were there before, with the cursor at the end.
pub proof fn lemma_command_then_escape(g: GreeterView, debug_exit: bool)
    requires
        !g.working,
        !transient(g.mode),
    ensures
        ({
            let (g1, a1) = key_effect(g, Key { code: KeyCode::F(g.kb_command), control: false }, debug_exit);
            let (g2, a2) = key_effect(g1, Key { code: KeyCode::Esc, control: false }, debug_exit);
            &&& !key_panics(g, Key { code: KeyCode::F(g.kb_command), control: false }, debug_exit)
            &&& !key_panics(g1, Key { code: KeyCode::Esc, control: false }, debug_exit)
            &&& a1 == KeyActionView::Nothing
            &&& a2 == KeyActionView::Nothing
            &&& g2 == GreeterView { previous_mode: g.mode, previous_buffer: None, cursor_offset: 0, ..g }
        }),
{
}

/// Typing a character and then Backspace gives back the state before, wherever the
/// cursor stands in the value.
pub proof fn lemma_insert_then_backspace(g: GreeterView, c: char, debug_exit: bool)
    requires
        !g.working,
        editable(g.mode),
        edited(g).len() < 32767,
        -edited(g).len() <= g.cursor_offset <= 0,
    ensures
        ({
            let k1 = Key { code: KeyCode::Char(c), control: false };
            let k2 = Key { code: KeyCode::Backspace, control: false };
            let (g1, a1) = key_effect(g, k1, debug_exit);
            let (g2, a2) = key_effect(g1, k2, debug_exit);
            &&& !key_panics(g, k1, debug_exit)
            &&& !key_panics(g1, k2, debug_exit)
            &&& a1 == KeyActionView::Nothing
            &&& a2 == KeyActionView::Nothing
            &&& g2 == g
        }),
{
    let v = edited(g);
    let len = v.len() as int;
    assert(as_i16(len) == len);
    assert(as_i16(len + 1) == len + 1);
    let p = len + g.cursor_offset;
    let w = v.take(p) + seq![c] + v.skip(p);
    let g1 = with_edited(g, w);
    assert(edited(g1) == w);
    assert(w.take(p) + w.skip(p + 1) =~= v);
    assert(with_edited(g1, v) == g);
}

/// The new highlight in a menu of `len` entries after Up (`up`) or Down: one entry
/// further, stopping at the first and at the last entry.
pub open spec fn moved_highlight(selected: usize, len: int, up: bool) -> usize {
    if up {
        if selected > 0 { (selected - 1) as usize } else { selected }
    } else {
        if selected + 1 < len { (selected + 1) as usize } else { selected }
    }
}

/// In the session menu and in the power menu, Up moves the highlight one entry up and
/// stops at the first; Down moves it one entry down and stops at the last (a menu with
/// entries is needed for Down). Nothing else changes and nothing is asked.
pub proof fn lemma_menu_navigation(g: GreeterView, control: bool, debug_exit: bool)
    requires
        !g.working,
        g.mode == Mode::Sessions || g.mode == Mode::Power,
    ensures
        ({
            let up = Key { code: KeyCode::Up, control };
            let down = Key { code: KeyCode::Down, control };
            &&& !key_panics(g, up, debug_exit)
            &&& key_effect(g, up, debug_exit).1 == KeyActionView::Nothing
            &&& g.mode == Mode::Sessions ==> key_effect(g, up, debug_exit).0 == GreeterView {
                sessions: crate::menu::MenuView {
                    selected: moved_highlight(g.sessions.selected, g.sessions.options.len() as int, true),
                    ..g.sessions
                },
                ..g
            }
            &&& g.mode == Mode::Power ==> key_effect(g, up, debug_exit).0 == GreeterView {
                powers: crate::menu::MenuView {
                    selected: moved_highlight(g.powers.selected, g.powers.options.len() as int, true),
                    ..g.powers
                },
                ..g
            }
            &&& g.mode == Mode::Sessions && g.sessions.options.len() > 0 ==> {
                &&& !key_panics(g, down, debug_exit)
                &&& key_effect(g, down, debug_exit).1 == KeyActionView::Nothing
                &&& key_effect(g, down, debug_exit).0 == GreeterView {
                    sessions: crate::menu::MenuView {
                        selected: moved_highlight(g.sessions.selected, g.sessions.options.len() as int, false),
                        ..g.sessions
                    },
                    ..g
                }
            }
            &&& g.mode == Mode::Power && g.powers.options.len() > 0 ==> {
                &&& !key_panics(g, down, debug_exit)
                &&& key_effect(g, down, debug_exit).1 == KeyActionView::Nothing
                &&& key_effect(g, down, debug_exit).0 == GreeterView {
                    powers: crate::menu::MenuView {
                        selected: moved_highlight(g.powers.selected, g.powers.options.len() as int, false),
                        ..g.powers
                    },
                    ..g
                }
            }
        }),
{
}

/// In the session menu, Down and then Up comes back to the same state where there is
/// an entry below the highlight, and Up and then Down does where there is one above.
pub proof fn lemma_menu_down_then_up(g: GreeterView, debug_exit: bool)
    requires
        !g.working,
        g.mode == Mode::Sessions,
        g.sessions.options.len() <= usize::MAX,
    ensures
        ({
            let up = Key { code: KeyCode::Up, control: false };
            let down = Key { code: KeyCode::Down, control: false };
            &&& g.sessions.selected + 1 < g.sessions.options.len() ==> key_effect(
                key_effect(g, down, debug_exit).0,
                up,
                debug_exit,
            ).0 == g
            &&& g.sessions.selected > 0 && g.sessions.selected < g.sessions.options.len() ==> key_effect(
                key_effect(g, up, debug_exit).0,
                down,
                debug_exit,
            ).0 == g
        }),
{
    let up = Key { code: KeyCode::Up, control: false };
    let down = Key { code: KeyCode::Down, control: false };
    if g.sessions.selected + 1 < g.sessions.options.len() {
        assert(rule_of(g, down, debug_exit) == Rule::Down);
        let g1 = key_effect(g, down, debug_exit).0;
        assert(g1.sessions.selected == g.sessions.selected + 1);
        assert(rule_of(g1, up, debug_exit) == Rule::Up);
        let g2 = key_effect(g1, up, debug_exit).0;
        assert(g2.sessions == g.sessions);
        assert(g2 == g);
    }
    if g.sessions.selected > 0 && g.sessions.selected < g.sessions.options.len() {
        assert(rule_of(g, up, debug_exit) == Rule::Up);
        let g1 = key_effect(g, up, debug_exit).0;
        assert(g1.sessions.selected == g.sessions.selected - 1);
        assert(rule_of(g1, down, debug_exit) == Rule::Down);
        let g2 = key_effect(g1, down, debug_exit).0;
        assert(g2.sessions == g.sessions);
        assert(g2 == g);
    }
}

} // verus!
