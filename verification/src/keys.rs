//! Keyboard input: what a key press sends to a virtual machine's terminal.

use vstd::prelude::*;
use vstd::utf8::encode_scalar;

use crate::fabrial::{data_message, data_message_bytes, resize_message, resize_message_bytes};

verus! {

/// A key, as the terminal reports it.
#[derive(Clone, Copy, Debug, PartialEq, Eq, Structural)]
pub enum KeyCode {
    Char(char),
    Backspace,
    Enter,
    Tab,
    Esc,
    Delete,
    Up,
    Down,
    Left,
    Right,
    /// Function key `F1` to `F12` (and beyond)
    F(u8),
    /// Any other key
    Other,
}

/// The modifier keys held with a key.
#[derive(Clone, Copy, Debug, PartialEq, Eq, Structural)]
pub enum KeyModifiers {
    /// No modifier
    Empty,
    /// Control alone
    Control,
    /// Shift alone
    Shift,
    /// Any other combination
    Other,
}

/// What happened to a key.
#[derive(Clone, Copy, Debug, PartialEq, Eq, Structural)]
pub enum KeyEventKind {
    Press,
    Repeat,
    Release,
}

/// A key event.
#[derive(Clone, Copy, Debug, PartialEq, Eq, Structural)]
pub struct KeyEvent {
    pub code: KeyCode,
    pub modifiers: KeyModifiers,
    pub kind: KeyEventKind,
}

/// An event of the terminal.
#[derive(Clone, Copy, Debug, PartialEq, Eq, Structural)]
pub enum TermEvent {
    Key(KeyEvent),
    /// The terminal was resized to `cols` columns and `rows` rows.
    Resize { cols: u16, rows: u16 },
    /// Any other event
    Other,
}

/// Encodes a character as UTF-8 (as `char::encode_utf8` does).
pub fn encode_char(c: char) -> (v: Vec<u8>)
    ensures
        v@ == encode_scalar(c as u32),
{
    let x: u32 = c as u32;
    let mut v: Vec<u8> = Vec::new();
    if x <= 0x7F {
        v.push((x & 0x7F) as u8);
    } else if x <= 0x7FF {
        v.push(0xC0 | ((x >> 6) & 0x1F) as u8);
        v.push(0x80 | (x & 0x3F) as u8);
    } else if x <= 0xFFFF {
        v.push(0xE0 | ((x >> 12) & 0x0F) as u8);
        v.push(0x80 | ((x >> 6) & 0x3F) as u8);
        v.push(0x80 | (x & 0x3F) as u8);
    } else {
        v.push(0xF0 | ((x >> 18) & 0x7) as u8);
        v.push(0x80 | ((x >> 12) & 0x3F) as u8);
        v.push(0x80 | ((x >> 6) & 0x3F) as u8);
        v.push(0x80 | (x & 0x3F) as u8);
    }
    proof {
        vstd::utf8::char_is_scalar(c);
    }
    v
}

/// The arrow keys written as ANSI CSI cursor sequences: Up is ESC [ A,
/// Down ESC [ B, Right (cursor forward) ESC [ C and Left (cursor back)
/// ESC [ D.
pub open spec fn cursor_key_writes_csi(code: KeyCode, a: EventAction) -> bool {
    &&& code == KeyCode::Up ==> (a matches EventAction::Write(v) && v@ == seq![0x1Bu8, 0x5Bu8, 0x41u8])
    &&& code == KeyCode::Down ==> (a matches EventAction::Write(v) && v@ == seq![0x1Bu8, 0x5Bu8, 0x42u8])
    &&& code == KeyCode::Right ==> (a matches EventAction::Write(v) && v@ == seq![0x1Bu8, 0x5Bu8, 0x43u8])
    &&& code == KeyCode::Left ==> (a matches EventAction::Write(v) && v@ == seq![0x1Bu8, 0x5Bu8, 0x44u8])
}

/// The arrow keys sent as VT100 SS3 cursor sequences: Up is ESC O A, Down
/// ESC O B, Right (cursor forward) ESC O C and Left (cursor back) ESC O D.
pub open spec fn cursor_key_is_ss3(code: KeyCode, bytes: Seq<u8>) -> bool {
    &&& code == KeyCode::Up ==> bytes == seq![0x1Bu8, 0x4Fu8, 0x41u8]
    &&& code == KeyCode::Down ==> bytes == seq![0x1Bu8, 0x4Fu8, 0x42u8]
    &&& code == KeyCode::Right ==> bytes == seq![0x1Bu8, 0x4Fu8, 0x43u8]
    &&& code == KeyCode::Left ==> bytes == seq![0x1Bu8, 0x4Fu8, 0x44u8]
}

/// What the virtual machine runner does with a terminal event.
#[derive(Debug)]
pub enum EventAction {
    /// Stop the runner
    Quit,
    /// Write these bytes to the active terminal
    Write(Vec<u8>),
    /// Resize every terminal
    Resize { rows: u16, cols: u16 },
    /// Nothing
    Ignore,
}

/// The bytes the runner sends for an unmodified key, `None` for a key it
/// ignores (F4 quits instead).
pub open spec fn runner_key_bytes(code: KeyCode) -> Option<Seq<u8>> {
    match code {
        KeyCode::Char(c) => Some(encode_scalar(c as u32)),
        KeyCode::Esc => Some(seq![0x1Bu8]),
        KeyCode::Enter => Some(seq![0x0Au8]),
        KeyCode::Backspace => Some(seq![0x08u8]),
        KeyCode::Delete => Some(seq![0x7Fu8]),
        KeyCode::Tab => Some(seq![0x09u8]),
        KeyCode::Up => Some(seq![0x1Bu8, 0x5B, 0x41]),
        KeyCode::Down => Some(seq![0x1Bu8, 0x5B, 0x42]),
        KeyCode::Right => Some(seq![0x1Bu8, 0x5B, 0x43]),
        KeyCode::Left => Some(seq![0x1Bu8, 0x5B, 0x44]),
        _ => None,
    }
}

/// The control character sent for Control and a letter, for the letters
/// the terminal passes on (`d`, `r`, `u`, `z`).
pub open spec fn runner_ctrl_bytes(code: KeyCode) -> Option<Seq<u8>> {
    match code {
        KeyCode::Char('d') => Some(seq![0x04u8]),
        KeyCode::Char('r') => Some(seq![0x12u8]),
        KeyCode::Char('u') => Some(seq![0x15u8]),
        KeyCode::Char('z') => Some(seq![0x1Au8]),
        _ => None,
    }
}

/// The action for a terminal event: key presses without modifier or with
/// Control alone are handled, releases and repeats are not.
pub open spec fn runner_action_matches(ev: TermEvent, a: EventAction) -> bool {
    match ev {
        TermEvent::Key(k) => if k.kind == KeyEventKind::Press && k.modifiers == KeyModifiers::Empty
            && k.code == KeyCode::F(4) {
            a is Quit
        } else {
            let bytes = if k.kind != KeyEventKind::Press {
                None
            } else if k.modifiers == KeyModifiers::Empty {
                runner_key_bytes(k.code)
            } else if k.modifiers == KeyModifiers::Control {
                runner_ctrl_bytes(k.code)
            } else {
                None
            };
            match bytes {
                Some(b) => a matches EventAction::Write(v) && v@ == b,
                None => a is Ignore,
            }
        },
        TermEvent::Resize { cols, rows } => a matches EventAction::Resize { rows: r, cols: c } && r
            == rows && c == cols,
        TermEvent::Other => a is Ignore,
    }
}

/// Keyboard state of the runner's terminal user interface.
#[derive(Debug, Default)]
pub struct EventHandler {
    pub shift: bool,
    pub ctrl: bool,
    pub alt: bool,
    pub meta: bool,
}

impl EventHandler {
    /// Decides what to do with a terminal event.
    pub fn handle(&mut self, ev: TermEvent) -> (a: EventAction)
        ensures
            runner_action_matches(ev, a),
            match ev {
                TermEvent::Key(k) => k.kind == KeyEventKind::Press && k.modifiers == KeyModifiers::Empty
                    ==> cursor_key_writes_csi(k.code, a),
                _ => true,
            },
            *final(self) == *old(self),
    {
        match ev {
            TermEvent::Key(key) => match key.kind {
                KeyEventKind::Press => match key.modifiers {
                    KeyModifiers::Control => self.handle_ctrl_key_press(key),
                    KeyModifiers::Empty => self.handle_key_press(key),
                    _ => EventAction::Ignore,
                },
                _ => EventAction::Ignore,
            },
            TermEvent::Resize { cols, rows } => EventAction::Resize { rows, cols },
            TermEvent::Other => EventAction::Ignore,
        }
    }

    fn handle_key_press(&mut self, key: KeyEvent) -> (a: EventAction)
        ensures
            key.code == KeyCode::F(4) ==> a is Quit,
            key.code != KeyCode::F(4) ==> match runner_key_bytes(key.code) {
                Some(b) => a matches EventAction::Write(v) && v@ == b,
                None => a is Ignore,
            },
            cursor_key_writes_csi(key.code, a),
            *final(self) == *old(self),
    {
        match key.code {
            KeyCode::F(4) => EventAction::Quit,
            KeyCode::Char(c) => EventAction::Write(encode_char(c)),
            KeyCode::Esc => EventAction::Write(vec![0x1B]),
            KeyCode::Enter => EventAction::Write(vec![0x0A]),
            KeyCode::Backspace => EventAction::Write(vec![0x08]),
            KeyCode::Delete => EventAction::Write(vec![0x7F]),
            KeyCode::Tab => EventAction::Write(vec![0x09]),
            KeyCode::Up => EventAction::Write(vec![0x1B, 0x5B, 0x41]),
            KeyCode::Down => EventAction::Write(vec![0x1B, 0x5B, 0x42]),
            KeyCode::Right => EventAction::Write(vec![0x1B, 0x5B, 0x43]),
            KeyCode::Left => EventAction::Write(vec![0x1B, 0x5B, 0x44]),
            _ => EventAction::Ignore,
        }
    }

    fn handle_ctrl_key_press(&mut self, key: KeyEvent) -> (a: EventAction)
        ensures
            match runner_ctrl_bytes(key.code) {
                Some(b) => a matches EventAction::Write(v) && v@ == b,
                None => a is Ignore,
            },
            *final(self) == *old(self),
    {
        match key.code {
            KeyCode::Char('d') => EventAction::Write(vec![0x04]),
            KeyCode::Char('r') => EventAction::Write(vec![0x12]),
            KeyCode::Char('u') => EventAction::Write(vec![0x15]),
            KeyCode::Char('z') => EventAction::Write(vec![0x1A]),
            _ => EventAction::Ignore,
        }
    }
}


/// The bytes the standalone virtual machine viewer writes for a pressed
/// key, whatever its modifiers; `None` for a key it does not pass on.
pub open spec fn viewer_key_bytes(code: KeyCode) -> Option<Seq<u8>> {
    match code {
        KeyCode::Char(c) => Some(encode_scalar(c as u32)),
        KeyCode::Esc => Some(seq![0x1Bu8]),
        KeyCode::Enter => Some(seq![0x0Au8]),
        KeyCode::Backspace => Some(seq![0x08u8]),
        KeyCode::Delete => Some(seq![0x7Fu8]),
        KeyCode::Up => Some(seq![0x1Bu8, 0x5B, 0x41]),
        KeyCode::Down => Some(seq![0x1Bu8, 0x5B, 0x42]),
        KeyCode::Right => Some(seq![0x1Bu8, 0x5B, 0x43]),
        KeyCode::Left => Some(seq![0x1Bu8, 0x5B, 0x44]),
        _ => None,
    }
}

/// What the standalone virtual machine viewer does with a terminal event:
/// F4 quits, other pressed keys are written, resizes resize the screen,
/// everything else is ignored.
pub open spec fn viewer_action_matches(ev: TermEvent, a: EventAction) -> bool {
    match ev {
        TermEvent::Key(k) => if k.kind != KeyEventKind::Press {
            a is Ignore
        } else if k.code == KeyCode::F(4) {
            a is Quit
        } else {
            match viewer_key_bytes(k.code) {
                Some(b) => a matches EventAction::Write(v) && v@ == b,
                None => a is Ignore,
            }
        },
        TermEvent::Resize { cols, rows } => a matches EventAction::Resize { rows: r, cols: c } && r
            == rows && c == cols,
        TermEvent::Other => a is Ignore,
    }
}

/// Decides what the standalone virtual machine viewer does with a terminal
/// event.
pub fn viewer_handle(ev: TermEvent) -> (a: EventAction)
    ensures
        viewer_action_matches(ev, a),
        match ev {
            TermEvent::Key(k) => k.kind == KeyEventKind::Press ==> cursor_key_writes_csi(k.code, a),
            _ => true,
        },
{
    match ev {
        TermEvent::Key(key) => match key.kind {
            KeyEventKind::Press => viewer_key_press(key.code),
            _ => EventAction::Ignore,
        },
        TermEvent::Resize { cols, rows } => EventAction::Resize { rows, cols },
        TermEvent::Other => EventAction::Ignore,
    }
}

fn viewer_key_press(code: KeyCode) -> (a: EventAction)
    ensures
        code == KeyCode::F(4) ==> a is Quit,
        code != KeyCode::F(4) ==> match viewer_key_bytes(code) {
            Some(b) => a matches EventAction::Write(v) && v@ == b,
            None => a is Ignore,
        },
        cursor_key_writes_csi(code, a),
{
    match code {
        KeyCode::F(4) => EventAction::Quit,
        KeyCode::Char(c) => EventAction::Write(encode_char(c)),
        KeyCode::Esc => EventAction::Write(vec![0x1B]),
        KeyCode::Enter => EventAction::Write(vec![0x0A]),
        KeyCode::Backspace => EventAction::Write(vec![0x08]),
        KeyCode::Delete => EventAction::Write(vec![0x7F]),
        KeyCode::Up => EventAction::Write(vec![0x1B, 0x5B, 0x41]),
        KeyCode::Down => EventAction::Write(vec![0x1B, 0x5B, 0x42]),
        KeyCode::Right => EventAction::Write(vec![0x1B, 0x5B, 0x43]),
        KeyCode::Left => EventAction::Write(vec![0x1B, 0x5B, 0x44]),
        _ => EventAction::Ignore,
    }
}

/// The bytes the shard console client sends for a key with its modifiers
/// (empty for a key it does not pass on).
pub open spec fn console_key_bytes(code: KeyCode, mods: KeyModifiers) -> Seq<u8> {
    match mods {
        KeyModifiers::Empty => match code {
            KeyCode::Char(c) => encode_scalar(c as u32),
            KeyCode::Backspace => seq![0x08u8],
            KeyCode::Tab => seq![0x09u8],
            KeyCode::Enter => seq![0x0Au8],
            KeyCode::Up => seq![0x1Bu8, 0x4F, 0x41],
            KeyCode::Down => seq![0x1Bu8, 0x4F, 0x42],
            KeyCode::Right => seq![0x1Bu8, 0x4F, 0x43],
            KeyCode::Left => seq![0x1Bu8, 0x4F, 0x44],
            KeyCode::F(1) => seq![0x1Bu8, 0x4F, 0x50],
            KeyCode::F(2) => seq![0x1Bu8, 0x4F, 0x51],
            KeyCode::F(3) => seq![0x1Bu8, 0x4F, 0x52],
            KeyCode::F(4) => seq![0x1Bu8, 0x4F, 0x53],
            KeyCode::F(5) => seq![0x1Bu8, 0x5B, 0x31, 0x35, 0x7E],
            KeyCode::F(6) => seq![0x1Bu8, 0x5B, 0x31, 0x37, 0x7E],
            KeyCode::F(7) => seq![0x1Bu8, 0x5B, 0x31, 0x38, 0x7E],
            KeyCode::F(8) => seq![0x1Bu8, 0x5B, 0x31, 0x39, 0x7E],
            KeyCode::F(9) => seq![0x1Bu8, 0x5B, 0x32, 0x30, 0x7E],
            KeyCode::F(10) => seq![0x1Bu8, 0x5B, 0x32, 0x31, 0x7E],
            KeyCode::F(11) => seq![0x1Bu8, 0x5B, 0x32, 0x33, 0x7E],
            KeyCode::F(12) => seq![0x1Bu8, 0x5B, 0x32, 0x34, 0x7E],
            _ => Seq::empty(),
        },
        KeyModifiers::Control => match code {
            KeyCode::Char('c') => seq![0x03u8],
            KeyCode::Char('d') => seq![0x04u8],
            KeyCode::Char('r') => seq![0x12u8],
            KeyCode::Char('u') => seq![0x15u8],
            KeyCode::Char('z') => seq![0x1Au8],
            _ => Seq::empty(),
        },
        KeyModifiers::Shift => match code {
            KeyCode::Char(c) => encode_scalar(c as u32),
            _ => Seq::empty(),
        },
        KeyModifiers::Other => Seq::empty(),
    }
}

/// Encodes a key event for the shard console (VT100 sequences for the
/// cursor and function keys, control characters for Control and a letter).
pub fn encode_key(ev: &KeyEvent) -> (v: Vec<u8>)
    ensures
        v@ == console_key_bytes(ev.code, ev.modifiers),
        ev.modifiers == KeyModifiers::Empty ==> cursor_key_is_ss3(ev.code, v@),
{
    match ev.modifiers {
        KeyModifiers::Empty => match ev.code {
            KeyCode::Char(ch) => encode_char(ch),
            KeyCode::Backspace => vec![0x08],
            KeyCode::Tab => vec![0x09],
            KeyCode::Enter => vec![0x0A],
            KeyCode::Up => vec![0x1B, 0x4F, 0x41],
            KeyCode::Down => vec![0x1B, 0x4F, 0x42],
            KeyCode::Right => vec![0x1B, 0x4F, 0x43],
            KeyCode::Left => vec![0x1B, 0x4F, 0x44],
            KeyCode::F(1) => vec![0x1B, 0x4F, 0x50],
            KeyCode::F(2) => vec![0x1B, 0x4F, 0x51],
            KeyCode::F(3) => vec![0x1B, 0x4F, 0x52],
            KeyCode::F(4) => vec![0x1B, 0x4F, 0x53],
            KeyCode::F(5) => vec![0x1B, 0x5B, 0x31, 0x35, 0x7E],
            KeyCode::F(6) => vec![0x1B, 0x5B, 0x31, 0x37, 0x7E],
            KeyCode::F(7) => vec![0x1B, 0x5B, 0x31, 0x38, 0x7E],
            KeyCode::F(8) => vec![0x1B, 0x5B, 0x31, 0x39, 0x7E],
            KeyCode::F(9) => vec![0x1B, 0x5B, 0x32, 0x30, 0x7E],
            KeyCode::F(10) => vec![0x1B, 0x5B, 0x32, 0x31, 0x7E],
            KeyCode::F(11) => vec![0x1B, 0x5B, 0x32, 0x33, 0x7E],
            KeyCode::F(12) => vec![0x1B, 0x5B, 0x32, 0x34, 0x7E],
            _ => Vec::new(),
        },
        KeyModifiers::Control => match ev.code {
            KeyCode::Char('c') => vec![0x03],
            KeyCode::Char('d') => vec![0x04],
            KeyCode::Char('r') => vec![0x12],
            KeyCode::Char('u') => vec![0x15],
            KeyCode::Char('z') => vec![0x1A],
            _ => Vec::new(),
        },
        KeyModifiers::Shift => match ev.code {
            KeyCode::Char(ch) => encode_char(ch),
            _ => Vec::new(),
        },
        KeyModifiers::Other => Vec::new(),
    }
}

/// The message the shard console client sends to the virtual machine for
/// a terminal event: a data message with the bytes of a key it passes on,
/// a resize message when the terminal is resized, nothing otherwise.
pub fn console_message(ev: TermEvent) -> (m: Option<Vec<u8>>)
    ensures
        match ev {
            TermEvent::Key(k) => if console_key_bytes(k.code, k.modifiers).len() > 0 {
                m matches Some(v) && v@ == data_message_bytes(console_key_bytes(k.code, k.modifiers))
            } else {
                m is None
            },
            TermEvent::Resize { cols, rows } => m matches Some(v) && v@ == resize_message_bytes(
                rows,
                cols,
            ),
            TermEvent::Other => m is None,
        },
{
    match ev {
        TermEvent::Key(k) => {
            let bytes = encode_key(&k);
            if bytes.len() > 0 {
                Some(data_message(bytes.as_slice()))
            } else {
                None
            }
        },
        TermEvent::Resize { cols, rows } => {
            let m = resize_message(rows, cols);
            let mut v: Vec<u8> = Vec::new();
            v.extend_from_slice(m.as_slice());
            Some(v)
        },
        TermEvent::Other => None,
    }
}

/// The runner's terminal interface moves the cursor the way the arrow
/// pressed points: for every pressed arrow key without modifier, Right
/// writes cursor forward (ESC [ C) and Left cursor back (ESC [ D), Up and
/// Down ESC [ A and ESC [ B; the four sequences are distinct, so no two
/// arrows move the cursor the same way.
pub proof fn lemma_runner_arrows_move_cursor(k: KeyEvent, a: EventAction)
    requires
        k.kind == KeyEventKind::Press,
        k.modifiers == KeyModifiers::Empty,
        runner_action_matches(TermEvent::Key(k), a),
    ensures
        cursor_key_writes_csi(k.code, a),
        k.code == KeyCode::Right ==> (a matches EventAction::Write(v) && v@.len() == 3 && v@[0] == 0x1B
            && v@[1] == 0x5B && v@[2] == 0x43),
        k.code == KeyCode::Left ==> (a matches EventAction::Write(v) && v@.len() == 3 && v@[0] == 0x1B
            && v@[1] == 0x5B && v@[2] == 0x44),
{
}

/// The standalone viewer moves the cursor the way the arrow pressed
/// points, whatever the modifiers: Right writes ESC [ C and Left ESC [ D,
/// Up and Down ESC [ A and ESC [ B.
pub proof fn lemma_viewer_arrows_move_cursor(k: KeyEvent, a: EventAction)
    requires
        k.kind == KeyEventKind::Press,
        viewer_action_matches(TermEvent::Key(k), a),
    ensures
        cursor_key_writes_csi(k.code, a),
        k.code == KeyCode::Right ==> (a matches EventAction::Write(v) && v@.len() == 3 && v@[2] == 0x43),
        k.code == KeyCode::Left ==> (a matches EventAction::Write(v) && v@.len() == 3 && v@[2] == 0x44),
{
}

/// The shard console sends the arrow keys without modifier as VT100 SS3
/// cursor sequences (ESC O then A, B, C, D for Up, Down, Right, Left): the
/// same final byte as the runner's ANSI CSI sequence for that key, so Right
/// moves the cursor forward and Left back in both; with a modifier held an
/// arrow is not sent at all.
pub proof fn lemma_console_arrows_move_cursor(code: KeyCode, mods: KeyModifiers)
    requires
        code == KeyCode::Up || code == KeyCode::Down || code == KeyCode::Right || code == KeyCode::Left,
    ensures
        mods == KeyModifiers::Empty ==> cursor_key_is_ss3(code, console_key_bytes(code, mods)),
        mods == KeyModifiers::Empty ==> console_key_bytes(code, mods) == seq![0x1Bu8, 0x4Fu8]
            + runner_key_bytes(code)->0.subrange(2, 3),
        mods == KeyModifiers::Empty && code == KeyCode::Right ==> console_key_bytes(code, mods) == seq![
            0x1Bu8,
            0x4Fu8,
            0x43u8,
        ],
        mods == KeyModifiers::Empty && code == KeyCode::Left ==> console_key_bytes(code, mods) == seq![
            0x1Bu8,
            0x4Fu8,
            0x44u8,
        ],
        mods != KeyModifiers::Empty ==> console_key_bytes(code, mods).len() == 0,
{
    if mods == KeyModifiers::Empty {
        assert(console_key_bytes(code, mods) =~= seq![0x1Bu8, 0x4Fu8] + runner_key_bytes(code)->0.subrange(2, 3));
    }
}

} // verus!
