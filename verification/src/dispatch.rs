//! Key dispatch of the event loop: one external key event becomes zero or
//! one state mutation, decided by the current focus mode.
//!
//! The loop around it (blocking on the terminal for the next event,
//! rendering after each one) lives outside the library; it hands each
//! event in as a plain [`Key`] and [`KeyKind`] and stops when
//! [`App::handle_key`] says so.

use vstd::prelude::*;

use crate::state::App;
use crate::state::AppView;
use crate::state::Focus;
use crate::state::delete_view;
use crate::state::insert_view;
use crate::state::left_view;
use crate::state::right_view;
use crate::state::submit_view;

verus! {

/// The logical key of one input event.
#[derive(Clone, Copy, Debug, PartialEq, Eq, Structural)]
pub enum Key {
    Char(char),
    Enter,
    Backspace,
    Left,
    Right,
    Esc,
    Other,
}

/// Whether the event is a key press; releases and repeats only matter in
/// Editing mode, where they are ignored.
#[derive(Clone, Copy, Debug, PartialEq, Eq, Structural)]
pub enum KeyKind {
    Press,
    Other,
}

impl App {
    /// Dispatches one key event against the current focus mode and says
    /// whether the event loop must stop.
    ///
    /// In Normal focus, whatever the event kind: 'e' starts editing, 'q'
    /// asks to quit, everything else is ignored. In Editing focus, only
    /// presses act: Enter submits the guess, a character is inserted at
    /// the cursor, Backspace deletes before the cursor, the arrows move
    /// the cursor, Esc returns to Normal, everything else is ignored.
    pub fn handle_key(&mut self, key: Key, kind: KeyKind) -> (quit: bool)
        requires
            old(self)@.wf(),
        ensures
            final(self)@.wf(),
            quit == (old(self)@.focus is Normal && key == (Key::Char('q'))),
            old(self)@.focus is Normal ==> final(self)@ == if key == (Key::Char('e')) {
                (AppView { focus: Focus::Editing, ..old(self)@ })
            } else {
                old(self)@
            },
            old(self)@.focus is Editing && !(kind is Press) ==> final(self)@ == old(self)@,
            old(self)@.focus is Editing && kind is Press ==> match key {
                Key::Enter => exists|t: int|
                    0 <= t < 100 && final(self)@ == submit_view(old(self)@, t),
                Key::Char(c) => final(self)@ == insert_view(old(self)@, c),
                Key::Backspace => final(self)@ == delete_view(old(self)@),
                Key::Left => final(self)@ == left_view(old(self)@),
                Key::Right => final(self)@ == right_view(old(self)@),
                Key::Esc => final(self)@ == (AppView { focus: Focus::Normal, ..old(self)@ }),
                Key::Other => final(self)@ == old(self)@,
            },
    {
        match self.focus {
            Focus::Normal => match key {
                Key::Char(c) => {
                    if c == 'e' {
                        self.set_focus(Focus::Editing);
                        false
                    } else {
                        c == 'q'
                    }
                },
                _ => false,
            },
            Focus::Editing => {
                match kind {
                    KeyKind::Press => {
                        match key {
                            Key::Enter => self.submit_answer(),
                            Key::Char(c) => self.enter_char(c),
                            Key::Backspace => self.delete_char(),
                            Key::Left => self.move_cursor_left(),
                            Key::Right => self.move_cursor_right(),
                            Key::Esc => self.set_focus(Focus::Normal),
                            Key::Other => {},
                        }
                    },
                    KeyKind::Other => {},
                }
                false
            },
        }
    }
}

} // verus!
