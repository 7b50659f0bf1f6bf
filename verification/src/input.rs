//! What the keys do.
//!
//! [`on_event`] takes one event of the terminal and says what is to be done outside the
//! state: [`Action::Convert`] is answered with [`App::finish_convert`], [`Action::Paste`]
//! with [`App::paste`], [`Action::CopyColor`] with [`App::color_copied`] and
//! [`Action::CopyHex`] with [`App::hex_copied`].

use crate::app::{App, AppView, Field};
use crate::clipboard::{cmyk_text, format_cmyk, format_rgb, rgb_text};
use crate::hex::{cuts_between_chars, hex_color, is_cut_between_chars};
use crate::text::{trim, trimmed};
use vstd::prelude::*;

verus! {

/// A key.
#[derive(Clone, Copy, Debug, PartialEq, Eq)]
pub enum KeyCode {
    Esc,
    Tab,
    BackTab,
    Enter,
    Backspace,
    Char(char),
    Other,
}

/// What happened to a key, and whether Control and Alt were held.
#[derive(Clone, Copy, Debug, PartialEq, Eq)]
pub struct KeyEvent {
    pub code: KeyCode,
    pub pressed: bool,
    pub control: bool,
    pub alt: bool,
}

/// An event of the terminal.
#[derive(Clone, Copy, Debug, PartialEq, Eq)]
pub enum Event {
    Key(KeyEvent),
    Other,
}

/// What is to be done outside the state.
#[derive(Debug, PartialEq, Eq)]
pub enum Action {
    /// Nothing: wait for the next event.
    Continue,
    /// Leave the application.
    Quit,
    /// Read the two profiles, and convert the colour with them.
    Convert { rgb: (u8, u8, u8), srgb_path: String, cmyk_path: String },
    /// Read the clipboard.
    Paste,
    /// Put a colour or its inks on the clipboard.
    CopyColor { text: String },
    /// Put the HEX code on the clipboard.
    CopyHex { text: String },
}

/// An [`Action`] with its strings seen as their characters.
#[verifier::ext_equal]
pub enum ActionView {
    Continue,
    Quit,
    Convert { rgb: (u8, u8, u8), srgb_path: Seq<char>, cmyk_path: Seq<char> },
    Paste,
    CopyColor { text: Seq<char> },
    CopyHex { text: Seq<char> },
}

impl View for Action {
    type V = ActionView;

    open spec fn view(&self) -> ActionView {
        match self {
            Action::Continue => ActionView::Continue,
            Action::Quit => ActionView::Quit,
            Action::Convert { rgb, srgb_path, cmyk_path } => ActionView::Convert {
                rgb: *rgb,
                srgb_path: srgb_path@,
                cmyk_path: cmyk_path@,
            },
            Action::Paste => ActionView::Paste,
            Action::CopyColor { text } => ActionView::CopyColor { text: text@ },
            Action::CopyHex { text } => ActionView::CopyHex { text: text@ },
        }
    }
}

/// Whether `c` is the key V, on the Latin or on the Russian layout.
pub open spec fn is_paste_key(c: char) -> bool {
    c == 'v' || c == 'V' || c == 'м' || c == 'М'
}

/// Whether `c` is the key R, on the Latin or on the Russian layout.
pub open spec fn is_rgb_key(c: char) -> bool {
    c == 'r' || c == 'R' || c == 'к' || c == 'К'
}

/// Whether `c` is the key C, on the Latin or on the Russian layout.
pub open spec fn is_cmyk_key(c: char) -> bool {
    c == 'c' || c == 'C' || c == 'с' || c == 'С'
}

/// Whether `c` is the key H, on the Latin or on the Russian layout.
pub open spec fn is_hex_key(c: char) -> bool {
    c == 'h' || c == 'H' || c == 'р' || c == 'Р'
}

impl AppView {
    /// Whether `key` starts a conversion.
    pub open spec fn starts_conversion(self, key: KeyCode) -> bool {
        key is Enter && self.focus == Field::Hex
    }

    /// The state after a key without Control.
    pub open spec fn after_key(self, key: KeyCode) -> AppView {
        let text = self.field(self.focus);
        match key {
            KeyCode::Tab => AppView { focus: self.focus.next(), ..self },
            KeyCode::BackTab => AppView { focus: self.focus.prev(), ..self },
            KeyCode::Enter => if self.starts_conversion(key) {
                self.with_code_read()
            } else {
                AppView { focus: self.focus.next(), ..self }
            },
            KeyCode::Backspace => if text.len() == 0 {
                self
            } else {
                self.with_current(text.drop_last())
            },
            KeyCode::Char(c) => self.with_current(text.push(c)),
            KeyCode::Esc | KeyCode::Other => self,
        }
    }

    /// What is to be done after a key without Control.
    pub open spec fn key_action(self, key: KeyCode) -> ActionView {
        if key is Esc {
            ActionView::Quit
        } else if self.starts_conversion(key) && hex_color(self.hex_input) is Ok {
            ActionView::Convert {
                rgb: hex_color(self.hex_input)->Ok_0,
                srgb_path: self.srgb_path,
                cmyk_path: self.cmyk_path,
            }
        } else {
            ActionView::Continue
        }
    }

    /// What is to be done after a key with Control.
    pub open spec fn control_action(self, key: KeyCode, alt: bool) -> ActionView {
        match key {
            KeyCode::Char(c) => if is_paste_key(c) {
                ActionView::Paste
            } else if is_rgb_key(c) && self.rgb is Some {
                ActionView::CopyColor { text: rgb_text(self.rgb->Some_0, alt) }
            } else if is_cmyk_key(c) && self.cmyk is Some {
                ActionView::CopyColor { text: cmyk_text(self.cmyk->Some_0, alt) }
            } else if is_hex_key(c) {
                ActionView::CopyHex { text: trimmed(self.hex_input) }
            } else {
                ActionView::Continue
            },
            _ => ActionView::Continue,
        }
    }

    /// Whether an event is a key pressed without Control.
    pub open spec fn types(self, event: Event) -> bool {
        event matches Event::Key(key) && key.pressed && !key.control
    }

    /// Whether an event can be handed to [`on_event`]: one that starts a conversion needs a
    /// HEX code that is cut between its characters.
    pub open spec fn accepts(self, event: Event) -> bool {
        self.types(event) && self.starts_conversion(event->Key_0.code) ==> cuts_between_chars(
            self.hex_input,
        )
    }

    /// The state after an event.
    pub open spec fn after_event(self, event: Event) -> AppView {
        if self.types(event) {
            self.after_key(event->Key_0.code)
        } else {
            self
        }
    }

    /// What is to be done after an event.
    pub open spec fn event_action(self, event: Event) -> ActionView {
        match event {
            Event::Key(key) => if !key.pressed {
                ActionView::Continue
            } else if key.control {
                self.control_action(key.code, key.alt)
            } else {
                self.key_action(key.code)
            },
            Event::Other => ActionView::Continue,
        }
    }
}

/// Takes in a key that was pressed without Control.
pub fn handle_key(app: &mut App, key: KeyCode) -> (action: Action)
    requires
        old(app)@.starts_conversion(key) ==> cuts_between_chars(old(app)@.hex_input),
    ensures
        final(app)@ == old(app)@.after_key(key),
        action@ == old(app)@.key_action(key),
{
    match key {
        KeyCode::Esc => return Action::Quit,
        KeyCode::Tab => app.next_field(),
        KeyCode::BackTab => app.prev_field(),
        KeyCode::Enter => {
            if app.focus == Field::Hex {
                if let Some(rgb) = app.convert() {
                    return Action::Convert {
                        rgb,
                        srgb_path: app.srgb_path.clone(),
                        cmyk_path: app.cmyk_path.clone(),
                    };
                }
            } else {
                app.next_field();
            }
        },
        KeyCode::Backspace => {
            let field = app.current_field_mut();
            field.pop();
        },
        KeyCode::Char(c) => {
            let field = app.current_field_mut();
            field.push(c);
        },
        KeyCode::Other => {},
    }
    Action::Continue
}

/// Takes in a command key: there is none yet that does anything.
pub fn handle_command_key(app: &mut App, key: KeyCode)
    ensures
        *final(app) == *old(app),
{
    match key {
        KeyCode::Char(c) if c == 'c' && app.cmyk.is_some() && app.hex_input.as_str().is_empty() => {},
        _ => {},
    }
}

/// Takes in a key that was pressed with Control: the clipboard commands.
pub fn handle_control_key(app: &App, key: KeyCode, alt: bool) -> (action: Action)
    ensures
        action@ == app@.control_action(key, alt),
{
    if let KeyCode::Char(c) = key {
        if c == 'v' || c == 'V' || c == 'м' || c == 'М' {
            return Action::Paste;
        }
        if c == 'r' || c == 'R' || c == 'к' || c == 'К' {
            if let Some(rgb) = app.rgb {
                return Action::CopyColor { text: format_rgb(rgb, alt) };
            }
        }
        if c == 'c' || c == 'C' || c == 'с' || c == 'С' {
            if let Some(cmyk) = app.cmyk {
                return Action::CopyColor { text: format_cmyk(cmyk, alt) };
            }
        }
        if c == 'h' || c == 'H' || c == 'р' || c == 'Р' {
            return Action::CopyHex { text: trim(app.hex_input.as_str()).to_string() };
        }
    }
    Action::Continue
}

impl App {
    /// Whether `event` can be handed to [`on_event`].
    pub fn can_take(&self, event: Event) -> (r: bool)
        ensures
            r == self@.accepts(event),
    {
        match event {
            Event::Key(key) => match key.code {
                KeyCode::Enter => !key.pressed || key.control || self.focus != Field::Hex
                    || is_cut_between_chars(self.hex_input.as_str()),
                _ => true,
            },
            Event::Other => true,
        }
    }
}

/// Takes in an event of the terminal: keys count when they are pressed.
pub fn on_event(app: &mut App, event: Event) -> (action: Action)
    requires
        old(app)@.accepts(event),
    ensures
        final(app)@ == old(app)@.after_event(event),
        action@ == old(app)@.event_action(event),
{
    match event {
        Event::Key(key) => if !key.pressed {
            Action::Continue
        } else if key.control {
            handle_control_key(app, key.code, key.alt)
        } else {
            handle_key(app, key.code)
        },
        Event::Other => Action::Continue,
    }
}

} // verus!
