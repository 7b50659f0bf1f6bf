//! What holds of the keys, key by key.

use crate::app::{App, AppView, Field, CONVERTED, HEX_PREFIX, NOT_CONVERTED};
use crate::clipboard::{
    cmyk_text, held_view, pasted_code, rgb_text, taken_view, ClipboardError, COPIED_PREFIX,
    HEX_COPIED, NO_COLOR, OPEN_PREFIX, PASTED_PREFIX, READ_PREFIX, WRITE_PREFIX,
};
use crate::clipboard_laws::{lemma_drop_leading_split, lemma_drop_trailing_split};
use crate::hex::{cuts_between_chars, hex_color};
use crate::input::{Action, ActionView, Event, KeyCode, KeyEvent};
use crate::style::Color;
use crate::text::{drop_leading, is_white_space, trimmed};
use vstd::prelude::*;

verus! {

/// A state is seen field by field.
pub proof fn law_state_is_seen_whole(app: App)
    ensures
        app@.hex_input == app.hex_input@,
        app@.srgb_path == app.srgb_path@,
        app@.cmyk_path == app.cmyk_path@,
        app@.rgb == app.rgb,
        app@.cmyk == app.cmyk,
        app.error is None ==> app@.error is None,
        app.error matches Some(e) ==> app@.error == Some(e@),
        app@.status == app.status@,
        app@.focus == app.focus,
        app@.preview_color == app.preview_color,
{
}

/// An action is seen with all that it carries.
pub proof fn law_action_is_seen_whole(action: Action)
    ensures
        match action {
            Action::Continue => action@ is Continue,
            Action::Quit => action@ is Quit,
            Action::Convert { rgb, srgb_path, cmyk_path } => action@ == (ActionView::Convert {
                rgb,
                srgb_path: srgb_path@,
                cmyk_path: cmyk_path@,
            }),
            Action::Paste => action@ is Paste,
            Action::CopyColor { text } => action@ == (ActionView::CopyColor { text: text@ }),
            Action::CopyHex { text } => action@ == (ActionView::CopyHex { text: text@ }),
        },
{
}

/// The HEX code comes first, then the path of the sRGB profile, then that of the CMYK
/// profile, then the HEX code again; backwards the same way round.
pub proof fn law_focus_order()
    ensures
        Field::Hex.next() == Field::SrgbPath,
        Field::SrgbPath.next() == Field::CmykPath,
        Field::CmykPath.next() == Field::Hex,
        Field::Hex.prev() == Field::CmykPath,
        Field::CmykPath.prev() == Field::SrgbPath,
        Field::SrgbPath.prev() == Field::Hex,
{
}

/// Each field has a text of its own, and to set the one in focus changes nothing else.
pub proof fn law_current_field_is_set(v: AppView, text: Seq<char>)
    ensures
        v.field(Field::Hex) == v.hex_input,
        v.field(Field::SrgbPath) == v.srgb_path,
        v.field(Field::CmykPath) == v.cmyk_path,
        ({
            let w = v.with_current(text);
            &&& w.hex_input == if v.focus == Field::Hex { text } else { v.hex_input }
            &&& w.srgb_path == if v.focus == Field::SrgbPath { text } else { v.srgb_path }
            &&& w.cmyk_path == if v.focus == Field::CmykPath { text } else { v.cmyk_path }
            &&& w == (AppView {
                hex_input: w.hex_input,
                srgb_path: w.srgb_path,
                cmyk_path: w.cmyk_path,
                ..v
            })
        }),
{
}

/// A typed character stands at the end of the field in focus, and nothing else changes.
pub proof fn law_typing_appends(v: AppView, c: char)
    ensures
        ({
            let w = v.after_key(KeyCode::Char(c));
            match v.focus {
                Field::Hex => w == (AppView { hex_input: v.hex_input.push(c), ..v }),
                Field::SrgbPath => w == (AppView { srgb_path: v.srgb_path.push(c), ..v }),
                Field::CmykPath => w == (AppView { cmyk_path: v.cmyk_path.push(c), ..v }),
            }
        }),
{
}

/// Backspace takes the last character of the field in focus, where there is one, and nothing
/// else changes.
pub proof fn law_backspace_takes_the_last(v: AppView)
    ensures
        ({
            let w = v.after_key(KeyCode::Backspace);
            let (s, t) = match v.focus {
                Field::Hex => (v.hex_input, w.hex_input),
                Field::SrgbPath => (v.srgb_path, w.srgb_path),
                Field::CmykPath => (v.cmyk_path, w.cmyk_path),
            };
            &&& s.len() == 0 ==> w == v
            &&& s.len() > 0 ==> t.len() == s.len() - 1 && forall|i: int|
                0 <= i < t.len() ==> #[trigger] t[i] == s[i]
            &&& v.focus != Field::Hex ==> w.hex_input == v.hex_input
            &&& v.focus != Field::SrgbPath ==> w.srgb_path == v.srgb_path
            &&& v.focus != Field::CmykPath ==> w.cmyk_path == v.cmyk_path
            &&& w == (AppView {
                hex_input: w.hex_input,
                srgb_path: w.srgb_path,
                cmyk_path: w.cmyk_path,
                ..v
            })
        }),
{
}

/// Tab, and Enter in a path, move the focus on; Shift+Tab moves it back; nothing else
/// changes. Esc and the other keys change nothing at all.
pub proof fn law_other_keys_move_the_focus(v: AppView)
    ensures
        v.after_key(KeyCode::Tab) == (AppView {
            focus: match v.focus {
                Field::Hex => Field::SrgbPath,
                Field::SrgbPath => Field::CmykPath,
                Field::CmykPath => Field::Hex,
            },
            ..v
        }),
        v.after_key(KeyCode::BackTab) == (AppView {
            focus: match v.focus {
                Field::Hex => Field::CmykPath,
                Field::SrgbPath => Field::Hex,
                Field::CmykPath => Field::SrgbPath,
            },
            ..v
        }),
        v.focus != Field::Hex ==> v.after_key(KeyCode::Enter) == v.after_key(KeyCode::Tab),
        v.after_key(KeyCode::Esc) == v,
        v.after_key(KeyCode::Other) == v,
{
}

/// Enter in the HEX field reads the code: a colour that is read is shown with its preview and
/// clears the error, the inks staying until the profiles have answered; a code that is refused
/// takes colour, inks and preview away and is told in the error. Nothing else changes.
pub proof fn law_enter_reads_the_code(v: AppView)
    requires
        v.focus == Field::Hex,
    ensures
        v.after_key(KeyCode::Enter) == v.with_code_read(),
        ({
            let w = v.with_code_read();
            match hex_color(v.hex_input) {
                Ok((r, g, b)) => {
                    &&& w.rgb == Some((r, g, b)) && w.preview_color == Some(Color::Rgb(r, g, b))
                    &&& w.error is None && w.cmyk == v.cmyk
                },
                Err(e) => {
                    &&& w.rgb is None && w.preview_color is None && w.cmyk is None
                    &&& w.error == Some(HEX_PREFIX@ + e)
                },
            }
        }),
        v.with_code_read().status == v.status && v.with_code_read().focus == v.focus,
        v.with_code_read().hex_input == v.hex_input,
        v.with_code_read().srgb_path == v.srgb_path && v.with_code_read().cmyk_path == v.cmyk_path,
{
}

/// What the profiles answer is shown: the inks, or none and why, each with its status. Nothing
/// else changes.
pub proof fn law_answers_are_shown(v: AppView, r: Result<(u8, u8, u8, u8), Seq<char>>)
    ensures
        ({
            let w = v.with_cmyk(r);
            &&& r matches Ok(inks) ==> w.cmyk == Some(inks) && w.error == v.error && w.status
                == CONVERTED@
            &&& r matches Err(e) ==> w.cmyk is None && w.error == Some(e) && w.status
                == NOT_CONVERTED@
            &&& w.rgb == v.rgb && w.preview_color == v.preview_color && w.focus == v.focus
            &&& w.hex_input == v.hex_input
            &&& w.srgb_path == v.srgb_path && w.cmyk_path == v.cmyk_path
        }),
{
}

/// A key that is pressed without Control does what the key does, whether Alt is held or not.
pub proof fn law_pressed_keys_are_taken(v: AppView, code: KeyCode, alt: bool)
    ensures
        ({
            let event = Event::Key(KeyEvent { code, pressed: true, control: false, alt });
            v.after_event(event) == v.after_key(code) && v.event_action(event) == v.key_action(code)
        }),
{
}

/// The profiles are asked for just where Enter is pressed in the HEX field on a code that is
/// read as a colour. They are asked for that colour, and are those at the paths in the two
/// path fields.
pub proof fn law_conversion_uses_the_typed_paths(v: AppView, event: Event)
    ensures
        v.event_action(event) is Convert <==> (event matches Event::Key(key) && key.pressed
            && !key.control && key.code is Enter && v.focus == Field::Hex && hex_color(v.hex_input)
            is Ok),
        v.event_action(event) matches ActionView::Convert { rgb, srgb_path, cmyk_path } ==> {
            &&& hex_color(v.hex_input) == Ok::<(u8, u8, u8), Seq<char>>(rgb)
            &&& srgb_path == v.srgb_path
            &&& cmyk_path == v.cmyk_path
        },
{
}

/// The same of a key by itself: Esc quits, Enter on a code that is read converts it, and no
/// other key asks for anything.
pub proof fn law_key_actions(v: AppView, key: KeyCode)
    ensures
        v.key_action(key) is Quit <==> key is Esc,
        v.key_action(key) is Convert <==> key is Enter && v.focus == Field::Hex && hex_color(
            v.hex_input,
        ) is Ok,
        v.key_action(key) is Quit || v.key_action(key) is Convert || v.key_action(key) is Continue,
        v.key_action(key) matches ActionView::Convert { rgb, srgb_path, cmyk_path } ==> {
            &&& hex_color(v.hex_input) == Ok::<(u8, u8, u8), Seq<char>>(rgb)
            &&& srgb_path == v.srgb_path
            &&& cmyk_path == v.cmyk_path
        },
{
}

/// Which key with Control asks the clipboard for what: V pastes, R copies the colour where
/// there is one, C copies the inks where there are some, H copies the HEX code without the
/// white space around it. Each works on the Latin and on the Russian layout and in either
/// case, and no other key asks for anything. With Alt, colour and inks are copied on one line.
pub proof fn law_control_actions(v: AppView, key: KeyCode, alt: bool)
    ensures
        v.control_action(key, alt) is Paste <==> (key matches KeyCode::Char(c) && (c == 'v' || c
            == 'V' || c == 'м' || c == 'М')),
        v.control_action(key, alt) is CopyHex <==> (key matches KeyCode::Char(c) && (c == 'h' || c
            == 'H' || c == 'р' || c == 'Р')),
        v.control_action(key, alt) is CopyColor <==> (key matches KeyCode::Char(c) && (((c == 'r'
            || c == 'R' || c == 'к' || c == 'К') && v.rgb is Some) || ((c == 'c' || c == 'C' || c
            == 'с' || c == 'С') && v.cmyk is Some))),
        !(v.control_action(key, alt) is Quit) && !(v.control_action(key, alt) is Convert),
        v.control_action(key, alt) matches ActionView::CopyHex { text } ==> text == trimmed(
            v.hex_input,
        ),
        v.control_action(key, alt) matches ActionView::CopyColor { text } ==> (key matches
            KeyCode::Char(c) && text == if c == 'r' || c == 'R' || c == 'к' || c == 'К' {
            rgb_text(v.rgb->Some_0, alt)
        } else {
            cmyk_text(v.cmyk->Some_0, alt)
        }),
{
}

/// The clipboard is asked for something just where a key is pressed with Control.
pub proof fn law_control_keys_are_taken(v: AppView, code: KeyCode, alt: bool)
    ensures
        ({
            let event = Event::Key(KeyEvent { code, pressed: true, control: true, alt });
            v.after_event(event) == v && v.event_action(event) == v.control_action(code, alt)
        }),
{
}

/// The one event that cannot be taken is Enter, pressed without Control in the HEX field, on
/// a code that is cut inside a character.
pub proof fn law_events_that_cannot_be_taken(v: AppView, event: Event)
    ensures
        !v.accepts(event) <==> (event matches Event::Key(key) && key.pressed && !key.control
            && key.code is Enter && v.focus == Field::Hex && !cuts_between_chars(v.hex_input)),
{
}

/// A text without its white space is what stands between white space at its front and at its
/// end, and neither starts nor ends with any.
pub proof fn law_trimmed_is_the_middle(s: Seq<char>)
    ensures
        exists|a: Seq<char>, b: Seq<char>|
            {
                &&& #[trigger] (a + trimmed(s) + b) == s
                &&& forall|i: int| 0 <= i < a.len() ==> is_white_space(#[trigger] a[i])
                &&& forall|i: int| 0 <= i < b.len() ==> is_white_space(#[trigger] b[i])
            },
        trimmed(s).len() > 0 ==> !is_white_space(trimmed(s)[0]) && !is_white_space(
            trimmed(s).last(),
        ),
{
    let p = |c: char| is_white_space(c);
    let t = drop_leading(s, p);
    let j = lemma_drop_leading_split(s, p);
    let k = lemma_drop_trailing_split(t, p);
    let (a, b) = (s.take(j), t.skip(k));
    assert(a + trimmed(s) + b == s);
    assert forall|i: int| 0 <= i < b.len() implies is_white_space(#[trigger] b[i]) by {
        assert(p(t[k + i]));
    }
    assert forall|i: int| 0 <= i < a.len() implies is_white_space(#[trigger] a[i]) by {
        assert(p(s[i]));
    }
    if k > 0 {
        assert(trimmed(s)[0] == t[0]);
    }
}

/// A paste puts the code behind the text of the field in focus, says so and clears the error;
/// where there is no code it says that and changes nothing else, and where the clipboard
/// cannot be read it says why and changes nothing else.
pub proof fn law_paste_is_taken_in(v: AppView, held: Result<Seq<char>, Seq<char>>)
    ensures
        ({
            let w = v.after_paste(held);
            match held {
                Err(e) => w == (AppView { error: Some(e), ..v }),
                Ok(text) => if pasted_code(text).len() == 0 {
                    w == (AppView { error: Some(NO_COLOR@), ..v })
                } else {
                    let code = pasted_code(text);
                    &&& w.error is None
                    &&& w.status == PASTED_PREFIX@ + code
                    &&& w.hex_input == if v.focus == Field::Hex { v.hex_input + code } else { v.hex_input }
                    &&& w.srgb_path == if v.focus == Field::SrgbPath {
                        v.srgb_path + code
                    } else {
                        v.srgb_path
                    }
                    &&& w.cmyk_path == if v.focus == Field::CmykPath {
                        v.cmyk_path + code
                    } else {
                        v.cmyk_path
                    }
                    &&& w.focus == v.focus && w.rgb == v.rgb && w.cmyk == v.cmyk
                    &&& w.preview_color == v.preview_color
                },
            }
        }),
{
}

/// A copy that is taken is told in the status, one that is not in the error; nothing else
/// changes.
pub proof fn law_copies_are_told(v: AppView, text: Seq<char>, taken: Result<(), Seq<char>>)
    ensures
        taken is Ok ==> v.after_color_copy(text, taken) == (AppView {
            status: COPIED_PREFIX@ + text,
            ..v
        }),
        taken is Ok ==> v.after_hex_copy(taken) == (AppView { status: HEX_COPIED@, ..v }),
        taken matches Err(e) ==> v.after_color_copy(text, taken) == (AppView {
            error: Some(e),
            ..v
        }) && v.after_hex_copy(taken) == (AppView { error: Some(e), ..v }),
{
}

/// The message of a failure says at what it failed, and then what the system says of it.
pub proof fn law_clipboard_failures_are_told(e: ClipboardError)
    ensures
        match e {
            ClipboardError::Open(d) => e.text() == OPEN_PREFIX@ + d@,
            ClipboardError::Write(d) => e.text() == WRITE_PREFIX@ + d@,
            ClipboardError::Read(d) => e.text() == READ_PREFIX@ + d@,
        },
        taken_view(Ok(())) is Ok,
        taken_view(Err(e)) == Err::<(), Seq<char>>(e.text()),
        held_view(Err(e)) == Err::<Seq<char>, Seq<char>>(e.text()),
{
}

/// A text that is read from the clipboard is seen as its characters.
pub proof fn law_held_text_is_seen_whole(text: String)
    ensures
        held_view(Ok(text)) == Ok::<Seq<char>, Seq<char>>(text@),
{
}

} // verus!
