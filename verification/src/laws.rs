//! What holds of the application as a whole.

use crate::app::{AppView, Field, CONVERTED, HEX_PREFIX, NOT_CONVERTED};
use crate::hex::hex_color;
use crate::icc::{
    cmyk_view, conversion_outcome, file_view, icc_links, icc_opens, icc_pixel, percent, Intent, CMYK_PREFIX,
    CREATION_MESSAGE, LINK_PREFIX, NO_PROFILE_MESSAGE, SRGB_PREFIX,
};
use crate::input::{ActionView, Event, KeyCode, KeyEvent};
use crate::style::Color;
use crate::view::{focus_style, plain_style};
use vstd::prelude::*;

verus! {

/// What the world outside answers to an action: what the profiles make of a colour, what
/// the clipboard holds, and whether it takes a text.
pub struct Reply {
    pub cmyk: Result<(u8, u8, u8, u8), Seq<char>>,
    pub held: Result<Seq<char>, Seq<char>>,
    pub taken: Result<(), Seq<char>>,
}

impl AppView {
    /// The state after an event and the answer to the action that it asks for.
    pub open spec fn after_turn(self, event: Event, reply: Reply) -> AppView {
        let next = self.after_event(event);
        match self.event_action(event) {
            ActionView::Continue | ActionView::Quit => next,
            ActionView::Convert { .. } => next.with_cmyk(reply.cmyk),
            ActionView::Paste => next.after_paste(reply.held),
            ActionView::CopyColor { text } => next.after_color_copy(text, reply.taken),
            ActionView::CopyHex { .. } => next.after_hex_copy(reply.taken),
        }
    }

    /// The state after a sequence of events with their answers.
    pub open spec fn after_turns(self, turns: Seq<(Event, Reply)>) -> AppView
        decreases turns.len(),
    {
        if turns.len() == 0 {
            self
        } else {
            self.after_turns(turns.drop_last()).after_turn(turns.last().0, turns.last().1)
        }
    }

    /// Whether what is shown belongs together: the preview is the colour, and there are
    /// inks only where there is a colour.
    pub open spec fn coherent(self) -> bool {
        &&& self.preview_color == match self.rgb {
            Some(rgb) => Some(Color::Rgb(rgb.0, rgb.1, rgb.2)),
            None => None,
        }
        &&& self.cmyk is Some ==> self.rgb is Some
    }
}

/// Each field follows the one before it and precedes the one after it, and three steps
/// lead back.
pub proof fn law_focus_cycles(f: Field)
    ensures
        f.next().prev() == f,
        f.prev().next() == f,
        f.next().next().next() == f,
        f.prev().prev().prev() == f,
{
}

/// Tab and Shift+Tab undo each other.
pub proof fn law_tab_and_back_tab_undo(v: AppView)
    ensures
        v.after_key(KeyCode::Tab).after_key(KeyCode::BackTab) == v,
        v.after_key(KeyCode::BackTab).after_key(KeyCode::Tab) == v,
{
    law_focus_cycles(v.focus);
}

/// Backspace undoes a character that was typed.
pub proof fn law_backspace_undoes_char(v: AppView, c: char)
    ensures
        v.after_key(KeyCode::Char(c)).after_key(KeyCode::Backspace) == v,
{
    let text = v.field(v.focus);
    assert(text.push(c).drop_last() == text);
}

/// Typing and erasing change the text of the field in focus and nothing else.
pub proof fn law_editing_stays_in_focus(v: AppView, key: KeyCode)
    requires
        key is Char || key is Backspace,
    ensures
        v.after_key(key) == v.with_current(v.after_key(key).field(v.focus)),
        forall|f: Field| f != v.focus ==> #[trigger] v.after_key(key).field(f) == v.field(f),
{
}

/// Esc, pressed without Control, leaves the application, and nothing else does.
pub proof fn law_only_escape_quits(v: AppView, event: Event)
    ensures
        v.event_action(event) is Quit <==> (event matches Event::Key(key) && key.pressed
            && !key.control && key.code is Esc),
{
}

/// A key that is not pressed (one that repeats or is released) and an event that is no
/// key do nothing.
pub proof fn law_only_presses_count(v: AppView, event: Event, reply: Reply)
    requires
        event matches Event::Key(key) ==> !key.pressed,
    ensures
        v.after_turn(event, reply) == v,
        v.event_action(event) is Continue,
{
}

/// A key with Control changes nothing before the clipboard has answered.
pub proof fn law_control_keys_wait(v: AppView, key: KeyEvent)
    requires
        key.control,
    ensures
        v.after_event(Event::Key(key)) == v,
{
}

/// The clipboard keys work on the Latin and on the Russian layout, in either case.
pub proof fn law_layouts_agree(v: AppView, alt: bool)
    ensures
        forall|c: char|
            #![trigger v.control_action(KeyCode::Char(c), alt)]
            (c == 'V' || c == 'м' || c == 'М' ==> v.control_action(KeyCode::Char(c), alt)
                == v.control_action(KeyCode::Char('v'), alt)) && (c == 'R' || c == 'к' || c == 'К'
                ==> v.control_action(KeyCode::Char(c), alt) == v.control_action(
                KeyCode::Char('r'),
                alt,
            )) && (c == 'C' || c == 'с' || c == 'С' ==> v.control_action(KeyCode::Char(c), alt)
                == v.control_action(KeyCode::Char('c'), alt)) && (c == 'H' || c == 'р' || c == 'Р'
                ==> v.control_action(KeyCode::Char(c), alt) == v.control_action(
                KeyCode::Char('h'),
                alt,
            )),
{
}

/// From the start on, whatever happens, what is shown belongs together.
pub proof fn law_always_coherent(turns: Seq<(Event, Reply)>)
    ensures
        AppView::initial().after_turns(turns).coherent(),
    decreases turns.len(),
{
    if turns.len() > 0 {
        law_always_coherent(turns.drop_last());
        law_turn_keeps_coherence(
            AppView::initial().after_turns(turns.drop_last()),
            turns.last().0,
            turns.last().1,
        );
    }
}

/// No event and no answer breaks what belongs together.
pub proof fn law_turn_keeps_coherence(v: AppView, event: Event, reply: Reply)
    requires
        v.coherent(),
    ensures
        v.after_turn(event, reply).coherent(),
{
}

/// A HEX code that is refused leaves no colour, no inks and no preview, and says why; the
/// status stays.
pub proof fn law_refused_code_leaves_no_color(v: AppView, alt: bool, reply: Reply)
    requires
        v.focus == Field::Hex,
        hex_color(v.hex_input) is Err,
    ensures
        ({
            let w = v.after_turn(enter(alt), reply);
            &&& w.rgb is None && w.cmyk is None && w.preview_color is None
            &&& w.error == Some(HEX_PREFIX@ + hex_color(v.hex_input)->Err_0)
            &&& w.status == v.status
            &&& w.focus == v.focus && w.hex_input == v.hex_input
            &&& w.srgb_path == v.srgb_path && w.cmyk_path == v.cmyk_path
        }),
{
}

/// A HEX code that is read shows its colour, whatever the profiles say; the inks are those
/// that the profiles answer, and an error is shown just where they fail.
pub proof fn law_read_code_is_shown(v: AppView, alt: bool, reply: Reply)
    requires
        v.focus == Field::Hex,
        hex_color(v.hex_input) is Ok,
    ensures
        ({
            let w = v.after_turn(enter(alt), reply);
            let rgb = hex_color(v.hex_input)->Ok_0;
            &&& w.rgb == Some(rgb)
            &&& w.preview_color == Some(Color::Rgb(rgb.0, rgb.1, rgb.2))
            &&& w.cmyk == reply.cmyk.ok()
            &&& w.error == reply.cmyk.err()
            &&& w.status == if reply.cmyk is Ok {
                CONVERTED@
            } else {
                NOT_CONVERTED@
            }
            &&& w.focus == v.focus && w.hex_input == v.hex_input
            &&& w.srgb_path == v.srgb_path && w.cmyk_path == v.cmyk_path
        }),
{
}

/// Enter, pressed without Control.
pub open spec fn enter(alt: bool) -> Event {
    Event::Key(KeyEvent { code: KeyCode::Enter, pressed: true, control: false, alt })
}

/// No event and no answer but a conversion changes the colour, the inks or the preview.
pub proof fn law_only_conversion_changes_color(v: AppView, event: Event, reply: Reply)
    requires
        !(v.types(event) && v.starts_conversion(event->Key_0.code)),
    ensures
        v.after_turn(event, reply).rgb == v.rgb,
        v.after_turn(event, reply).cmyk == v.cmyk,
        v.after_turn(event, reply).preview_color == v.preview_color,
{
}

/// One of the three input fields is highlighted: the one in focus.
pub proof fn law_focus_is_highlighted(v: AppView)
    ensures
        v.panels()[0].border == focus_style() <==> v.focus == Field::Hex,
        v.panels()[1].border == focus_style() <==> v.focus == Field::SrgbPath,
        v.panels()[2].border == focus_style() <==> v.focus == Field::CmykPath,
        forall|i: int| 3 <= i < 7 ==> (#[trigger] v.panels()[i]).border == plain_style(),
{
}

/// The preview is painted with the colour, where there is one.
pub proof fn law_preview_is_the_color(v: AppView)
    requires
        v.coherent(),
    ensures
        v.panels()[5].style.bg == match v.rgb {
            Some(rgb) => Some(Color::Rgb(rgb.0, rgb.1, rgb.2)),
            None => None,
        },
{
}

/// The rounded share of ink is the whole number nearest to it, and is never a tie.
pub proof fn law_percent_is_nearest(v: u8)
    ensures
        -255 < 200 * v - 510 * percent(v) < 255,
{
}

/// No ink is 0 percent and full ink 100, more ink is never less percent, and none is over 100.
pub proof fn law_percent_is_monotone(v: u8, w: u8)
    ensures
        percent(0) == 0,
        percent(255) == 100,
        percent(v) <= 100,
        v <= w ==> percent(v) <= percent(w),
{
}

/// A conversion succeeds just where both files can be read, are not empty, open as profiles
/// and can be linked under the relative colorimetric intent. It then sends the colour's own
/// channels, in order, through the transform from the first profile to the second, and gives
/// of each ink that comes out, in order, the whole percentage nearest to it.
pub proof fn law_conversion_is_that_of_the_color(
    rgb: (u8, u8, u8),
    srgb: Result<Seq<u8>, Seq<char>>,
    cmyk: Result<Seq<u8>, Seq<char>>,
    r: Result<(u8, u8, u8, u8), Seq<char>>,
)
    requires
        conversion_outcome(rgb, srgb, cmyk, r),
    ensures
        r is Ok <==> srgb is Ok && cmyk is Ok && srgb->Ok_0.len() > 0 && cmyk->Ok_0.len() > 0
            && icc_opens(srgb->Ok_0) && icc_opens(cmyk->Ok_0) && icc_links(
            srgb->Ok_0,
            cmyk->Ok_0,
            Intent::RelativeColorimetric,
        ),
        r matches Ok(inks) ==> exists|pixel: Seq<u8>, ink: Seq<u8>|
            {
                &&& #[trigger] icc_pixel(
                    srgb->Ok_0,
                    cmyk->Ok_0,
                    Intent::RelativeColorimetric,
                    pixel,
                    ink,
                )
                &&& pixel.len() == 3
                &&& pixel[0] == rgb.0 && pixel[1] == rgb.1 && pixel[2] == rgb.2
                &&& ink.len() == 4
                &&& -255 < 200 * ink[0] - 510 * inks.0 < 255
                &&& -255 < 200 * ink[1] - 510 * inks.1 < 255
                &&& -255 < 200 * ink[2] - 510 * inks.2 < 255
                &&& -255 < 200 * ink[3] - 510 * inks.3 < 255
            },
{
}

/// A conversion that fails names the first cause in this order: the first file, the second
/// file, the link between the profiles. Of a file it says why it could not be read, or that
/// it is no profile.
pub proof fn law_conversion_names_the_first_failure(
    rgb: (u8, u8, u8),
    srgb: Result<Seq<u8>, Seq<char>>,
    cmyk: Result<Seq<u8>, Seq<char>>,
    r: Result<(u8, u8, u8, u8), Seq<char>>,
)
    requires
        conversion_outcome(rgb, srgb, cmyk, r),
    ensures
        srgb matches Err(e) ==> r == Err::<(u8, u8, u8, u8), Seq<char>>(SRGB_PREFIX@ + e),
        srgb is Ok && (srgb->Ok_0.len() == 0 || !icc_opens(srgb->Ok_0)) ==> r == Err::<
            (u8, u8, u8, u8),
            Seq<char>,
        >(SRGB_PREFIX@ + NO_PROFILE_MESSAGE@),
        srgb is Ok && srgb->Ok_0.len() > 0 && icc_opens(srgb->Ok_0) ==> {
            &&& cmyk matches Err(e) ==> r == Err::<(u8, u8, u8, u8), Seq<char>>(CMYK_PREFIX@ + e)
            &&& cmyk is Ok && (cmyk->Ok_0.len() == 0 || !icc_opens(cmyk->Ok_0)) ==> r == Err::<
                (u8, u8, u8, u8),
                Seq<char>,
            >(CMYK_PREFIX@ + NO_PROFILE_MESSAGE@)
            &&& cmyk is Ok && cmyk->Ok_0.len() > 0 && icc_opens(cmyk->Ok_0) && r is Err ==> r
                == Err::<(u8, u8, u8, u8), Seq<char>>(LINK_PREFIX@ + CREATION_MESSAGE@)
        },
{
}

/// What came of reading a file and what came of a conversion are seen as they are.
pub proof fn law_outcomes_are_seen_whole(data: Vec<u8>, inks: (u8, u8, u8, u8), message: String)
    ensures
        file_view(Ok(data)) == Ok::<Seq<u8>, Seq<char>>(data@),
        file_view(Err(message)) == Err::<Seq<u8>, Seq<char>>(message@),
        cmyk_view(Ok(inks)) == Ok::<(u8, u8, u8, u8), Seq<char>>(inks),
        cmyk_view(Err(message)) == Err::<(u8, u8, u8, u8), Seq<char>>(message@),
{
}

/// A conversion shows the inks that came out, or why there are none, and leaves everything
/// else as it was.
pub proof fn law_conversion_is_shown(
    v: AppView,
    rgb: (u8, u8, u8),
    srgb: Result<Seq<u8>, Seq<char>>,
    cmyk: Result<Seq<u8>, Seq<char>>,
    w: AppView,
)
    requires
        v.converts_to(rgb, srgb, cmyk, w),
    ensures
        exists|r: Result<(u8, u8, u8, u8), Seq<char>>| #[trigger]
            conversion_outcome(rgb, srgb, cmyk, r) && w.cmyk == r.ok() && w.error == (if r is Ok {
                v.error
            } else {
                r.err()
            }),
        w.status == if w.cmyk is Some {
            CONVERTED@
        } else {
            NOT_CONVERTED@
        },
        w.rgb == v.rgb && w.preview_color == v.preview_color && w.focus == v.focus,
        w.hex_input == v.hex_input && w.srgb_path == v.srgb_path && w.cmyk_path == v.cmyk_path,
{
    let r = choose|r: Result<(u8, u8, u8, u8), Seq<char>>| #[trigger]
        conversion_outcome(rgb, srgb, cmyk, r) && w == v.with_cmyk(r);
    assert(conversion_outcome(rgb, srgb, cmyk, r));
}

/// The inks that the profiles answer are at most 100 percent each.
pub proof fn law_inks_are_percentages(
    rgb: (u8, u8, u8),
    srgb: Result<Seq<u8>, Seq<char>>,
    cmyk: Result<Seq<u8>, Seq<char>>,
    inks: (u8, u8, u8, u8),
)
    requires
        conversion_outcome(rgb, srgb, cmyk, Ok(inks)),
    ensures
        inks.0 <= 100 && inks.1 <= 100 && inks.2 <= 100 && inks.3 <= 100,
{
}

} // verus!
