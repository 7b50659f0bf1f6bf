//! What holds of the screen, panel by panel.

use crate::app::{AppView, Field};
use crate::clipboard::rgb_text;
use crate::reading::{
    after_spaces, all_digits, before, is_digit, is_numeral, law_decimal_reads_back, lemma_after_spaces,
    lemma_before, listed_percent, number,
};
use crate::style::{Color, Style};
use crate::text::decimal;
use crate::view::{
    has_room_for_panels, ink_text, panel_area, row_heights, shows, Area, Body, BodyView, Height, Line,
    LineView, Panel, CMYK_PATH_TITLE, CMYK_TITLE, COPY_HELP, ERROR_PREFIX, HEX_TITLE, KEYS_HELP,
    NO_CMYK, NO_PREVIEW, NO_RGB, PREVIEW_TITLE, RGB_TITLE, SRGB_TITLE, STATUS_TITLE, SWATCH,
};
use vstd::prelude::*;

verus! {

/// A panel is seen with its title, its styles and its text.
pub proof fn law_panel_is_seen_whole(p: Panel)
    ensures
        p@.title == p.title@ && p@.border == p.border && p@.style == p.style && p@.wrap == p.wrap,
        p.body matches Body::Text(text) ==> p@.body == BodyView::Text(text@),
        p.body matches Body::Lines(lines) ==> (p@.body matches BodyView::Lines(seen) && seen.len()
            == lines@.len() && forall|i: int|
            0 <= i < seen.len() ==> (#[trigger] seen[i]).text == lines@[i].text@ && seen[i].style
                == lines@[i].style),
{
}

/// The screen shows seven panels, each in the row that is given for it.
pub proof fn law_every_panel_is_shown(
    screen: Seq<(Area, Panel)>,
    v: AppView,
    rows: Seq<Area>,
    i: int,
)
    requires
        shows(screen, v, rows),
        0 <= i < 7,
    ensures
        screen.len() == 7,
        v.panels().len() == 7,
        screen[i].0 == rows[i],
        screen[i].1@ == v.panels()[i],
{
}

/// The first three panels hold the texts of the three fields, under the titles of the fields;
/// the frame of the one in focus is yellow and bold, the others are plain.
pub proof fn law_fields_are_shown(v: AppView)
    ensures
        v.panels()[0].body == BodyView::Text(v.hex_input) && v.panels()[0].title == HEX_TITLE@,
        v.panels()[1].body == BodyView::Text(v.srgb_path) && v.panels()[1].title == SRGB_TITLE@,
        v.panels()[2].body == BodyView::Text(v.cmyk_path) && v.panels()[2].title
            == CMYK_PATH_TITLE@,
        forall|i: int|
            0 <= i < 3 ==> {
                &&& (#[trigger] v.panels()[i]).border == if (i == 0 && v.focus == Field::Hex) || (i
                    == 1 && v.focus == Field::SrgbPath) || (i == 2 && v.focus == Field::CmykPath) {
                    Style { fg: Some(Color::Yellow), bg: None, bold: true }
                } else {
                    Style { fg: None, bg: None, bold: false }
                }
                &&& v.panels()[i].style == (Style { fg: None, bg: None, bold: false })
                &&& !v.panels()[i].wrap
            },
{
}

/// The fourth panel holds the colour as it is copied on one line, or says that there is none.
pub proof fn law_color_is_shown(v: AppView)
    ensures
        v.panels()[3].title == RGB_TITLE@,
        v.rgb matches Some(rgb) ==> v.panels()[3].body == BodyView::Text(rgb_text(rgb, true)),
        v.rgb is None ==> v.panels()[3].body == BodyView::Text(NO_RGB@),
        v.panels()[3].border == (Style { fg: None, bg: None, bold: false }),
        v.panels()[3].style == (Style { fg: None, bg: None, bold: false }),
        !v.panels()[3].wrap,
{
}

/// Inks are shown in the order of their name, each with a percent sign behind it.
pub proof fn law_inks_are_listed_in_percent(p: (u8, u8, u8, u8))
    ensures
        listed_percent(ink_text(p), 1) == p.0,
        listed_percent(ink_text(p), 2) == p.1,
        listed_percent(ink_text(p), 3) == p.2,
        listed_percent(ink_text(p), 4) == p.3,
        exists|c: Seq<char>, m: Seq<char>, y: Seq<char>, k: Seq<char>|
            #![trigger is_numeral(c, p.0 as int), is_numeral(m, p.1 as int), is_numeral(y, p.2 as int), is_numeral(k, p.3 as int)]
            is_numeral(c, p.0 as int) && is_numeral(m, p.1 as int) && is_numeral(y, p.2 as int)
                && is_numeral(k, p.3 as int) && ink_text(p) == seq!['C', 'M', 'Y', 'K', ':', ' '] + c
                + seq!['%', ',', ' '] + m + seq!['%', ',', ' '] + y + seq!['%', ',', ' '] + k + seq![
                '%',
            ],
{
    reveal_strlit("CMYK: ");
    reveal_strlit("%, ");
    reveal_strlit("%");
    assert("CMYK: "@ =~= seq!['C', 'M', 'Y', 'K', ':', ' ']);
    assert("%, "@ =~= seq!['%', ',', ' ']);
    assert("%"@ =~= seq!['%']);
    law_decimal_reads_back(p.0 as nat);
    law_decimal_reads_back(p.1 as nat);
    law_decimal_reads_back(p.2 as nat);
    law_decimal_reads_back(p.3 as nat);
    let (c, m) = (decimal(p.0 as nat), decimal(p.1 as nat));
    let (y, k) = (decimal(p.2 as nat), decimal(p.3 as nat));
    let s = ink_text(p);
    let sep = seq!['%', ',', ' '];
    let e = Seq::<char>::empty();
    let t1 = c + sep + (m + sep + (y + sep + (k + seq!['%'])));
    let head = seq!['C', 'M', 'Y', 'K', ':'];
    assert(s =~= head + seq![' '] + t1);
    lemma_after_spaces(s, 0, head, t1);
    lemma_percent_item(s, 1, c, m + sep + (y + sep + (k + seq!['%'])));
    lemma_percent_item(s, 2, m, y + sep + (k + seq!['%']));
    lemma_percent_item(s, 3, y, k + seq!['%']);
    assert(k + seq!['%'] + e == k + seq!['%']);
    assert forall|i: int| 0 <= i < k.len() implies #[trigger] k[i] != '%' by {
        assert(is_digit(k[i]));
    }
    lemma_before(k, '%', e);
}

/// A number in a list of percentages, and what stands behind it.
proof fn lemma_percent_item(s: Seq<char>, n: nat, d: Seq<char>, rest: Seq<char>)
    requires
        all_digits(d),
        after_spaces(s, n) == d + seq!['%', ',', ' '] + rest,
    ensures
        listed_percent(s, n) == number(d),
        after_spaces(s, n + 1) == rest,
{
    let tail = seq![',', ' '] + rest;
    assert(d + seq!['%', ',', ' '] + rest =~= d + seq!['%'] + tail);
    assert forall|i: int| 0 <= i < d.len() implies #[trigger] d[i] != '%' && d[i] != ' ' by {
        assert(is_digit(d[i]));
    }
    lemma_before(d, '%', tail);
    let a = d + seq!['%', ','];
    assert(d + seq!['%', ',', ' '] + rest =~= a + seq![' '] + rest);
    assert forall|i: int| 0 <= i < a.len() implies #[trigger] a[i] != ' ' by {
        if i < d.len() {
            assert(a[i] == d[i]);
        }
    }
    lemma_after_spaces(s, n, a, rest);
}

/// The fifth panel holds the inks, or says that there are none.
pub proof fn law_inks_are_shown(v: AppView)
    ensures
        v.panels()[4].title == CMYK_TITLE@,
        v.cmyk matches Some(cmyk) ==> v.panels()[4].body == BodyView::Text(ink_text(cmyk)),
        v.cmyk is None ==> v.panels()[4].body == BodyView::Text(NO_CMYK@),
        v.panels()[4].border == (Style { fg: None, bg: None, bold: false }),
        v.panels()[4].style == (Style { fg: None, bg: None, bold: false }),
        !v.panels()[4].wrap,
{
}

/// The sixth panel is painted with the preview colour, or says that there is none.
pub proof fn law_preview_is_painted(v: AppView)
    ensures
        v.panels()[5].title == PREVIEW_TITLE@,
        v.panels()[5].body == BodyView::Text(
            if v.preview_color is Some {
                SWATCH@
            } else {
                NO_PREVIEW@
            },
        ),
        v.panels()[5].style == (Style { fg: None, bg: v.preview_color, bold: false }),
        v.panels()[5].border == (Style { fg: None, bg: None, bold: false }),
        !v.panels()[5].wrap,
{
}

/// The last panel holds two lines of help, the status, and below it the error where there is
/// one, in red and bold; its lines are wrapped.
pub proof fn law_status_and_error_are_shown(v: AppView)
    ensures
        v.panels()[6].title == STATUS_TITLE@,
        v.panels()[6].wrap,
        v.panels()[6].border == (Style { fg: None, bg: None, bold: false }),
        v.panels()[6].style == (Style { fg: None, bg: None, bold: false }),
        v.panels()[6].body matches BodyView::Lines(lines) && {
            let gray = Style { fg: Some(Color::DarkGray), bg: None, bold: false };
            &&& lines.len() == if v.error is Some { 4 } else { 3int }
            &&& lines[0] == (LineView { text: KEYS_HELP@, style: Some(gray) })
            &&& lines[1] == (LineView { text: COPY_HELP@, style: Some(gray) })
            &&& lines[2] == (LineView { text: v.status, style: None })
            &&& v.error matches Some(e) ==> lines[3] == (LineView {
                text: ERROR_PREFIX@ + e,
                style: Some(Style { fg: Some(Color::Red), bg: None, bold: true }),
            })
        },
{
}

/// Where there is room, the panels fill the area from its top to its bottom, one right below
/// the other and each as wide as the area; all but the last are three lines high.
pub proof fn law_panels_fill_the_area(area: Area, i: int)
    requires
        area.height >= 21,
        area.y + area.height <= u16::MAX,
        0 <= i < 7,
    ensures
        has_room_for_panels(area),
        panel_area(area, 0).y == area.y,
        i < 6 ==> panel_area(area, i).height == 3 && panel_area(area, i + 1).y == panel_area(
            area,
            i,
        ).y + panel_area(area, i).height,
        panel_area(area, 6).y + panel_area(area, 6).height == area.y + area.height,
        panel_area(area, i).x == area.x && panel_area(area, i).width == area.width,
        row_heights().len() == 7,
        row_heights()[i] == if i < 6 { Height::Exactly(3) } else { Height::AtLeast(3) },
{
}

} // verus!
