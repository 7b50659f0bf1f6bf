//! What is on the screen: seven panels, one above the other.

use crate::app::{App, AppView, Field};
use crate::clipboard::{format_rgb, rgb_text};
use crate::style::{Color, Style};
use crate::text::{decimal, join, push_decimal};
use ratatui::layout::{Constraint, Direction, Layout, Rect};
use vstd::prelude::*;

verus! {

/// A rectangle of character cells.
#[derive(Clone, Copy, Debug, PartialEq, Eq)]
pub struct Area {
    pub x: u16,
    pub y: u16,
    pub width: u16,
    pub height: u16,
}

/// How high a row wants to be.
#[derive(Clone, Copy, Debug, PartialEq, Eq)]
pub enum Height {
    /// So many lines.
    Exactly(u16),
    /// So many lines, or more.
    AtLeast(u16),
}

/// The area inside `area` that keeps `margin` cells away from each side; nothing at the
/// origin where there is no room for the margins.
pub open spec fn inner(area: Area, margin: u16) -> Area {
    if area.width < 2 * margin || area.height < 2 * margin {
        Area { x: 0, y: 0, width: 0, height: 0 }
    } else {
        Area {
            x: if area.x + margin <= u16::MAX { (area.x + margin) as u16 } else { u16::MAX },
            y: if area.y + margin <= u16::MAX { (area.y + margin) as u16 } else { u16::MAX },
            width: (area.width - 2 * margin) as u16,
            height: (area.height - 2 * margin) as u16,
        }
    }
}

/// The lines that a row wants at least.
pub open spec fn wanted(h: Height) -> int {
    match h {
        Height::Exactly(n) => n as int,
        Height::AtLeast(n) => n as int,
    }
}

/// The lines that rows want together.
pub open spec fn all_wanted(heights: Seq<Height>) -> int
    decreases heights.len(),
{
    if heights.len() == 0 {
        0
    } else {
        all_wanted(heights.drop_last()) + wanted(heights.last())
    }
}

/// Whether `area` has room for rows of these heights, the last of which takes what is left.
pub open spec fn has_room(area: Area, heights: Seq<Height>) -> bool {
    &&& heights.len() > 0
    &&& heights.last() is AtLeast
    &&& forall|i: int| 0 <= i < heights.len() - 1 ==> #[trigger] heights[i] is Exactly
    &&& all_wanted(heights) <= area.height
    &&& area.y + area.height <= u16::MAX
}

/// Whether `rows` fill `area` from its top to its bottom, one right below the other, and
/// all but the last have just the wanted heights.
pub open spec fn stacked(area: Area, heights: Seq<Height>, rows: Seq<Area>) -> bool {
    &&& rows.len() == heights.len() > 0
    &&& rows[0].y == area.y
    &&& forall|i: int|
        #![trigger rows[i]]
        0 <= i < rows.len() - 1 ==> rows[i].height == wanted(heights[i]) && rows[i + 1].y
            == rows[i].y + rows[i].height
    &&& rows.last().y + rows.last().height == area.y + area.height
}

/// Whether `rows` is an outcome of splitting `area` into rows of these heights inside a
/// margin. The constraint solver behind it walks hash tables with a seed of their own, so
/// where not every height can be had the outcomes are named, not one value.
pub uninterp spec fn rows_outcome(
    area: Area,
    margin: u16,
    heights: Seq<Height>,
    rows: Seq<Area>,
) -> bool;

/// `ratatui::layout::Layout::split` splits an area into rows of the wanted heights, inside
/// a margin. There are as many rows as heights, and each is as wide as the area inside the
/// margin. Where there is room for all heights and the last is a minimum, the rows are
/// stacked: a wanted height outranks growth, and the minimum grows by what is left.
/// Elsewhere, how high the rows are and where they start is an outcome of the area, the
/// margin and the heights. The rows are few, so that the weights that the solver adds up in
/// floating point stay far apart.
#[verifier::external_body]
fn split_rows(area: Area, margin: u16, heights: &Vec<Height>) -> (rows: Vec<Area>)
    requires
        2 * margin <= u16::MAX,
        heights@.len() <= 16,
    ensures
        rows_outcome(area, margin, heights@, rows@),
        rows@.len() == heights@.len(),
        forall|i: int|
            0 <= i < rows@.len() ==> (#[trigger] rows@[i]).x == inner(area, margin).x && rows@[i].width
                == inner(area, margin).width,
        has_room(inner(area, margin), heights@) ==> stacked(inner(area, margin), heights@, rows@),
{
    let to_constraint = |h: &Height| match *h {
        Height::Exactly(n) => Constraint::Length(n),
        Height::AtLeast(n) => Constraint::Min(n),
    };
    let rect = Rect { x: area.x, y: area.y, width: area.width, height: area.height };
    let layout = Layout::default().direction(Direction::Vertical).margin(margin);
    let rects = layout.constraints(heights.iter().map(to_constraint)).split(rect);
    let to_area = |r: &Rect| Area { x: r.x, y: r.y, width: r.width, height: r.height };
    rects.iter().map(to_area).collect()
}

pub const HEX_TITLE: &'static str = " HEX (например: #FF5733 или FF5733) ";

pub const SRGB_TITLE: &'static str = " Путь к sRGB ICC ";

pub const CMYK_PATH_TITLE: &'static str = " Путь к CMYK ICC ";

pub const RGB_TITLE: &'static str = " RGB ";

pub const CMYK_TITLE: &'static str = " CMYK ";

pub const PREVIEW_TITLE: &'static str = " Превью ";

pub const STATUS_TITLE: &'static str = " Статус ";

pub const NO_RGB: &'static str = "RGB: —";

pub const NO_CMYK: &'static str = "CMYK: —";

pub const SWATCH: &'static str = "  ";

pub const NO_PREVIEW: &'static str = "(нет цвета)";

pub const KEYS_HELP: &'static str =
    "Enter — конвертировать | Tab — след. поле | Shift+Tab — пред. поле | Esc — выход";

pub const COPY_HELP: &'static str =
    "Копирование: Ctrl+R — RGB | Ctrl+C — CMYK | Ctrl+H — HEX | + ALT — в строчку (rgb: 0, 0, 0)";

pub const ERROR_PREFIX: &'static str = "Ошибка: ";

/// The margin around the panels.
pub const MARGIN: u16 = 1;

/// A line of text; one without a style is drawn in that of its panel.
#[derive(Debug, PartialEq, Eq)]
pub struct Line {
    pub text: String,
    pub style: Option<Style>,
}

/// What a panel holds.
#[derive(Debug, PartialEq, Eq)]
pub enum Body {
    Text(String),
    Lines(Vec<Line>),
}

/// A framed panel.
#[derive(Debug, PartialEq, Eq)]
pub struct Panel {
    pub title: &'static str,
    pub border: Style,
    pub style: Style,
    pub body: Body,
    /// Whether lines that do not fit are wrapped.
    pub wrap: bool,
}

/// A [`Line`] with its text seen as its characters.
pub struct LineView {
    pub text: Seq<char>,
    pub style: Option<Style>,
}

/// A [`Body`] with its texts seen as their characters.
pub enum BodyView {
    Text(Seq<char>),
    Lines(Seq<LineView>),
}

/// A [`Panel`] with its texts seen as their characters.
pub struct PanelView {
    pub title: Seq<char>,
    pub border: Style,
    pub style: Style,
    pub body: BodyView,
    pub wrap: bool,
}

impl View for Line {
    type V = LineView;

    open spec fn view(&self) -> LineView {
        LineView { text: self.text@, style: self.style }
    }
}

impl View for Body {
    type V = BodyView;

    open spec fn view(&self) -> BodyView {
        match self {
            Body::Text(text) => BodyView::Text(text@),
            Body::Lines(lines) => BodyView::Lines(lines@.map_values(|l: Line| l@)),
        }
    }
}

impl View for Panel {
    type V = PanelView;

    open spec fn view(&self) -> PanelView {
        PanelView {
            title: self.title@,
            border: self.border,
            style: self.style,
            body: self.body@,
            wrap: self.wrap,
        }
    }
}

/// The terminal's own style.
pub open spec fn plain_style() -> Style {
    Style { fg: None, bg: None, bold: false }
}

/// The frame of the field in focus.
pub open spec fn focus_style() -> Style {
    Style { fg: Some(Color::Yellow), bg: None, bold: true }
}

/// The style of the help.
pub open spec fn help_style() -> Style {
    Style { fg: Some(Color::DarkGray), bg: None, bold: false }
}

/// The style of an error.
pub open spec fn error_style() -> Style {
    Style { fg: Some(Color::Red), bg: None, bold: true }
}

/// A panel with one text, in the terminal's own style.
pub open spec fn text_panel(title: Seq<char>, border: Style, text: Seq<char>) -> PanelView {
    PanelView { title, border, style: plain_style(), body: BodyView::Text(text), wrap: false }
}

/// Inks on the screen.
pub open spec fn ink_text(cmyk: (u8, u8, u8, u8)) -> Seq<char> {
    let (c, m) = (decimal(cmyk.0 as nat), decimal(cmyk.1 as nat));
    let (y, k) = (decimal(cmyk.2 as nat), decimal(cmyk.3 as nat));
    "CMYK: "@ + c + "%, "@ + m + "%, "@ + y + "%, "@ + k + "%"@
}

/// How high the panels want to be.
pub open spec fn row_heights() -> Seq<Height> {
    seq![
        Height::Exactly(3),
        Height::Exactly(3),
        Height::Exactly(3),
        Height::Exactly(3),
        Height::Exactly(3),
        Height::Exactly(3),
        Height::AtLeast(3),
    ]
}

impl AppView {
    /// The panel of an input field.
    pub open spec fn field_panel(self, f: Field) -> PanelView {
        let title = match f {
            Field::Hex => HEX_TITLE@,
            Field::SrgbPath => SRGB_TITLE@,
            Field::CmykPath => CMYK_PATH_TITLE@,
        };
        let border = if self.focus == f {
            focus_style()
        } else {
            plain_style()
        };
        text_panel(title, border, self.field(f))
    }

    /// The panel of the colour.
    pub open spec fn rgb_panel(self) -> PanelView {
        let text = match self.rgb {
            Some(rgb) => rgb_text(rgb, true),
            None => NO_RGB@,
        };
        text_panel(RGB_TITLE@, plain_style(), text)
    }

    /// The panel of the inks.
    pub open spec fn cmyk_panel(self) -> PanelView {
        let text = match self.cmyk {
            Some(cmyk) => ink_text(cmyk),
            None => NO_CMYK@,
        };
        text_panel(CMYK_TITLE@, plain_style(), text)
    }

    /// The panel that is painted with the colour.
    pub open spec fn preview_panel(self) -> PanelView {
        match self.preview_color {
            Some(color) => PanelView {
                style: Style { fg: None, bg: Some(color), bold: false },
                ..text_panel(PREVIEW_TITLE@, plain_style(), SWATCH@)
            },
            None => text_panel(PREVIEW_TITLE@, plain_style(), NO_PREVIEW@),
        }
    }

    /// The lines of the help, the status and the error.
    pub open spec fn status_lines(self) -> Seq<LineView> {
        let lines = seq![
            LineView { text: KEYS_HELP@, style: Some(help_style()) },
            LineView { text: COPY_HELP@, style: Some(help_style()) },
            LineView { text: self.status, style: None },
        ];
        match self.error {
            Some(e) => lines.push(
                LineView { text: ERROR_PREFIX@ + e, style: Some(error_style()) },
            ),
            None => lines,
        }
    }

    /// The panel of the help, the status and the error.
    pub open spec fn status_panel(self) -> PanelView {
        PanelView {
            title: STATUS_TITLE@,
            border: plain_style(),
            style: plain_style(),
            body: BodyView::Lines(self.status_lines()),
            wrap: true,
        }
    }

    /// The panels, from the top of the screen to its bottom.
    pub open spec fn panels(self) -> Seq<PanelView> {
        seq![
            self.field_panel(Field::Hex),
            self.field_panel(Field::SrgbPath),
            self.field_panel(Field::CmykPath),
            self.rgb_panel(),
            self.cmyk_panel(),
            self.preview_panel(),
            self.status_panel(),
        ]
    }
}

/// Whether `area` has room for all panels.
pub open spec fn has_room_for_panels(area: Area) -> bool {
    area.height >= 21 && area.y + area.height <= u16::MAX
}

/// Where panel `i` lies in `area`, which has room for all panels.
pub open spec fn panel_area(area: Area, i: int) -> Area {
    Area {
        y: (area.y + 3 * i) as u16,
        height: if i < 6 {
            3
        } else {
            (area.height - 18) as u16
        },
        ..area
    }
}

/// Whether `screen` shows the panels of `app`, each in its row.
pub open spec fn shows(screen: Seq<(Area, Panel)>, app: AppView, rows: Seq<Area>) -> bool {
    &&& screen.len() == 7
    &&& forall|i: int|
        #![trigger screen[i]]
        0 <= i < 7 ==> screen[i].0 == rows[i] && screen[i].1@ == app.panels()[i]
}

fn plain() -> (s: Style)
    ensures
        s == plain_style(),
{
    Style { fg: None, bg: None, bold: false }
}

fn framed_text(title: &'static str, border: Style, text: String) -> (p: Panel)
    ensures
        p@ == text_panel(title@, border, text@),
{
    Panel { title, border, style: plain(), body: Body::Text(text), wrap: false }
}

/// Inks on the screen.
pub fn format_ink(cmyk: (u8, u8, u8, u8)) -> (s: String)
    ensures
        s@ == ink_text(cmyk),
{
    let mut s = "CMYK: ".to_string();
    push_decimal(&mut s, cmyk.0);
    s.append("%, ");
    push_decimal(&mut s, cmyk.1);
    s.append("%, ");
    push_decimal(&mut s, cmyk.2);
    s.append("%, ");
    push_decimal(&mut s, cmyk.3);
    s.append("%");
    s
}

fn field_panel(app: &App, f: Field) -> (p: Panel)
    ensures
        p@ == app@.field_panel(f),
{
    let border = if app.focus == f {
        Style { fg: Some(Color::Yellow), bg: None, bold: true }
    } else {
        plain()
    };
    match f {
        Field::Hex => framed_text(HEX_TITLE, border, app.hex_input.clone()),
        Field::SrgbPath => framed_text(SRGB_TITLE, border, app.srgb_path.clone()),
        Field::CmykPath => framed_text(CMYK_PATH_TITLE, border, app.cmyk_path.clone()),
    }
}

fn rgb_panel(app: &App) -> (p: Panel)
    ensures
        p@ == app@.rgb_panel(),
{
    let text = match app.rgb {
        Some(rgb) => format_rgb(rgb, true),
        None => NO_RGB.to_string(),
    };
    framed_text(RGB_TITLE, plain(), text)
}

fn cmyk_panel(app: &App) -> (p: Panel)
    ensures
        p@ == app@.cmyk_panel(),
{
    let text = match app.cmyk {
        Some(cmyk) => format_ink(cmyk),
        None => NO_CMYK.to_string(),
    };
    framed_text(CMYK_TITLE, plain(), text)
}

fn preview_panel(app: &App) -> (p: Panel)
    ensures
        p@ == app@.preview_panel(),
{
    match app.preview_color {
        Some(color) => {
            let mut p = framed_text(PREVIEW_TITLE, plain(), SWATCH.to_string());
            p.style = Style { fg: None, bg: Some(color), bold: false };
            p
        },
        None => framed_text(PREVIEW_TITLE, plain(), NO_PREVIEW.to_string()),
    }
}

fn status_panel(app: &App) -> (p: Panel)
    ensures
        p@ == app@.status_panel(),
{
    let help = Style { fg: Some(Color::DarkGray), bg: None, bold: false };
    let mut lines: Vec<Line> = Vec::new();
    lines.push(Line { text: KEYS_HELP.to_string(), style: Some(help) });
    lines.push(Line { text: COPY_HELP.to_string(), style: Some(help) });
    lines.push(Line { text: app.status.clone(), style: None });
    if let Some(e) = &app.error {
        let style = Style { fg: Some(Color::Red), bg: None, bold: true };
        lines.push(Line { text: join(ERROR_PREFIX, e.as_str()), style: Some(style) });
    }
    assert(lines@.map_values(|l: Line| l@) =~= app@.status_lines());
    Panel {
        title: STATUS_TITLE,
        border: plain(),
        style: plain(),
        body: Body::Lines(lines),
        wrap: true,
    }
}

/// The panels, each in the row that is given for it.
pub fn ui_in_rows(rows: &Vec<Area>, app: &App) -> (screen: Vec<(Area, Panel)>)
    requires
        rows@.len() == 7,
    ensures
        shows(screen@, app@, rows@),
{
    let mut screen: Vec<(Area, Panel)> = Vec::new();
    screen.push((rows[0], field_panel(app, Field::Hex)));
    screen.push((rows[1], field_panel(app, Field::SrgbPath)));
    screen.push((rows[2], field_panel(app, Field::CmykPath)));
    screen.push((rows[3], rgb_panel(app)));
    screen.push((rows[4], cmyk_panel(app)));
    screen.push((rows[5], preview_panel(app)));
    screen.push((rows[6], status_panel(app)));
    screen
}

/// Rows of the panels' heights that are stacked lie where the panels do.
proof fn lemma_panels_stacked(area: Area, rows: Seq<Area>)
    requires
        has_room(area, row_heights()) ==> stacked(area, row_heights(), rows),
        forall|i: int|
            0 <= i < rows.len() ==> (#[trigger] rows[i]).x == area.x && rows[i].width == area.width,
    ensures
        has_room_for_panels(area) ==> rows.len() == 7 && forall|i: int|
            0 <= i < 7 ==> #[trigger] rows[i] == panel_area(area, i),
{
    let heights = row_heights();
    reveal_with_fuel(all_wanted, 8);
    assert(all_wanted(heights) == 21);
    if has_room_for_panels(area) {
        assert(stacked(area, heights, rows));
        assert(rows[1].y == area.y + 3 && rows[2].y == area.y + 6 && rows[3].y == area.y + 9
            && rows[4].y == area.y + 12 && rows[5].y == area.y + 15 && rows[6].y == area.y + 18);
        assert forall|i: int| 0 <= i < 7 implies #[trigger] rows[i] == panel_area(area, i) by {
            assert(i == 0 || i == 1 || i == 2 || i == 3 || i == 4 || i == 5 || i == 6);
        }
    }
}

/// What is to be drawn in `area`: the panels, each with its place.
pub fn ui(area: Area, app: &App) -> (screen: Vec<(Area, Panel)>)
    ensures
        exists|rows: Seq<Area>| #[trigger]
            rows_outcome(area, MARGIN, row_heights(), rows) && rows.len() == 7 && shows(
                screen@,
                app@,
                rows,
            ),
        forall|i: int|
            0 <= i < screen@.len() ==> (#[trigger] screen@[i]).0.x == inner(area, MARGIN).x
                && screen@[i].0.width == inner(area, MARGIN).width,
        has_room_for_panels(inner(area, MARGIN)) ==> forall|i: int|
            0 <= i < 7 ==> (#[trigger] screen@[i]).0 == panel_area(inner(area, MARGIN), i),
{
    let mut heights: Vec<Height> = Vec::new();
    heights.push(Height::Exactly(3));
    heights.push(Height::Exactly(3));
    heights.push(Height::Exactly(3));
    heights.push(Height::Exactly(3));
    heights.push(Height::Exactly(3));
    heights.push(Height::Exactly(3));
    heights.push(Height::AtLeast(3));
    assert(heights@ =~= row_heights());
    let rows = split_rows(area, MARGIN, &heights);
    proof {
        lemma_panels_stacked(inner(area, MARGIN), rows@);
    }
    ui_in_rows(&rows, app)
}

} // verus!
