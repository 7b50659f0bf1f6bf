//! The state of the application and what changes it.

use crate::hex::{cuts_between_chars, hex_color, hex_to_rgb};
use crate::icc::{cmyk_view, conversion_outcome, file_view, rgb_to_cmyk_icc};
use crate::style::Color;
use crate::text::join;
use vstd::prelude::*;

verus! {

pub const DEFAULT_SRGB_PATH: &'static str = "sRGB_v4_ICC.icc";

pub const DEFAULT_CMYK_PATH: &'static str = "CoatedFOGRA27.icc";

pub const WELCOME: &'static str = "Введите HEX и нажмите Enter. Tab — переключение полей.";

pub const HEX_PREFIX: &'static str = "HEX: ";

pub const CONVERTED: &'static str =
    "OK. c — копировать CMYK, r — копировать RGB, h — копировать HEX";

pub const NOT_CONVERTED: &'static str = "Ошибка конверсии CMYK (проверь пути к ICC)";

/// An input field.
#[derive(Clone, Copy, Debug, PartialEq, Eq, Structural)]
pub enum Field {
    Hex,
    SrgbPath,
    CmykPath,
}

/// What the user has typed, what it was converted to, and what is said of it.
#[derive(Debug, PartialEq, Eq)]
pub struct App {
    pub hex_input: String,
    pub srgb_path: String,
    pub cmyk_path: String,
    pub rgb: Option<(u8, u8, u8)>,
    pub cmyk: Option<(u8, u8, u8, u8)>,
    pub error: Option<String>,
    pub status: String,
    pub focus: Field,
    pub preview_color: Option<Color>,
}

/// An [`App`] with its strings seen as their characters.
#[verifier::ext_equal]
pub struct AppView {
    pub hex_input: Seq<char>,
    pub srgb_path: Seq<char>,
    pub cmyk_path: Seq<char>,
    pub rgb: Option<(u8, u8, u8)>,
    pub cmyk: Option<(u8, u8, u8, u8)>,
    pub error: Option<Seq<char>>,
    pub status: Seq<char>,
    pub focus: Field,
    pub preview_color: Option<Color>,
}

impl View for App {
    type V = AppView;

    open spec fn view(&self) -> AppView {
        AppView {
            hex_input: self.hex_input@,
            srgb_path: self.srgb_path@,
            cmyk_path: self.cmyk_path@,
            rgb: self.rgb,
            cmyk: self.cmyk,
            error: match self.error {
                Some(e) => Some(e@),
                None => None,
            },
            status: self.status@,
            focus: self.focus,
            preview_color: self.preview_color,
        }
    }
}

impl Field {
    /// The field after this one; the first follows the last.
    pub open spec fn next(self) -> Field {
        match self {
            Field::Hex => Field::SrgbPath,
            Field::SrgbPath => Field::CmykPath,
            Field::CmykPath => Field::Hex,
        }
    }

    /// The field before this one; the last precedes the first.
    pub open spec fn prev(self) -> Field {
        match self {
            Field::Hex => Field::CmykPath,
            Field::SrgbPath => Field::Hex,
            Field::CmykPath => Field::SrgbPath,
        }
    }
}

impl AppView {
    /// The text of a field.
    pub open spec fn field(self, f: Field) -> Seq<char> {
        match f {
            Field::Hex => self.hex_input,
            Field::SrgbPath => self.srgb_path,
            Field::CmykPath => self.cmyk_path,
        }
    }

    /// The state with `text` in the field in focus.
    pub open spec fn with_current(self, text: Seq<char>) -> AppView {
        match self.focus {
            Field::Hex => AppView { hex_input: text, ..self },
            Field::SrgbPath => AppView { srgb_path: text, ..self },
            Field::CmykPath => AppView { cmyk_path: text, ..self },
        }
    }

    /// The state before anything is typed.
    pub open spec fn initial() -> AppView {
        AppView {
            hex_input: Seq::empty(),
            srgb_path: DEFAULT_SRGB_PATH@,
            cmyk_path: DEFAULT_CMYK_PATH@,
            rgb: None,
            cmyk: None,
            error: None,
            status: WELCOME@,
            focus: Field::Hex,
            preview_color: None,
        }
    }

    /// The state once the HEX code has been read: its colour with the preview, or no
    /// colour at all and the reason.
    pub open spec fn with_code_read(self) -> AppView {
        match hex_color(self.hex_input) {
            Ok(rgb) => AppView {
                rgb: Some(rgb),
                preview_color: Some(Color::Rgb(rgb.0, rgb.1, rgb.2)),
                error: None,
                ..self
            },
            Err(e) => AppView {
                rgb: None,
                cmyk: None,
                preview_color: None,
                error: Some(HEX_PREFIX@ + e),
                ..self
            },
        }
    }

    /// Whether `after` is the state once a colour has been converted with the profiles in two
    /// files.
    pub open spec fn converts_to(
        self,
        rgb: (u8, u8, u8),
        srgb: Result<Seq<u8>, Seq<char>>,
        cmyk: Result<Seq<u8>, Seq<char>>,
        after: AppView,
    ) -> bool {
        exists|r: Result<(u8, u8, u8, u8), Seq<char>>| #[trigger]
            conversion_outcome(rgb, srgb, cmyk, r) && after == self.with_cmyk(r)
    }

    /// The state once the profiles have answered.
    pub open spec fn with_cmyk(self, r: Result<(u8, u8, u8, u8), Seq<char>>) -> AppView {
        match r {
            Ok(cmyk) => AppView { cmyk: Some(cmyk), status: CONVERTED@, ..self },
            Err(e) => AppView { cmyk: None, error: Some(e), status: NOT_CONVERTED@, ..self },
        }
    }
}

impl App {
    /// The state before anything is typed.
    pub fn new() -> (app: App)
        ensures
            app@ == AppView::initial(),
    {
        App {
            hex_input: String::new(),
            srgb_path: DEFAULT_SRGB_PATH.to_string(),
            cmyk_path: DEFAULT_CMYK_PATH.to_string(),
            rgb: None,
            cmyk: None,
            error: None,
            status: WELCOME.to_string(),
            focus: Field::Hex,
            preview_color: None,
        }
    }

    /// The text of the field in focus, to be changed.
    pub fn current_field_mut(&mut self) -> (field: &mut String)
        ensures
            field@ == old(self)@.field(old(self)@.focus),
            final(self)@ == old(self)@.with_current(final(field)@),
    {
        match self.focus {
            Field::Hex => &mut self.hex_input,
            Field::SrgbPath => &mut self.srgb_path,
            Field::CmykPath => &mut self.cmyk_path,
        }
    }

    /// Moves the focus to the next field.
    pub fn next_field(&mut self)
        ensures
            final(self)@ == (AppView { focus: old(self)@.focus.next(), ..old(self)@ }),
    {
        self.focus =
        match self.focus {
            Field::Hex => Field::SrgbPath,
            Field::SrgbPath => Field::CmykPath,
            Field::CmykPath => Field::Hex,
        };
    }

    /// Moves the focus to the previous field.
    pub fn prev_field(&mut self)
        ensures
            final(self)@ == (AppView { focus: old(self)@.focus.prev(), ..old(self)@ }),
    {
        self.focus =
        match self.focus {
            Field::Hex => Field::CmykPath,
            Field::SrgbPath => Field::Hex,
            Field::CmykPath => Field::SrgbPath,
        };
    }

    /// Reads the HEX code. Returns the colour that is then to be converted to CMYK with
    /// [`App::finish_convert`], or `None` if the code is refused.
    pub fn convert(&mut self) -> (rgb: Option<(u8, u8, u8)>)
        requires
            cuts_between_chars(old(self)@.hex_input),
        ensures
            final(self)@ == old(self)@.with_code_read(),
            rgb == hex_color(old(self)@.hex_input).ok(),
    {
        self.error = None;
        let rgb = match hex_to_rgb(self.hex_input.as_str()) {
            Ok(v) => v,
            Err(e) => {
                self.error = Some(join(HEX_PREFIX, e.as_str()));
                self.rgb = None;
                self.cmyk = None;
                self.preview_color = None;
                return None;
            },
        };
        self.rgb = Some(rgb);
        self.preview_color = Some(Color::Rgb(rgb.0, rgb.1, rgb.2));
        Some(rgb)
    }

    /// Converts a colour to CMYK, given the outcomes of reading the two profiles, and
    /// shows what came of it.
    pub fn finish_convert(
        &mut self,
        rgb: (u8, u8, u8),
        srgb: &Result<Vec<u8>, String>,
        cmyk: &Result<Vec<u8>, String>,
    )
        ensures
            exists|r: Result<(u8, u8, u8, u8), Seq<char>>| #[trigger]
                conversion_outcome(rgb, file_view(*srgb), file_view(*cmyk), r) && final(self)@
                    == old(self)@.with_cmyk(r),
            old(self)@.converts_to(rgb, file_view(*srgb), file_view(*cmyk), final(self)@),
    {
        let r = rgb_to_cmyk_icc(rgb.0, rgb.1, rgb.2, srgb, cmyk);
        assert(rgb == (rgb.0, rgb.1, rgb.2));
        self.show_cmyk(r);
    }

    /// Shows what came of a conversion to CMYK.
    pub fn show_cmyk(&mut self, r: Result<(u8, u8, u8, u8), String>)
        ensures
            final(self)@ == old(self)@.with_cmyk(cmyk_view(r)),
    {
        match r {
            Ok(cmyk) => {
                self.cmyk = Some(cmyk);
                self.status = CONVERTED.to_string();
            },
            Err(e) => {
                self.cmyk = None;
                self.error = Some(e);
                self.status = NOT_CONVERTED.to_string();
            },
        }
    }
}

} // verus!
