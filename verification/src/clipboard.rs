//! What goes to the clipboard, what is taken from it, and what is said when it fails.

use crate::app::{App, AppView};
use crate::text::{chars_of, decimal, join, push_decimal};
use vstd::prelude::*;

verus! {

pub const OPEN_PREFIX: &'static str = "Не удалось открыть буфер обмена: ";

pub const WRITE_PREFIX: &'static str = "Не удалось скопировать: ";

pub const READ_PREFIX: &'static str = "Не удалось прочитать буфер: ";

pub const NO_COLOR: &'static str = "В буфере нет HEX-цвета";

pub const PASTED_PREFIX: &'static str = "Вставлено: ";

pub const COPIED_PREFIX: &'static str = "Скопировано: ";

pub const HEX_COPIED: &'static str = "HEX скопирован в буфер";

/// A failure of the clipboard, with what the system says of it.
#[derive(Debug, PartialEq, Eq)]
pub enum ClipboardError {
    Open(String),
    Write(String),
    Read(String),
}

impl ClipboardError {
    /// The message for the user.
    pub open spec fn text(self) -> Seq<char> {
        match self {
            ClipboardError::Open(e) => OPEN_PREFIX@ + e@,
            ClipboardError::Write(e) => WRITE_PREFIX@ + e@,
            ClipboardError::Read(e) => READ_PREFIX@ + e@,
        }
    }

    /// The message for the user.
    pub fn message(&self) -> (s: String)
        ensures
            s@ == self.text(),
    {
        match self {
            ClipboardError::Open(e) => join(OPEN_PREFIX, e.as_str()),
            ClipboardError::Write(e) => join(WRITE_PREFIX, e.as_str()),
            ClipboardError::Read(e) => join(READ_PREFIX, e.as_str()),
        }
    }
}

/// Whether `c` may stand in a HEX code: an ASCII hexadecimal digit or `#`.
pub open spec fn is_code_char(c: char) -> bool {
    ||| '0' <= c <= '9'
    ||| 'A' <= c <= 'F'
    ||| 'a' <= c <= 'f'
    ||| c == '#'
}

/// `s` up to its first line feed.
pub open spec fn first_line(s: Seq<char>) -> Seq<char>
    decreases s.len(),
{
    if s.len() == 0 || s[0] == '\n' {
        Seq::empty()
    } else {
        seq![s[0]] + first_line(s.drop_first())
    }
}

/// What is kept of a pasted text: the characters of a HEX code in its first line.
pub open spec fn pasted_code(s: Seq<char>) -> Seq<char> {
    first_line(s).filter(|c: char| is_code_char(c))
}

/// A colour for the clipboard: on one line, or a channel to a line.
pub open spec fn rgb_text(rgb: (u8, u8, u8), one_line: bool) -> Seq<char> {
    let (r, g, b) = (decimal(rgb.0 as nat), decimal(rgb.1 as nat), decimal(rgb.2 as nat));
    if one_line {
        "RGB: "@ + r + ", "@ + g + ", "@ + b
    } else {
        "R "@ + r + "\nG "@ + g + "\nB "@ + b
    }
}

/// Inks for the clipboard: on one line, or an ink to a line.
pub open spec fn cmyk_text(cmyk: (u8, u8, u8, u8), one_line: bool) -> Seq<char> {
    let (c, m) = (decimal(cmyk.0 as nat), decimal(cmyk.1 as nat));
    let (y, k) = (decimal(cmyk.2 as nat), decimal(cmyk.3 as nat));
    if one_line {
        "CMYK: "@ + c + ", "@ + m + ", "@ + y + ", "@ + k
    } else {
        "C "@ + c + "\nM "@ + m + "\nY "@ + y + "\nK "@ + k
    }
}

impl AppView {
    /// The state once a text has been pasted into the field in focus.
    pub open spec fn with_pasted(self, text: Seq<char>) -> AppView {
        let code = pasted_code(text);
        if code.len() == 0 {
            AppView { error: Some(NO_COLOR@), ..self }
        } else {
            AppView {
                status: PASTED_PREFIX@ + code,
                error: None,
                ..self.with_current(self.field(self.focus) + code)
            }
        }
    }

    /// The state once the clipboard has been read.
    pub open spec fn after_paste(self, held: Result<Seq<char>, Seq<char>>) -> AppView {
        match held {
            Ok(text) => self.with_pasted(text),
            Err(e) => self.with_error(e),
        }
    }

    /// The state once a colour or its inks have been put on the clipboard, or have not.
    pub open spec fn after_color_copy(self, text: Seq<char>, taken: Result<(), Seq<char>>) -> AppView {
        match taken {
            Ok(_) => AppView { status: COPIED_PREFIX@ + text, ..self },
            Err(e) => self.with_error(e),
        }
    }

    /// The state once the HEX code has been put on the clipboard, or has not.
    pub open spec fn after_hex_copy(self, taken: Result<(), Seq<char>>) -> AppView {
        match taken {
            Ok(_) => AppView { status: HEX_COPIED@, ..self },
            Err(e) => self.with_error(e),
        }
    }

    /// The state with `error` as its error.
    pub open spec fn with_error(self, error: Seq<char>) -> AppView {
        AppView { error: Some(error), ..self }
    }
}

/// What came of reading the clipboard, with its strings seen as their characters.
pub open spec fn held_view(r: Result<String, ClipboardError>) -> Result<Seq<char>, Seq<char>> {
    match r {
        Ok(text) => Ok(text@),
        Err(e) => Err(e.text()),
    }
}

/// What came of writing to the clipboard, with the message seen as its characters.
pub open spec fn taken_view(r: Result<(), ClipboardError>) -> Result<(), Seq<char>> {
    match r {
        Ok(_) => Ok(()),
        Err(e) => Err(e.text()),
    }
}

/// Whether `c` may stand in a HEX code.
pub fn code_char(c: char) -> (r: bool)
    ensures
        r == is_code_char(c),
{
    ('0' <= c && c <= '9') || ('A' <= c && c <= 'F') || ('a' <= c && c <= 'f') || c == '#'
}

/// Takes the HEX code out of a pasted text.
pub fn take_code(text: &str) -> (r: String)
    ensures
        r@ == pasted_code(text@),
{
    let v = chars_of(text);
    let mut r = String::new();
    let mut i: usize = 0;
    let ghost p = |c: char| is_code_char(c);
    proof {
        reveal(Seq::filter);
        assert(v@.skip(0) == v@);
    }
    while i < v.len() && v[i] != '\n'
        invariant
            i <= v.len(),
            p == (|c: char| is_code_char(c)),
            r@ == v@.take(i as int).filter(p),
            first_line(v@) == v@.take(i as int) + first_line(v@.skip(i as int)),
        decreases v.len() - i,
    {
        let c = v[i];
        proof {
            reveal(Seq::filter);
            let rest = v@.skip(i as int);
            assert(rest.drop_first() == v@.skip(i + 1));
            assert(v@.take(i + 1).drop_last() == v@.take(i as int));
            assert(v@.take(i + 1) == v@.take(i as int) + seq![rest[0]]);
            assert(first_line(v@) == v@.take(i + 1) + first_line(v@.skip(i + 1)));
        }
        if code_char(c) {
            r.push(c);
        }
        i += 1;
    }
    assert(first_line(v@) == v@.take(i as int));
    r
}

/// A colour for the clipboard.
pub fn format_rgb(rgb: (u8, u8, u8), one_line: bool) -> (s: String)
    ensures
        s@ == rgb_text(rgb, one_line),
{
    let (first, second, third) = if one_line {
        ("RGB: ", ", ", ", ")
    } else {
        ("R ", "\nG ", "\nB ")
    };
    let mut s = first.to_string();
    push_decimal(&mut s, rgb.0);
    s.append(second);
    push_decimal(&mut s, rgb.1);
    s.append(third);
    push_decimal(&mut s, rgb.2);
    s
}

/// Inks for the clipboard.
pub fn format_cmyk(cmyk: (u8, u8, u8, u8), one_line: bool) -> (s: String)
    ensures
        s@ == cmyk_text(cmyk, one_line),
{
    let (first, second, third, fourth) = if one_line {
        ("CMYK: ", ", ", ", ", ", ")
    } else {
        ("C ", "\nM ", "\nY ", "\nK ")
    };
    let mut s = first.to_string();
    push_decimal(&mut s, cmyk.0);
    s.append(second);
    push_decimal(&mut s, cmyk.1);
    s.append(third);
    push_decimal(&mut s, cmyk.2);
    s.append(fourth);
    push_decimal(&mut s, cmyk.3);
    s
}

impl App {
    /// Takes in what came of reading the clipboard.
    pub fn paste(&mut self, r: Result<String, ClipboardError>)
        ensures
            final(self)@ == (match r {
                Ok(text) => old(self)@.with_pasted(text@),
                Err(e) => old(self)@.with_error(e.text()),
            }),
            final(self)@ == old(self)@.after_paste(held_view(r)),
    {
        match r {
            Ok(text) => {
                let code = take_code(text.as_str());
                if code.as_str().is_empty() {
                    self.error = Some(NO_COLOR.to_string());
                } else {
                    let field = self.current_field_mut();
                    field.append(code.as_str());
                    self.status = join(PASTED_PREFIX, code.as_str());
                    self.error = None;
                }
            },
            Err(e) => {
                self.error = Some(e.message());
            },
        }
    }

    /// Takes in what came of copying `text`, a colour or its inks.
    pub fn color_copied(&mut self, text: &str, r: Result<(), ClipboardError>)
        ensures
            final(self)@ == (match r {
                Ok(_) => AppView { status: COPIED_PREFIX@ + text@, ..old(self)@ },
                Err(e) => old(self)@.with_error(e.text()),
            }),
            final(self)@ == old(self)@.after_color_copy(text@, taken_view(r)),
    {
        match r {
            Ok(_) => {
                self.status = join(COPIED_PREFIX, text);
            },
            Err(e) => {
                self.error = Some(e.message());
            },
        }
    }

    /// Takes in what came of copying the HEX code.
    pub fn hex_copied(&mut self, r: Result<(), ClipboardError>)
        ensures
            final(self)@ == (match r {
                Ok(_) => AppView { status: HEX_COPIED@, ..old(self)@ },
                Err(e) => old(self)@.with_error(e.text()),
            }),
            final(self)@ == old(self)@.after_hex_copy(taken_view(r)),
    {
        match r {
            Ok(_) => {
                self.status = HEX_COPIED.to_string();
            },
            Err(e) => {
                self.error = Some(e.message());
            },
        }
    }
}

} // verus!
