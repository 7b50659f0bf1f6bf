use hexcmyk::app::{App, Field};
use hexcmyk::clipboard::{code_char, format_cmyk, format_rgb, take_code, ClipboardError};
use hexcmyk::hex::hex_to_rgb;
use hexcmyk::input::{on_event, Action, Event, KeyCode, KeyEvent};

#[test]
fn code_characters() {
    for c in '\0'..=char::MAX {
        assert_eq!(code_char(c), c.is_ascii_hexdigit() || c == '#');
    }
}

#[test]
fn the_code_in_a_pasted_text() {
    for text in [
        "", "\n", "\nff", "#FF5733", "  #ff5733  \r\nabc", "color: #abc;", "ff\rab\n12", "яяя", "a\u{2028}b\nc", "a\u{85}b", "12\n",
    ] {
        let line = text.lines().next().unwrap_or("").trim();
        let expected: String = line.chars().filter(|c| c.is_ascii_hexdigit() || *c == '#').collect();
        assert_eq!(take_code(text), expected, "{text:?}");
    }
    assert_eq!(take_code("color: #abc;"), "c#abc");
    assert_eq!(take_code("ff\rab\n12"), "ffab");
}

#[test]
fn a_paste_goes_behind_the_text_in_focus() {
    let mut app = App::new();
    app.error = Some("old".to_string());
    app.hex_input = "a".to_string();
    app.paste(Ok(" #bc\nignored".to_string()));
    assert_eq!(app.hex_input, "a#bc");
    assert_eq!(app.status, "Вставлено: #bc");
    assert_eq!(app.error, None);
    app.focus = Field::CmykPath;
    app.paste(Ok("f".to_string()));
    assert_eq!(app.cmyk_path, "CoatedFOGRA27.iccf");
    assert_eq!(app.hex_input, "a#bc");
}

#[test]
fn a_paste_without_a_code() {
    let mut app = App::new();
    app.paste(Ok("привет\nfff".to_string()));
    let mut expected = App::new();
    expected.error = Some("В буфере нет HEX-цвета".to_string());
    assert_eq!(app, expected);
}

#[test]
fn failures_of_the_clipboard() {
    let cases = [
        (ClipboardError::Open("x".to_string()), "Не удалось открыть буфер обмена: x"),
        (ClipboardError::Write("y".to_string()), "Не удалось скопировать: y"),
        (ClipboardError::Read("z".to_string()), "Не удалось прочитать буфер: z"),
    ];
    for (e, text) in cases {
        assert_eq!(e.message(), text);
    }
    let mut app = App::new();
    app.paste(Err(ClipboardError::Read("z".to_string())));
    assert_eq!(app.error, Some("Не удалось прочитать буфер: z".to_string()));
    app.color_copied("t", Err(ClipboardError::Open("x".to_string())));
    assert_eq!(app.error, Some("Не удалось открыть буфер обмена: x".to_string()));
    app.hex_copied(Err(ClipboardError::Write("y".to_string())));
    assert_eq!(app.error, Some("Не удалось скопировать: y".to_string()));
    assert_eq!(app.status, App::new().status);
}

#[test]
fn copies_are_confirmed() {
    let mut app = App::new();
    app.error = Some("old".to_string());
    app.color_copied("RGB: 1, 2, 3", Ok(()));
    assert_eq!(app.status, "Скопировано: RGB: 1, 2, 3");
    app.hex_copied(Ok(()));
    assert_eq!(app.status, "HEX скопирован в буфер");
    assert_eq!(app.error, Some("old".to_string()));
}

#[test]
fn colors_as_text() {
    assert_eq!(format_rgb((0, 10, 255), true), "RGB: 0, 10, 255");
    assert_eq!(format_rgb((0, 10, 255), false), "R 0\nG 10\nB 255");
    assert_eq!(format_cmyk((0, 9, 10, 100), true), "CMYK: 0, 9, 10, 100");
    assert_eq!(format_cmyk((0, 9, 10, 100), false), "C 0\nM 9\nY 10\nK 100");
    assert_ne!(format_rgb((1, 11, 1), false), format_rgb((11, 1, 1), false));
    assert_ne!(format_cmyk((1, 11, 1, 1), true), format_cmyk((11, 1, 1, 1), true));
}

#[test]
fn a_copied_code_pastes_back() {
    for code in ["#FF5733", " abc ", "##0a1B2c\n"] {
        let mut from = App::new();
        from.hex_input = code.to_string();
        let copy = KeyEvent { code: KeyCode::Char('h'), pressed: true, control: true, alt: false };
        let text = match on_event(&mut from, Event::Key(copy)) {
            Action::CopyHex { text } => text,
            other => panic!("{other:?}"),
        };
        let mut to = App::new();
        to.paste(Ok(text.clone()));
        assert_eq!(to.hex_input, text);
        assert_eq!(hex_to_rgb(&to.hex_input), hex_to_rgb(code));
    }
    // A plus sign is not pasted.
    assert_eq!(take_code("+a+b+c"), "abc");
    assert_ne!(hex_to_rgb("+a+b+c"), hex_to_rgb("abc"));
}
