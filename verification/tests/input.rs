use hexcmyk::app::{App, Field};
use hexcmyk::input::{
    handle_command_key, handle_control_key, handle_key, on_event, Action, Event, KeyCode, KeyEvent,
};
use hexcmyk::style::Color;

fn press(code: KeyCode) -> Event {
    Event::Key(KeyEvent { code, pressed: true, control: false, alt: false })
}

fn control(c: char, alt: bool) -> Event {
    Event::Key(KeyEvent { code: KeyCode::Char(c), pressed: true, control: true, alt })
}

fn send(app: &mut App, event: Event) -> Action {
    assert!(app.can_take(event));
    on_event(app, event)
}

fn enter_text(app: &mut App, text: &str) {
    for c in text.chars() {
        assert_eq!(send(app, press(KeyCode::Char(c))), Action::Continue);
    }
}

#[test]
fn the_start() {
    let app = App::new();
    assert_eq!(app.hex_input, "");
    assert_eq!(app.srgb_path, "sRGB_v4_ICC.icc");
    assert_eq!(app.cmyk_path, "CoatedFOGRA27.icc");
    assert_eq!((app.rgb, app.cmyk, app.preview_color), (None, None, None));
    assert_eq!(app.error, None);
    assert_eq!(app.status, "Введите HEX и нажмите Enter. Tab — переключение полей.");
    assert_eq!(app.focus, Field::Hex);
}

#[test]
fn fields_follow_one_another() {
    let mut app = App::new();
    let mut seen = vec![];
    for _ in 0..4 {
        seen.push(app.focus);
        app.next_field();
    }
    assert_eq!(seen, vec![Field::Hex, Field::SrgbPath, Field::CmykPath, Field::Hex]);
    let mut app = App::new();
    let mut seen = vec![];
    for _ in 0..4 {
        seen.push(app.focus);
        app.prev_field();
    }
    assert_eq!(seen, vec![Field::Hex, Field::CmykPath, Field::SrgbPath, Field::Hex]);
}

#[test]
fn tab_and_back_tab_move_the_focus() {
    let mut app = App::new();
    assert_eq!(send(&mut app, press(KeyCode::Tab)), Action::Continue);
    assert_eq!(app.focus, Field::SrgbPath);
    assert_eq!(send(&mut app, press(KeyCode::BackTab)), Action::Continue);
    assert_eq!(app, App::new());
    send(&mut app, press(KeyCode::BackTab));
    assert_eq!(app.focus, Field::CmykPath);
}

#[test]
fn typing_goes_to_the_field_in_focus() {
    let mut app = App::new();
    enter_text(&mut app, "a€");
    send(&mut app, press(KeyCode::Tab));
    enter_text(&mut app, "x");
    send(&mut app, press(KeyCode::Tab));
    enter_text(&mut app, "я");
    assert_eq!(app.hex_input, "a€");
    assert_eq!(app.srgb_path, "sRGB_v4_ICC.iccx");
    assert_eq!(app.cmyk_path, "CoatedFOGRA27.iccя");
    send(&mut app, press(KeyCode::Backspace));
    send(&mut app, press(KeyCode::Backspace));
    assert_eq!(app.cmyk_path, "CoatedFOGRA27.ic");
}

#[test]
fn backspace_undoes_typing_and_stops_at_nothing() {
    let mut app = App::new();
    send(&mut app, press(KeyCode::Backspace));
    assert_eq!(app, App::new());
    enter_text(&mut app, "я");
    send(&mut app, press(KeyCode::Backspace));
    assert_eq!(app, App::new());
}

#[test]
fn the_current_field_can_be_changed() {
    let mut app = App::new();
    app.focus = Field::SrgbPath;
    app.current_field_mut().clear();
    assert_eq!(app.srgb_path, "");
    app.focus = Field::CmykPath;
    *app.current_field_mut() = "p".to_string();
    assert_eq!(app.cmyk_path, "p");
}

#[test]
fn escape_quits() {
    let mut app = App::new();
    assert_eq!(send(&mut app, press(KeyCode::Esc)), Action::Quit);
    assert_eq!(app, App::new());
    let held = Event::Key(KeyEvent { code: KeyCode::Esc, pressed: true, control: true, alt: false });
    assert_eq!(send(&mut app, held), Action::Continue);
}

#[test]
fn only_presses_count() {
    let mut app = App::new();
    for code in [KeyCode::Esc, KeyCode::Tab, KeyCode::Enter, KeyCode::Char('a')] {
        for held in [false, true] {
            let event = Event::Key(KeyEvent { code, pressed: false, control: held, alt: held });
            assert_eq!(send(&mut app, event), Action::Continue);
        }
    }
    assert_eq!(send(&mut app, Event::Other), Action::Continue);
    assert_eq!(send(&mut app, press(KeyCode::Other)), Action::Continue);
    assert_eq!(app, App::new());
}

#[test]
fn enter_moves_on_from_the_paths() {
    let mut app = App::new();
    app.focus = Field::SrgbPath;
    assert_eq!(handle_key(&mut app, KeyCode::Enter), Action::Continue);
    assert_eq!(app.focus, Field::CmykPath);
    assert_eq!(handle_key(&mut app, KeyCode::Enter), Action::Continue);
    assert_eq!(app, App::new());
}

#[test]
fn enter_reads_the_code() {
    let mut app = App::new();
    app.error = Some("old".to_string());
    app.cmyk = Some((1, 2, 3, 4));
    enter_text(&mut app, "#FF5733");
    let expected = Action::Convert {
        rgb: (255, 87, 51),
        srgb_path: "sRGB_v4_ICC.icc".to_string(),
        cmyk_path: "CoatedFOGRA27.icc".to_string(),
    };
    assert_eq!(send(&mut app, press(KeyCode::Enter)), expected);
    assert_eq!(app.rgb, Some((255, 87, 51)));
    assert_eq!(app.preview_color, Some(Color::Rgb(255, 87, 51)));
    assert_eq!(app.error, None);
    app.show_cmyk(Ok((0, 66, 80, 0)));
    assert_eq!(app.cmyk, Some((0, 66, 80, 0)));
    app.show_cmyk(Err("no".to_string()));
    assert_eq!((app.cmyk, app.error), (None, Some("no".to_string())));
}

#[test]
fn a_refused_code_leaves_no_color() {
    let mut app = App::new();
    app.rgb = Some((1, 2, 3));
    app.cmyk = Some((1, 2, 3, 4));
    app.preview_color = Some(Color::Rgb(1, 2, 3));
    app.hex_input = "12".to_string();
    app.status = "before".to_string();
    assert_eq!(send(&mut app, press(KeyCode::Enter)), Action::Continue);
    assert_eq!((app.rgb, app.cmyk, app.preview_color), (None, None, None));
    assert_eq!(app.error, Some("HEX: HEX должен быть 3 или 6 символов".to_string()));
    assert_eq!(app.status, "before");
    app.hex_input = "xyz".to_string();
    assert_eq!(app.convert(), None);
    assert_eq!(app.error, Some("HEX: invalid digit found in string".to_string()));
}

#[test]
fn events_that_cannot_be_taken() {
    let mut app = App::new();
    app.hex_input = "я1".to_string();
    assert!(!app.can_take(press(KeyCode::Enter)));
    assert!(app.can_take(press(KeyCode::Tab)));
    assert!(app.can_take(Event::Other));
    app.focus = Field::SrgbPath;
    assert!(app.can_take(press(KeyCode::Enter)));
}

#[test]
fn control_and_v_paste() {
    let mut app = App::new();
    for c in ['v', 'V', 'м', 'М'] {
        assert_eq!(send(&mut app, control(c, false)), Action::Paste);
    }
    assert_eq!(app, App::new());
}

#[test]
fn control_and_r_copy_the_color() {
    let mut app = App::new();
    for c in ['r', 'R', 'к', 'К'] {
        assert_eq!(send(&mut app, control(c, false)), Action::Continue);
    }
    app.rgb = Some((255, 7, 30));
    for c in ['r', 'R', 'к', 'К'] {
        let lines = Action::CopyColor { text: "R 255\nG 7\nB 30".to_string() };
        assert_eq!(send(&mut app, control(c, false)), lines);
        let line = Action::CopyColor { text: "RGB: 255, 7, 30".to_string() };
        assert_eq!(send(&mut app, control(c, true)), line);
    }
}

#[test]
fn control_and_c_copy_the_inks() {
    let mut app = App::new();
    for c in ['c', 'C', 'с', 'С'] {
        assert_eq!(handle_control_key(&app, KeyCode::Char(c), true), Action::Continue);
    }
    app.cmyk = Some((0, 66, 80, 100));
    for c in ['c', 'C', 'с', 'С'] {
        let lines = Action::CopyColor { text: "C 0\nM 66\nY 80\nK 100".to_string() };
        assert_eq!(send(&mut app, control(c, false)), lines);
        let line = Action::CopyColor { text: "CMYK: 0, 66, 80, 100".to_string() };
        assert_eq!(send(&mut app, control(c, true)), line);
    }
}

#[test]
fn control_and_h_copy_the_code() {
    let mut app = App::new();
    app.hex_input = " #F00 \t".to_string();
    for c in ['h', 'H', 'р', 'Р'] {
        assert_eq!(send(&mut app, control(c, true)), Action::CopyHex { text: "#F00".to_string() });
    }
}

#[test]
fn other_control_keys_do_nothing() {
    let mut app = App::new();
    app.rgb = Some((1, 2, 3));
    app.cmyk = Some((1, 2, 3, 4));
    for c in ['a', 'x', 'я', '1'] {
        assert_eq!(send(&mut app, control(c, false)), Action::Continue);
    }
    let enter = KeyEvent { code: KeyCode::Enter, pressed: true, control: true, alt: false };
    assert_eq!(send(&mut app, Event::Key(enter)), Action::Continue);
    assert_eq!(app.hex_input, "");
}

#[test]
fn command_keys_change_nothing() {
    let mut app = App::new();
    app.cmyk = Some((1, 2, 3, 4));
    handle_command_key(&mut app, KeyCode::Char('c'));
    handle_command_key(&mut app, KeyCode::Esc);
    let mut expected = App::new();
    expected.cmyk = Some((1, 2, 3, 4));
    assert_eq!(app, expected);
}
