use hexcmyk::app::{App, Field};
use hexcmyk::style::{Color, Style};
use ratatui::layout::{Constraint, Direction, Layout, Rect};
use hexcmyk::view::{format_ink, ui, ui_in_rows, Area, Body, Line, Panel};

const PLAIN: Style = Style { fg: None, bg: None, bold: false };
const FOCUS: Style = Style { fg: Some(Color::Yellow), bg: None, bold: true };
const HELP: Style = Style { fg: Some(Color::DarkGray), bg: None, bold: false };
const ERROR: Style = Style { fg: Some(Color::Red), bg: None, bold: true };

fn panels(app: &App) -> Vec<Panel> {
    let rows = vec![Area { x: 0, y: 0, width: 1, height: 1 }; 7];
    ui_in_rows(&rows, app).into_iter().map(|(_, panel)| panel).collect()
}

fn text_panel(title: &'static str, border: Style, text: &str) -> Panel {
    Panel { title, border, style: PLAIN, body: Body::Text(text.to_string()), wrap: false }
}

fn line(text: &str, style: Option<Style>) -> Line {
    Line { text: text.to_string(), style }
}

#[test]
fn the_first_screen() {
    let help = vec![
        line("Enter — конвертировать | Tab — след. поле | Shift+Tab — пред. поле | Esc — выход", Some(HELP)),
        line("Копирование: Ctrl+R — RGB | Ctrl+C — CMYK | Ctrl+H — HEX | + ALT — в строчку (rgb: 0, 0, 0)", Some(HELP)),
        line("Введите HEX и нажмите Enter. Tab — переключение полей.", None),
    ];
    let expected = vec![
        text_panel(" HEX (например: #FF5733 или FF5733) ", FOCUS, ""),
        text_panel(" Путь к sRGB ICC ", PLAIN, "sRGB_v4_ICC.icc"),
        text_panel(" Путь к CMYK ICC ", PLAIN, "CoatedFOGRA27.icc"),
        text_panel(" RGB ", PLAIN, "RGB: —"),
        text_panel(" CMYK ", PLAIN, "CMYK: —"),
        text_panel(" Превью ", PLAIN, "(нет цвета)"),
        Panel { title: " Статус ", border: PLAIN, style: PLAIN, body: Body::Lines(help), wrap: true },
    ];
    assert_eq!(panels(&App::new()), expected);
}

#[test]
fn a_converted_color() {
    let mut app = App::new();
    app.hex_input = "#FF5733".to_string();
    app.convert();
    app.show_cmyk(Ok((0, 66, 80, 100)));
    let panels = panels(&app);
    assert_eq!(panels[0].body, Body::Text("#FF5733".to_string()));
    assert_eq!(panels[3].body, Body::Text("RGB: 255, 87, 51".to_string()));
    assert_eq!(panels[4].body, Body::Text("CMYK: 0%, 66%, 80%, 100%".to_string()));
    assert_eq!(panels[5].body, Body::Text("  ".to_string()));
    assert_eq!(panels[5].style, Style { fg: None, bg: Some(Color::Rgb(255, 87, 51)), bold: false });
    assert_eq!(format_ink((1, 2, 3, 4)), "CMYK: 1%, 2%, 3%, 4%");
}

#[test]
fn the_error_comes_last() {
    let mut app = App::new();
    app.error = Some("беда".to_string());
    app.status = "s".to_string();
    match &panels(&app)[6].body {
        Body::Lines(lines) => {
            assert_eq!(lines.len(), 4);
            assert_eq!(lines[2], line("s", None));
            assert_eq!(lines[3], line("Ошибка: беда", Some(ERROR)));
        }
        other => panic!("{other:?}"),
    }
}

#[test]
fn the_field_in_focus_is_highlighted() {
    let mut app = App::new();
    for (i, field) in [Field::Hex, Field::SrgbPath, Field::CmykPath].into_iter().enumerate() {
        app.focus = field;
        let borders: Vec<Style> = panels(&app).into_iter().map(|p| p.border).collect();
        for (j, border) in borders.into_iter().enumerate() {
            assert_eq!(border, if i == j { FOCUS } else { PLAIN });
        }
    }
}

#[test]
fn panels_lie_one_above_the_other() {
    let screen = ui(Area { x: 2, y: 5, width: 80, height: 30 }, &App::new());
    let areas: Vec<Area> = screen.iter().map(|(area, _)| *area).collect();
    let mut expected = vec![];
    for i in 0..6 {
        expected.push(Area { x: 3, y: 6 + 3 * i, width: 78, height: 3 });
    }
    expected.push(Area { x: 3, y: 24, width: 78, height: 10 });
    assert_eq!(areas, expected);
    let titles: Vec<&str> = screen.iter().map(|(_, p)| p.title).collect();
    assert_eq!(titles[0], " HEX (например: #FF5733 или FF5733) ");
    assert_eq!(titles[6], " Статус ");
}

#[test]
fn a_screen_without_room() {
    for (width, height) in [(0, 0), (1, 1), (1, 50), (50, 1), (2, 2), (65535, 65535), (10, 9)] {
        let screen = ui(Area { x: 0, y: 0, width, height }, &App::new());
        assert_eq!(screen.len(), 7);
        let expected = if width < 2 || height < 2 { (0, 0) } else { (1, width - 2) };
        for (area, _) in screen {
            assert_eq!((area.x, area.width), expected);
        }
    }
}

#[test]
fn panels_fill_every_screen_that_has_room() {
    for height in (23..600).chain([1000, 32767, 32768, 65000, 65535]) {
        for y in [0, (65535 - height) / 2, 65535 - height] {
            let screen = ui(Area { x: 0, y, width: 40, height }, &App::new());
            for (i, (area, _)) in screen.iter().enumerate() {
                let i = i as u16;
                let rest = if i < 6 { 3 } else { height - 2 - 18 };
                assert_eq!(*area, Area { x: 1, y: y + 1 + 3 * i, width: 38, height: rest });
            }
        }
    }
}

#[test]
fn rows_with_room_are_stacked() {
    let mut seed: u64 = 1;
    let mut next = |limit: u64| {
        seed = seed.wrapping_mul(6364136223846793005).wrapping_add(1442695040888963407);
        ((seed >> 33) % limit) as u16
    };
    for round in 0..200u16 {
        let count = if round % 50 == 0 { 16 } else { 1 + next(16) };
        let mut limit = if round % 3 == 0 { 2000 } else { 12 };
        if round % 7 == 0 {
            limit = 1;
        }
        let mut heights = vec![];
        for _ in 1..count {
            heights.push(next(limit));
        }
        let least = if round % 11 == 0 && limit < 2000 { 33000 + next(1000) } else { next(limit) };
        let total: u16 = heights.iter().sum::<u16>();
        let height = total + least + if round % 5 == 0 { 0 } else { next(400) };
        let y = next((65535 - height as u64).min(500) + 1);
        let mut constraints: Vec<Constraint> = heights.iter().map(|n| Constraint::Length(*n)).collect();
        constraints.push(Constraint::Min(least));
        let rows = Layout::default()
            .direction(Direction::Vertical)
            .constraints(constraints)
            .split(Rect { x: 3, y, width: 9, height });
        let mut top = y;
        for (i, n) in heights.iter().enumerate() {
            assert_eq!(rows[i], Rect { x: 3, y: top, width: 9, height: *n }, "{heights:?} {least} {y} {height}");
            top += n;
        }
        assert_eq!(rows[heights.len()], Rect { x: 3, y: top, width: 9, height: height - total });
    }
}
