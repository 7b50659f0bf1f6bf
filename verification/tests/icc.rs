use hexcmyk::app::{App, Field};
use hexcmyk::icc::{pixel_to_percent, rgb_to_cmyk_icc, to_percent};
use hexcmyk::style::Color;

fn srgb() -> Vec<u8> {
    lcms2::Profile::new_srgb().icc().unwrap()
}

fn put(data: &mut Vec<u8>, n: u32) {
    data.extend(n.to_be_bytes());
}

/// A printer profile from Lab to CMYK: 20 percent of cyan and 40 percent of magenta
/// everywhere, no yellow, and black from full at no lightness to none at full lightness.
fn printer() -> Vec<u8> {
    let mut lut = b"mft1\0\0\0\0\x03\x04\x02\0".to_vec();
    for i in 0..9 {
        put(&mut lut, if i % 4 == 0 { 0x10000 } else { 0 });
    }
    for _ in 0..3 {
        lut.extend(0..=255u8);
    }
    for i in 0..8 {
        lut.extend([51, 102, 0, if i < 4 { 255 } else { 0 }]);
    }
    for _ in 0..4 {
        lut.extend(0..=255u8);
    }
    let mut data = Vec::new();
    put(&mut data, 144 + lut.len() as u32);
    data.extend(b"lcms");
    put(&mut data, 0x02400000);
    data.extend(b"prtrCMYKLab ");
    data.extend([0; 12]);
    data.extend(b"acsp");
    data.resize(68, 0);
    put(&mut data, 0xf6d6);
    put(&mut data, 0x10000);
    put(&mut data, 0xd32d);
    data.resize(128, 0);
    put(&mut data, 1);
    data.extend(b"B2A0");
    put(&mut data, 144);
    put(&mut data, lut.len() as u32);
    data.extend(lut);
    data
}

#[test]
fn percentages_are_rounded_shares_of_255() {
    for v in 0..=255u8 {
        assert_eq!(to_percent(v), ((v as f32 / 255.0) * 100.0).round() as u8);
    }
    assert_eq!(to_percent(0), 0);
    assert_eq!(to_percent(1), 0);
    assert_eq!(to_percent(2), 1);
    assert_eq!(to_percent(128), 50);
    assert_eq!(to_percent(255), 100);
}

#[test]
fn percentages_never_fall() {
    for v in 0..255u8 {
        assert!(to_percent(v) <= to_percent(v + 1));
    }
}

#[test]
fn pixels_keep_the_order_of_their_inks() {
    assert_eq!(pixel_to_percent([0, 51, 102, 255]), (0, 20, 40, 100));
}

#[test]
fn colors_go_through_the_profiles() {
    let (input, output) = (Ok(srgb()), Ok(printer()));
    // White is no ink at all, whatever the table says.
    assert_eq!(rgb_to_cmyk_icc(255, 255, 255, &input, &output), Ok((0, 0, 0, 0)));
    assert_eq!(rgb_to_cmyk_icc(0, 0, 0, &input, &output), Ok((20, 40, 0, 100)));
    let (c, m, y, k) = rgb_to_cmyk_icc(128, 128, 128, &input, &output).unwrap();
    assert_eq!((c, m, y), (20, 40, 0));
    assert!(44 <= k && k <= 48, "{k}");
    let (_, _, _, red) = rgb_to_cmyk_icc(255, 0, 0, &input, &output).unwrap();
    let (_, _, _, green) = rgb_to_cmyk_icc(0, 255, 0, &input, &output).unwrap();
    let (_, _, _, blue) = rgb_to_cmyk_icc(0, 0, 255, &input, &output).unwrap();
    assert!(green < red && red < blue, "{red} {green} {blue}");
}

#[test]
fn a_file_that_cannot_be_read_is_named() {
    let missing = || Err("No such file".to_string());
    let srgb_error = Err("Не удалось загрузить sRGB ICC: No such file".to_string());
    assert_eq!(rgb_to_cmyk_icc(1, 2, 3, &missing(), &Ok(printer())), srgb_error);
    assert_eq!(rgb_to_cmyk_icc(1, 2, 3, &missing(), &missing()), srgb_error);
    assert_eq!(
        rgb_to_cmyk_icc(1, 2, 3, &Ok(srgb()), &missing()),
        Err("Не удалось загрузить CMYK ICC: No such file".to_string())
    );
}

#[test]
fn a_file_that_is_no_profile_is_named() {
    let text = std::io::Error::from(std::io::ErrorKind::Other).to_string();
    for junk in [vec![], b"not a profile".to_vec(), vec![0; 4096]] {
        assert_eq!(
            rgb_to_cmyk_icc(1, 2, 3, &Ok(junk.clone()), &Ok(printer())),
            Err(format!("Не удалось загрузить sRGB ICC: {text}"))
        );
        assert_eq!(
            rgb_to_cmyk_icc(1, 2, 3, &Ok(junk.clone()), &Err("gone".to_string())),
            Err(format!("Не удалось загрузить sRGB ICC: {text}"))
        );
        assert_eq!(
            rgb_to_cmyk_icc(1, 2, 3, &Ok(srgb()), &Ok(junk)),
            Err(format!("Не удалось загрузить CMYK ICC: {text}"))
        );
    }
}

#[test]
fn profiles_that_do_not_fit_together_are_refused() {
    let text = lcms2::Error::ObjectCreationError.to_string();
    let expected = Err(format!("Ошибка создания transform: {text}"));
    assert_eq!(rgb_to_cmyk_icc(1, 2, 3, &Ok(srgb()), &Ok(srgb())), expected);
    assert_eq!(rgb_to_cmyk_icc(1, 2, 3, &Ok(printer()), &Ok(srgb())), expected);
}

#[test]
fn a_conversion_from_start_to_end() {
    let mut app = App::new();
    app.hex_input = " #000 ".to_string();
    let rgb = app.convert().unwrap();
    assert_eq!(rgb, (0, 0, 0));
    app.finish_convert(rgb, &Ok(srgb()), &Ok(printer()));
    assert_eq!(app.rgb, Some((0, 0, 0)));
    assert_eq!(app.preview_color, Some(Color::Rgb(0, 0, 0)));
    assert_eq!(app.cmyk, Some((20, 40, 0, 100)));
    assert_eq!(app.error, None);
    assert_eq!(app.status, "OK. c — копировать CMYK, r — копировать RGB, h — копировать HEX");
    assert_eq!(app.focus, Field::Hex);
}

#[test]
fn a_conversion_without_profiles() {
    let mut app = App::new();
    app.cmyk = Some((1, 2, 3, 4));
    app.hex_input = "010203".to_string();
    let rgb = app.convert().unwrap();
    app.finish_convert(rgb, &Err("gone".to_string()), &Ok(printer()));
    assert_eq!(app.rgb, Some((1, 2, 3)));
    assert_eq!(app.preview_color, Some(Color::Rgb(1, 2, 3)));
    assert_eq!(app.cmyk, None);
    assert_eq!(app.error, Some("Не удалось загрузить sRGB ICC: gone".to_string()));
    assert_eq!(app.status, "Ошибка конверсии CMYK (проверь пути к ICC)");
}
