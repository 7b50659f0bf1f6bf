use hexcmyk::hex::{hex_to_rgb, is_cut_between_chars};
use hexcmyk::text::{chars_of, join, push_decimal, trim, white_space};

const LENGTH: &str = "HEX должен быть 3 или 6 символов";

fn read(s: &str) -> Result<(u8, u8, u8), String> {
    assert!(is_cut_between_chars(s), "{s:?}");
    hex_to_rgb(s)
}

#[test]
fn six_digits_are_three_channels() {
    assert_eq!(read("FF5733"), Ok((255, 87, 51)));
    assert_eq!(read("#FF5733"), Ok((255, 87, 51)));
    assert_eq!(read("000000"), Ok((0, 0, 0)));
    assert_eq!(read("ffffff"), Ok((255, 255, 255)));
    assert_eq!(read("0a1B2c"), Ok((10, 27, 44)));
}

#[test]
fn three_digits_are_doubled() {
    assert_eq!(read("abc"), Ok((170, 187, 204)));
    assert_eq!(read("#F00"), Ok((255, 0, 0)));
    assert_eq!(read("abc"), read("aabbcc"));
}

#[test]
fn white_space_and_hashes_do_not_count() {
    assert_eq!(read("  #FF5733\n"), Ok((255, 87, 51)));
    assert_eq!(read("\u{a0}\u{3000}##abc\t"), Ok((170, 187, 204)));
    assert_eq!(read("# abc"), Err(LENGTH.to_string()));
    assert_eq!(read("# ab"), Err("invalid digit found in string".to_string()));
}

#[test]
fn case_does_not_count() {
    assert_eq!(read("deadBE"), read("DEADbe"));
    assert_eq!(read("xyzXYZ"), read("XYZxyz"));
    assert_eq!(read("ghij"), read("GHIJ"));
    assert_eq!(is_cut_between_chars("zяяB"), is_cut_between_chars("Zяяb"));
}

#[test]
fn every_color_can_be_written() {
    let mut n: u32 = 0;
    while n < 0x1000000 {
        let (r, g, b) = ((n >> 16) as u8, (n >> 8) as u8, n as u8);
        assert_eq!(hex_to_rgb(&format!("#{r:02X}{g:02X}{b:02X}")), Ok((r, g, b)));
        assert_eq!(hex_to_rgb(&format!("{r:02x}{g:02x}{b:02x}")), Ok((r, g, b)));
        n += 1021;
    }
}

#[test]
fn other_lengths_are_refused() {
    for s in ["", "#", "1", "12", "1234", "12345", "1234567", "ffff", "  ", "я", "яя"] {
        assert_eq!(read(s), Err(LENGTH.to_string()), "{s:?}");
    }
}

#[test]
fn other_digits_are_refused() {
    let message = "1g".parse::<u8>().unwrap_err().to_string();
    for s in ["ggg", "12345g", "g12345", "12g345", "+++", "1+2", "-1-1-1", "++1234", "1 2", "яяя", "яabcd", "abяcd", "abcdя"] {
        assert_eq!(read(s), Err(message.clone()), "{s:?}");
    }
}

#[test]
fn a_plus_sign_may_take_the_place_of_a_digit() {
    assert_eq!(read("+a+b+c"), Ok((10, 11, 12)));
    assert_eq!(read("+fab00"), Ok((15, 171, 0)));
}

#[test]
fn pairs_are_read_as_base_sixteen() {
    for hi in 0x21u8..0x7f {
        for lo in 0x21u8..0x7f {
            let pair = format!("{}{}", hi as char, lo as char);
            if hi == b'#' {
                continue;
            }
            let expected = u8::from_str_radix(&pair, 16).map_err(|e| e.to_string());
            assert_eq!(read(&format!("{pair}00ff")), expected.clone().map(|v| (v, 0, 255)), "{pair}");
            assert_eq!(read(&format!("00{pair}ff")), expected.clone().map(|v| (0, v, 255)), "{pair}");
            assert_eq!(read(&format!("00ff{pair}")), expected.map(|v| (0, 255, v)), "{pair}");
        }
    }
}

#[test]
fn codes_that_are_cut_inside_a_character() {
    for s in ["я1", "1я", "€", "#€", "aяяb", "€€", "ab1яc", "😀ab", "ab😀", "00€1"] {
        assert!(!is_cut_between_chars(s), "{s:?}");
    }
    // The second pair is looked at only when the first is a number.
    for s in ["яa€", "zz1яc", "zz😀", "12я4", "", "я", "яя", "яяя", "abcdя"] {
        assert!(is_cut_between_chars(s), "{s:?}");
    }
}

#[test]
fn padding_and_hashes_do_not_change_the_cuts() {
    for s in ["я1", "abc", "ab1яc", "яяя", "", "ffff"] {
        assert_eq!(is_cut_between_chars(&format!(" \u{a0}{s}\n")), is_cut_between_chars(s));
        assert_eq!(is_cut_between_chars(&format!("##{s}")), is_cut_between_chars(s));
    }
}

#[test]
fn white_space_is_that_of_unicode() {
    for c in '\0'..=char::MAX {
        assert_eq!(white_space(c), c.is_whitespace(), "{c:?}");
    }
}

#[test]
fn trimming() {
    for s in ["", " ", "\t\n", "a", " a ", "\u{2003}a b\u{85}", "  я € ", "\u{200b}a\u{200b}", "x  "] {
        assert_eq!(trim(s), s.trim(), "{s:?}");
    }
}

#[test]
fn decimal_numbers() {
    for n in 0..=255u8 {
        let mut s = "x".to_string();
        push_decimal(&mut s, n);
        assert_eq!(s, format!("x{n}"));
    }
}

#[test]
fn joining_and_taking_apart() {
    assert_eq!(join("ab", "вг"), "abвг");
    assert_eq!(join("", ""), "");
    assert_eq!(chars_of("aя€😀"), vec!['a', 'я', '€', '😀']);
}
