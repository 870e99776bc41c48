use gerb::utils::colors::{hex, hex_color_to_rgb, Color};

#[test]
fn long_form_is_read() {
    assert_eq!(hex_color_to_rgb("#000000"), Some((0, 0, 0)));
    assert_eq!(hex_color_to_rgb("#ffffff"), Some((255, 255, 255)));
    assert_eq!(hex_color_to_rgb("#278cac"), Some((39, 140, 172)));
    assert_eq!(hex_color_to_rgb("#278CAC"), Some((39, 140, 172)));
    assert_eq!(hex_color_to_rgb("#0a1B2c"), Some((10, 27, 44)));
}

#[test]
fn short_form_takes_each_digit_twice() {
    assert_eq!(hex_color_to_rgb("#000"), Some((0, 0, 0)));
    assert_eq!(hex_color_to_rgb("#fff"), Some((255, 255, 255)));
    assert_eq!(hex_color_to_rgb("#1aF"), Some((17, 170, 255)));
}

#[test]
fn other_texts_are_no_colour() {
    for text in [
        "", "#", "000000", "#00000", "#0000000", "#00000g", "#12", "#12345", "0#00000", "#gg0000",
        "#12 456", "#fffffé", "é00000", "#+12345", "#ab", "abcd", "#-1-1-1",
    ] {
        assert_eq!(hex_color_to_rgb(text), None);
        assert_eq!(Color::try_from_hex(text), None);
    }
}

#[test]
fn hex_agrees_with_hex_color_to_rgb() {
    let digits: Vec<char> = ('0'..='9').chain('a'..='f').chain('A'..='F').collect();
    for a in &digits {
        for b in &digits {
            for c in &digits {
                let s = format!("#{a}{b}{c}{c}{a}{b}");
                let (r, g, b) = hex_color_to_rgb(&s).unwrap();
                assert_eq!(hex(&s), (r, g, b, 255));
            }
        }
    }
}

#[test]
fn colours_are_made_and_read() {
    let c = Color::new(1, 2, 3);
    assert_eq!((c.red(), c.green(), c.blue(), c.alpha()), (1, 2, 3, 255));
    let d = Color::new_alpha(4, 5, 6, 7);
    assert_eq!((d.red(), d.green(), d.blue(), d.alpha()), (4, 5, 6, 7));
    assert_eq!(c.with_alpha(9), Color::new_alpha(1, 2, 3, 9));
    assert_eq!(Color::default(), Color::black());
    assert_eq!(Color::black(), Color::from_hex("#000000"));
    assert_eq!(Color::blue_ink(), Color::from_hex("#0000ff"));
    assert_eq!(Color::green_ink(), Color::from_hex("#00ff00"));
    assert_eq!(Color::red_ink(), Color::from_hex("#ff0000"));
    assert_eq!(Color::white(), Color::from_hex("#ffffff"));
    assert_eq!(Color::try_from_hex("#abc"), Some(Color::new(170, 187, 204)));
    assert_eq!(Color::try_from_hex("#102030"), Some(Color::new_alpha(16, 32, 48, 255)));
}

#[test]
fn every_colour_but_one_is_visible() {
    assert!(!Color::transparent().is_visible());
    assert!(!Color::new_alpha(255, 255, 255, 255).is_visible());
    assert!(Color::new_alpha(255, 255, 255, 254).is_visible());
    assert!(Color::new_alpha(0, 255, 255, 255).is_visible());
    assert!(Color::black().is_visible());
}

#[test]
fn colour_is_written_in_upper_case_without_alpha() {
    assert_eq!(Color::new(39, 140, 172).to_hex_string(), "#278CAC");
    assert_eq!(Color::new_alpha(0, 9, 255, 3).to_hex_string(), "#0009FF");
    assert_eq!(Color::new(171, 205, 239).to_hex_string(), "#ABCDEF");
}

#[test]
fn written_colour_reads_back() {
    for r in [0u8, 1, 15, 16, 127, 200, 255] {
        for g in [0u8, 9, 10, 99, 255] {
            for b in [0u8, 33, 160, 255] {
                let c = Color::new_alpha(r, g, b, 17);
                assert_eq!(Color::try_from_hex(&c.to_hex_string()), Some(Color::new(r, g, b)));
            }
        }
    }
}
