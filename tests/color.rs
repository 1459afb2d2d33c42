use std::str::FromStr;

use termix::color::{bg_color, fg_color, parse_hex_color, Ansi16Value, Color, StyledText};
use termix::color::{BOLD, REVERSE, UNDERLINE};

#[test]
fn hex_to_color() {
    vec![
        "#b14ffe", "#af53fd", "#ae58fb", "#ac5cfa", "#ab60f8", "#a964f7", "#a868f6", "#a76cf4",
        "#a66ff3", "#a472f2", "#a375f1", "#a279ef", "#a07cee", "#9f7eed", "#9e81ec", "#9d84eb",
        "#9b87ea", "#9a8ae9", "#998ce7", "#988fe6", "#9791e5", "#9594e4", "#9496e3", "#9399e2",
        "#929be1", "#909ee0", "#8fa0df", "#8ea2de", "#8ca5dd", "#8ba7dc", "#8aa9db", "#88acda",
        "#87aed9", "#85b0d7", "#84b2d6", "#83b4d5", "#81b7d4", "#80b9d3", "#7ebbd2", "#7cbdd1",
        "#7bbfd0", "#79c1cf", "#77c4cd", "#76c6cc", "#74c8cb", "#72caca", "#70ccc9", "#6ecec7",
        "#6cd0c6", "#6ad2c5", "#68d4c4", "#66d6c2", "#64d8c1", "#61dac0", "#5fdcbe", "#5cdebd",
        "#5ae0bc", "#57e2ba", "#54e5b9", "#51e7b7", "#4ee9b6", "#4aebb4", "#47edb2", "#43efb1",
        "#3ff1af", "#3af3ae", "#35f5ac", "#2ff7aa", "#28f9a8", "#20fba6", "#14fda4",
    ]
    .iter()
    .for_each(|hex| assert!(Color::from_str(hex).is_ok()));
    assert!(Color::from_str("testooooo").is_err());
}

#[test]
fn non_hex_to_color() {
    assert!(Color::from_str("testooooo").is_err());
    assert!(Color::from_str("#3af3az").is_err());
}

#[test]
fn build_styles() {
    let base = String::from("Hello, world");
    let styled_text = StyledText::new(
        &base,
        Some(Color::Ansi16(Ansi16Value::Red)),
        Some(Color::Rgb(4, 6, 8)),
        Some(true),
        Some(true),
        Some(true),
    );
    let res = styled_text.text();
    assert!(res.contains(&fg_color(&Color::Ansi16(Ansi16Value::Red))));
    assert!(res.contains(&bg_color(&Color::Rgb(4, 6, 8))));
    assert!(res.contains(BOLD));
    assert!(res.contains(UNDERLINE));
    assert!(res.contains(REVERSE));
}

#[test]
fn hex_color_values() {
    assert_eq!(parse_hex_color("#b14ffe"), Ok(Color::Rgb(0xb1, 0x4f, 0xfe)));
    assert_eq!(parse_hex_color("#A0B1C2"), Ok(Color::Rgb(0xa0, 0xb1, 0xc2)));
    assert_eq!(parse_hex_color("#+f0a0b"), Ok(Color::Rgb(0x0f, 0x0a, 0x0b)));
    assert!(parse_hex_color("#12345").is_err());
    assert!(parse_hex_color("").is_err());
}

#[test]
fn color_codes() {
    assert_eq!(fg_color(&Color::Inherit), "\x1b[39m");
    assert_eq!(bg_color(&Color::Inherit), "\x1b[49m");
    assert_eq!(fg_color(&Color::Ansi16(Ansi16Value::Red)), "\x1b[31m");
    assert_eq!(bg_color(&Color::Ansi16(Ansi16Value::Red)), "\x1b[41m");
    assert_eq!(fg_color(&Color::Ansi16(Ansi16Value::LightWhite)), "\x1b[97m");
    assert_eq!(bg_color(&Color::Ansi16(Ansi16Value::LightWhite)), "\x1b[107m");
    assert_eq!(fg_color(&Color::Ansi256(212)), "\x1b[38;5;212m");
    assert_eq!(bg_color(&Color::Ansi256(0)), "\x1b[48;5;0m");
    assert_eq!(fg_color(&Color::Rgb(4, 60, 255)), "\x1b[38;2;4;60;255m");
    assert_eq!(bg_color(&Color::Rgb(4, 6, 8)), "\x1b[48;2;4;6;8m");
}

#[test]
fn styled_text_layout() {
    let plain = StyledText::new("hi", None, None, None, None, None).text();
    assert_eq!(plain, "\x1b[39m\x1b[49mhi\x1b[0m");
    let bold = StyledText::new("x", Some(Color::Ansi256(7)), None, Some(true), Some(false), None);
    assert_eq!(bold.text(), "\x1b[1m\x1b[38;5;7m\x1b[49mx\x1b[0m");
}

#[test]
fn defaults_are_plain() {
    assert_eq!(Color::default(), Color::Inherit);
    assert_eq!(StyledText::default().text(), "\x1b[39m\x1b[49m\x1b[0m");
}
