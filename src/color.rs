use vstd::prelude::*;
use vstd::string::{StrSliceExecFns, StringExecFns};

verus! {

/// The sixteen basic terminal colors.
#[derive(Debug, Clone, Copy, PartialEq, Eq, Hash, Structural)]
pub enum Ansi16Value {
    Black,
    Red,
    Green,
    Yellow,
    Blue,
    Magenta,
    Cyan,
    White,
    LightBlack,
    LightRed,
    LightGreen,
    LightYellow,
    LightBlue,
    LightMagenta,
    LightCyan,
    LightWhite,
}

/// A color for text or background.
#[derive(Debug, Clone, Copy, PartialEq, Eq, Structural)]
pub enum Color {
    /// The terminal's own color.
    Inherit,
    Ansi16(Ansi16Value),
    Ansi256(u32),
    Rgb(u8, u8, u8),
}

/// Turns on bold text.
pub const BOLD: &'static str = "\x1b[1m";

/// Turns on underlined text.
pub const UNDERLINE: &'static str = "\x1b[4m";

/// Swaps text and background colors.
pub const REVERSE: &'static str = "\x1b[7m";

/// Ends all styling.
pub const RESET: &'static str = "\x1b[0m";

/// The position of a basic color in the table: 0 to 7 normal, 8 to 15 light.
pub open spec fn ansi16_index(v: Ansi16Value) -> nat {
    match v {
        Ansi16Value::Black => 0,
        Ansi16Value::Red => 1,
        Ansi16Value::Green => 2,
        Ansi16Value::Yellow => 3,
        Ansi16Value::Blue => 4,
        Ansi16Value::Magenta => 5,
        Ansi16Value::Cyan => 6,
        Ansi16Value::White => 7,
        Ansi16Value::LightBlack => 8,
        Ansi16Value::LightRed => 9,
        Ansi16Value::LightGreen => 10,
        Ansi16Value::LightYellow => 11,
        Ansi16Value::LightBlue => 12,
        Ansi16Value::LightMagenta => 13,
        Ansi16Value::LightCyan => 14,
        Ansi16Value::LightWhite => 15,
    }
}

/// The decimal digit `d` as text.
pub open spec fn digit_text(d: nat) -> Seq<char> {
    if d == 0 {
        "0"@
    } else if d == 1 {
        "1"@
    } else if d == 2 {
        "2"@
    } else if d == 3 {
        "3"@
    } else if d == 4 {
        "4"@
    } else if d == 5 {
        "5"@
    } else if d == 6 {
        "6"@
    } else if d == 7 {
        "7"@
    } else if d == 8 {
        "8"@
    } else {
        "9"@
    }
}

/// `n` written in decimal, without leading zeros.
pub open spec fn decimal(n: nat) -> Seq<char>
    decreases n,
{
    if n < 10 {
        digit_text(n)
    } else {
        decimal(n / 10) + digit_text(n % 10)
    }
}

/// The SGR sequence that sets the text color: base 30 (90 for light colors), 38 for the
/// extended forms, 39 for the terminal's own color.
pub open spec fn fg_code(c: Color) -> Seq<char> {
    match c {
        Color::Inherit => "\x1b[39m"@,
        Color::Ansi16(v) => if ansi16_index(v) < 8 {
            "\x1b[3"@ + decimal(ansi16_index(v)) + "m"@
        } else {
            "\x1b[9"@ + decimal((ansi16_index(v) - 8) as nat) + "m"@
        },
        Color::Ansi256(x) => "\x1b[38;5;"@ + decimal(x as nat) + "m"@,
        Color::Rgb(r, g, b) => "\x1b[38;2;"@ + decimal(r as nat) + ";"@ + decimal(g as nat) + ";"@
            + decimal(b as nat) + "m"@,
    }
}

/// The SGR sequence that sets the background color: base 40 (100 for light colors), 48
/// for the extended forms, 49 for the terminal's own color.
pub open spec fn bg_code(c: Color) -> Seq<char> {
    match c {
        Color::Inherit => "\x1b[49m"@,
        Color::Ansi16(v) => if ansi16_index(v) < 8 {
            "\x1b[4"@ + decimal(ansi16_index(v)) + "m"@
        } else {
            "\x1b[10"@ + decimal((ansi16_index(v) - 8) as nat) + "m"@
        },
        Color::Ansi256(x) => "\x1b[48;5;"@ + decimal(x as nat) + "m"@,
        Color::Rgb(r, g, b) => "\x1b[48;2;"@ + decimal(r as nat) + ";"@ + decimal(g as nat) + ";"@
            + decimal(b as nat) + "m"@,
    }
}

/// The text wrapped in its styling: the attributes that are on, the two colors, the text,
/// and a reset at the end.
pub open spec fn styled_text(
    text: Seq<char>,
    fg: Color,
    bg: Color,
    bold: bool,
    underline: bool,
    reverse: bool,
) -> Seq<char> {
    (if bold {
        BOLD@
    } else {
        Seq::empty()
    }) + (if underline {
        UNDERLINE@
    } else {
        Seq::empty()
    }) + (if reverse {
        REVERSE@
    } else {
        Seq::empty()
    }) + fg_code(fg) + bg_code(bg) + text + RESET@
}

fn digit_str(d: u32) -> (r: &'static str)
    requires
        d < 10,
    ensures
        r@ == digit_text(d as nat),
{
    match d {
        0 => "0",
        1 => "1",
        2 => "2",
        3 => "3",
        4 => "4",
        5 => "5",
        6 => "6",
        7 => "7",
        8 => "8",
        _ => "9",
    }
}

fn append_decimal(s: &mut String, n: u32)
    ensures
        final(s)@ == old(s)@ + decimal(n as nat),
    decreases n,
{
    if n < 10 {
        s.append(digit_str(n));
    } else {
        append_decimal(s, n / 10);
        s.append(digit_str(n % 10));
        assert(old(s)@ + decimal((n / 10) as nat) + digit_text((n % 10) as nat) == old(s)@
            + decimal(n as nat));
    }
}

fn ansi16_number(v: Ansi16Value) -> (r: u32)
    ensures
        r as nat == ansi16_index(v),
{
    match v {
        Ansi16Value::Black => 0,
        Ansi16Value::Red => 1,
        Ansi16Value::Green => 2,
        Ansi16Value::Yellow => 3,
        Ansi16Value::Blue => 4,
        Ansi16Value::Magenta => 5,
        Ansi16Value::Cyan => 6,
        Ansi16Value::White => 7,
        Ansi16Value::LightBlack => 8,
        Ansi16Value::LightRed => 9,
        Ansi16Value::LightGreen => 10,
        Ansi16Value::LightYellow => 11,
        Ansi16Value::LightBlue => 12,
        Ansi16Value::LightMagenta => 13,
        Ansi16Value::LightCyan => 14,
        Ansi16Value::LightWhite => 15,
    }
}

fn append_color(s: &mut String, c: &Color, background: bool)
    ensures
        final(s)@ == old(s)@ + if background {
            bg_code(*c)
        } else {
            fg_code(*c)
        },
{
    match c {
        Color::Inherit => {
            if background {
                s.append("\x1b[49m");
            } else {
                s.append("\x1b[39m");
            }
        },
        Color::Ansi16(v) => {
            let i = ansi16_number(*v);
            if i < 8 {
                s.append(if background {
                    "\x1b[4"
                } else {
                    "\x1b[3"
                });
                append_decimal(s, i);
            } else {
                s.append(if background {
                    "\x1b[10"
                } else {
                    "\x1b[9"
                });
                append_decimal(s, i - 8);
            }
            s.append("m");
        },
        Color::Ansi256(x) => {
            s.append(if background {
                "\x1b[48;5;"
            } else {
                "\x1b[38;5;"
            });
            append_decimal(s, *x);
            s.append("m");
        },
        Color::Rgb(r, g, b) => {
            s.append(if background {
                "\x1b[48;2;"
            } else {
                "\x1b[38;2;"
            });
            append_decimal(s, *r as u32);
            s.append(";");
            append_decimal(s, *g as u32);
            s.append(";");
            append_decimal(s, *b as u32);
            s.append("m");
        },
    }
}

/// The SGR sequence that sets `fg` as the text color.
pub fn fg_color(fg: &Color) -> (r: String)
    ensures
        r@ == fg_code(*fg),
{
    let mut s = String::new();
    append_color(&mut s, fg, false);
    s
}

/// The SGR sequence that sets `bg` as the background color.
pub fn bg_color(bg: &Color) -> (r: String)
    ensures
        r@ == bg_code(*bg),
{
    let mut s = String::new();
    append_color(&mut s, bg, true);
    s
}

/// Text with colors and attributes, rendered as ANSI escape sequences.
pub struct StyledText {
    text: String,
    fg: Color,
    bg: Color,
    bold: bool,
    underline: bool,
    reverse: bool,
}

impl StyledText {
    /// The rendered form of this text.
    pub closed spec fn rendered(&self) -> Seq<char> {
        styled_text(self.text@, self.fg, self.bg, self.bold, self.underline, self.reverse)
    }

    /// Styled text; an attribute left out is off, a color left out is the terminal's own.
    pub fn new(
        text: &str,
        fg: Option<Color>,
        bg: Option<Color>,
        bold: Option<bool>,
        underline: Option<bool>,
        reverse: Option<bool>,
    ) -> (r: StyledText)
        ensures
            r.rendered() == styled_text(
                text@,
                match fg {
                    Some(c) => c,
                    None => Color::Inherit,
                },
                match bg {
                    Some(c) => c,
                    None => Color::Inherit,
                },
                bold == Some(true),
                underline == Some(true),
                reverse == Some(true),
            ),
    {
        let fg = match fg {
            Some(c) => c,
            None => Color::Inherit,
        };
        let bg = match bg {
            Some(c) => c,
            None => Color::Inherit,
        };
        let bold = match bold {
            Some(b) => b,
            None => false,
        };
        let underline = match underline {
            Some(b) => b,
            None => false,
        };
        let reverse = match reverse {
            Some(b) => b,
            None => false,
        };
        StyledText { text: String::from_str(text), fg, bg, bold, underline, reverse }
    }

    /// The text with its styling, ending in a reset.
    pub fn text(&self) -> (r: String)
        ensures
            r@ == self.rendered(),
    {
        self.build_text()
    }

    fn build_text(&self) -> (r: String)
        ensures
            r@ == self.rendered(),
    {
        let mut s = String::new();
        if self.bold {
            s.append(BOLD);
        }
        if self.underline {
            s.append(UNDERLINE);
        }
        if self.reverse {
            s.append(REVERSE);
        }
        s.append(self.fg_text().as_str());
        s.append(self.bg_text().as_str());
        s.append(self.text.as_str());
        s.append(RESET);
        s
    }

    fn fg_text(&self) -> (r: String)
        ensures
            r@ == fg_code(self.fg),
    {
        fg_color(&self.fg)
    }

    fn bg_text(&self) -> (r: String)
        ensures
            r@ == bg_code(self.bg),
    {
        bg_color(&self.bg)
    }
}

impl Default for Color {
    fn default() -> (r: Color)
        ensures
            r == Color::Inherit,
    {
        Color::Inherit
    }
}

impl Default for StyledText {
    fn default() -> (r: StyledText)
        ensures
            r.rendered() == styled_text(Seq::empty(), Color::Inherit, Color::Inherit, false, false, false),
    {
        StyledText {
            text: String::new(),
            fg: Color::Inherit,
            bg: Color::Inherit,
            bold: false,
            underline: false,
            reverse: false,
        }
    }
}

/// A color code that is not of the form `#rrggbb`.
#[derive(Debug, Clone, Copy, PartialEq, Eq, Structural)]
pub struct ParseColorError;

/// The value of a hexadecimal digit, either case.
pub open spec fn hex_digit(c: char) -> Option<nat> {
    let v = c as u32;
    if 0x30 <= v <= 0x39 {
        Some((v - 0x30) as nat)
    } else if 0x61 <= v <= 0x66 {
        Some((v - 0x61 + 10) as nat)
    } else if 0x41 <= v <= 0x46 {
        Some((v - 0x41 + 10) as nat)
    } else {
        None
    }
}

/// A byte written as two hexadecimal digits; a leading `+` sign before a single digit
/// is accepted too.
pub open spec fn hex_pair(a: char, b: char) -> Option<u8> {
    if a == '+' {
        match hex_digit(b) {
            Some(d) => Some(d as u8),
            None => None,
        }
    } else {
        match (hex_digit(a), hex_digit(b)) {
            (Some(h), Some(l)) => Some((h * 16 + l) as u8),
            _ => None,
        }
    }
}

/// The color that a code `#rrggbb` names: the character in front is not looked at, and
/// characters after the seventh are ignored.
pub open spec fn hex_color(s: Seq<char>) -> Option<Color> {
    if s.len() < 7 {
        None
    } else {
        match (hex_pair(s[1], s[2]), hex_pair(s[3], s[4]), hex_pair(s[5], s[6])) {
            (Some(r), Some(g), Some(b)) => Some(Color::Rgb(r, g, b)),
            _ => None,
        }
    }
}

fn exec_hex_digit(c: char) -> (r: Option<u8>)
    ensures
        r matches Some(d) ==> hex_digit(c) == Some(d as nat) && d < 16,
        r is None ==> hex_digit(c) is None,
{
    let v = c as u32;
    if 0x30 <= v && v <= 0x39 {
        Some((v - 0x30) as u8)
    } else if 0x61 <= v && v <= 0x66 {
        Some((v - 0x61 + 10) as u8)
    } else if 0x41 <= v && v <= 0x46 {
        Some((v - 0x41 + 10) as u8)
    } else {
        None
    }
}

fn exec_hex_pair(a: char, b: char) -> (r: Option<u8>)
    ensures
        r == hex_pair(a, b),
{
    if a == '+' {
        return exec_hex_digit(b);
    }
    match (exec_hex_digit(a), exec_hex_digit(b)) {
        (Some(h), Some(l)) => Some(h * 16 + l),
        _ => None,
    }
}

/// Reads a color code `#rrggbb`.
pub fn parse_hex_color(s: &str) -> (r: Result<Color, ParseColorError>)
    ensures
        r matches Ok(c) ==> hex_color(s@) == Some(c),
        r is Err ==> hex_color(s@) is None,
{
    if s.unicode_len() < 7 {
        return Err(ParseColorError);
    }
    let r = exec_hex_pair(s.get_char(1), s.get_char(2));
    let g = exec_hex_pair(s.get_char(3), s.get_char(4));
    let b = exec_hex_pair(s.get_char(5), s.get_char(6));
    match (r, g, b) {
        (Some(r), Some(g), Some(b)) => Ok(Color::Rgb(r, g, b)),
        _ => Err(ParseColorError),
    }
}

impl std::str::FromStr for Color {
    type Err = ParseColorError;

    fn from_str(hex_code: &str) -> Result<Color, ParseColorError> {
        parse_hex_color(hex_code)
    }
}

} // verus!
