use vstd::prelude::*;
use vstd::utf8::*;

use crate::error::TermixError;
use crate::key::Key;

verus! {

/// The first character at position `p` of the input.
pub enum CharRead {
    /// A character that is not plain ASCII, and the number of bytes it takes.
    Wide(char, usize),
    /// A single ASCII byte.
    Ascii(u8),
    /// The bytes so far start a character whose end has not arrived yet.
    Pending,
    /// The bytes do not start a character; the byte where the character should start.
    Bad(u8),
}

/// How many bytes a UTF-8 character that starts with `b` takes (0: `b` starts none).
pub open spec fn utf8_width(b: u8) -> int {
    if is_leading_byte_width_1(b) {
        1
    } else if is_leading_byte_width_2(b) {
        2
    } else if is_leading_byte_width_3(b) {
        3
    } else if is_leading_byte_width_4(b) {
        4
    } else {
        0
    }
}

/// Reads the character at `p`; `at_end` says that no more input will come.
pub open spec fn read_char(s: Seq<u8>, p: int, at_end: bool) -> CharRead
    recommends
        0 <= p < s.len(),
{
    let b = s[p];
    let n = utf8_width(b);
    if n == 1 {
        CharRead::Ascii(b)
    } else if n == 0 {
        CharRead::Bad(b)
    } else if p + n > s.len() {
        if at_end {
            CharRead::Bad(b)
        } else {
            CharRead::Pending
        }
    } else if valid_first_scalar(s.subrange(p, p + n)) {
        CharRead::Wide(decode_first_scalar(s.subrange(p, p + n)) as char, n as usize)
    } else {
        CharRead::Bad(b)
    }
}

/// Relies on `char::from_u32`: `Some` exactly for Unicode scalar values, holding that value.
#[verifier::external_body]
fn char_of_scalar(v: u32) -> (r: Option<char>)
    ensures
        is_scalar(v) ==> r == Some(v as char),
        !is_scalar(v) ==> r is None,
{
    char::from_u32(v)
}

fn exec_read_char(s: &[u8], p: usize, at_end: bool) -> (r: CharRead)
    requires
        p < s@.len(),
    ensures
        r == read_char(s@, p as int, at_end),
{
    let b = s[p];
    let n: usize = if b <= 0x7f {
        1
    } else if 0xc0 <= b && b <= 0xdf {
        2
    } else if 0xe0 <= b && b <= 0xef {
        3
    } else if 0xf0 <= b && b <= 0xf7 {
        4
    } else {
        0
    };
    if n == 1 {
        return CharRead::Ascii(b);
    }
    if n == 0 {
        return CharRead::Bad(b);
    }
    if n > s.len() - p {
        return if at_end {
            CharRead::Bad(b)
        } else {
            CharRead::Pending
        };
    }
    let ghost t = s@.subrange(p as int, p + n);
    let mut i: usize = 1;
    while i < n
        invariant
            1 <= i <= n,
            2 <= n <= 4,
            n as int == utf8_width(b),
            b == s@[p as int],
            p + n <= s@.len(),
            s@.len() <= usize::MAX,
            t == s@.subrange(p as int, p + n),
            forall|j: int| 1 <= j < i ==> is_continuation_byte(#[trigger] t[j]),
        decreases n - i,
    {
        let c = s[p + i];
        if !(0x80 <= c && c <= 0xbf) {
            assert(t[i as int] == c);
            assert(t[0] == b);
            assert(!valid_leading_and_continuation_bytes_first_codepoint(t));
            return CharRead::Bad(b);
        }
        i = i + 1;
    }
    let c1 = s[p + 1];
    let v: u32 = if n == 2 {
        let v2 = (((b & 0x1f) as u32) << 6) | ((c1 & 0x3f) as u32);
        assert(v2 <= 0x7ff) by (bit_vector)
            requires
                v2 == (((b & 0x1f) as u32) << 6) | ((c1 & 0x3f) as u32),
        ;
        v2
    } else if n == 3 {
        let c2 = s[p + 2];
        let v3 = (((b & 0x0f) as u32) << 12) | (((c1 & 0x3f) as u32) << 6) | ((c2 & 0x3f) as u32);
        assert(v3 <= 0xffff) by (bit_vector)
            requires
                v3 == (((b & 0x0f) as u32) << 12) | (((c1 & 0x3f) as u32) << 6) | ((c2 & 0x3f)
                    as u32),
        ;
        v3
    } else {
        let c2 = s[p + 2];
        let c3 = s[p + 3];
        (((b & 0x07) as u32) << 18) | (((c1 & 0x3f) as u32) << 12) | (((c2 & 0x3f) as u32) << 6)
            | ((c3 & 0x3f) as u32)
    };
    let ok = if n == 2 {
        0x80 <= v
    } else if n == 3 {
        0x800 <= v
    } else {
        0x10000 <= v && v <= 0x10ffff
    };
    if !ok || (0xd800 <= v && v <= 0xdfff) {
        return CharRead::Bad(b);
    }
    assert(decode_first_scalar(t) == v);
    assert(valid_first_scalar(t));
    assert(is_scalar(v));
    match char_of_scalar(v) {
        Some(c) => CharRead::Wide(c, n),
        None => CharRead::Bad(b),
    }
}

/// What one decode attempt on the pending bytes gives.
#[derive(Debug, Clone)]
pub enum Decoded {
    /// A key, and how many bytes it took.
    Key(Key, usize),
    /// A failure local to this attempt, and how many bytes were used up.
    Failed(TermixError, usize),
    /// The bytes so far may still become a key: wait for more input.
    Pending,
}

/// The key a single byte below 0x80 stands for on its own (ESC excepted).
pub open spec fn control_key(b: u8) -> Key {
    if b == 0 {
        Key::Ctrl(' ')
    } else if b == 9 {
        Key::Tab
    } else if b == 13 {
        Key::Enter
    } else if b == 127 {
        Key::Backspace
    } else if 1 <= b <= 26 {
        Key::Ctrl(((b + 96) as u8) as char)
    } else {
        Key::Char(b as char)
    }
}

/// The key that a byte below 0x80 stands for right after ESC (`[`, `O` and ESC excepted).
pub open spec fn alt_byte_key(b: u8) -> Key {
    if b == 0 {
        Key::CtrlAlt(' ')
    } else if b == 9 {
        Key::AltTab
    } else if b == 13 {
        Key::AltEnter
    } else if b == 25 {
        Key::AltBackTab
    } else if b == 127 {
        Key::AltBackspace
    } else if 1 <= b <= 26 {
        Key::CtrlAlt(((b + 96) as u8) as char)
    } else {
        Key::Alt(b as char)
    }
}

/// Keys of the form `ESC O <b>`.
pub open spec fn ss3_key(b: u8) -> Option<Key> {
    if b == 0x41 {  // 'A'
        Some(Key::Up)
    } else if b == 0x42 {  // 'B'
        Some(Key::Down)
    } else if b == 0x43 {  // 'C'
        Some(Key::Right)
    } else if b == 0x44 {  // 'D'
        Some(Key::Left)
    } else if b == 0x46 {  // 'F'
        Some(Key::End)
    } else if b == 0x48 {  // 'H'
        Some(Key::Home)
    } else if b == 0x50 {  // 'P'
        Some(Key::F(1))
    } else if b == 0x51 {  // 'Q'
        Some(Key::F(2))
    } else if b == 0x52 {  // 'R'
        Some(Key::F(3))
    } else if b == 0x53 {  // 'S'
        Some(Key::F(4))
    } else if b == 0x61 {  // 'a'
        Some(Key::CtrlUp)
    } else if b == 0x62 {  // 'b'
        Some(Key::CtrlDown)
    } else if b == 0x63 {  // 'c'
        Some(Key::CtrlRight)
    } else if b == 0x64 {  // 'd'
        Some(Key::CtrlLeft)
    } else {
        None
    }
}

/// Keys of the form `ESC [ <b>` with a non-digit `b`.
pub open spec fn csi_key(b: u8) -> Option<Key> {
    if b == 0x41 {  // 'A'
        Some(Key::Up)
    } else if b == 0x42 {  // 'B'
        Some(Key::Down)
    } else if b == 0x43 {  // 'C'
        Some(Key::Right)
    } else if b == 0x44 {  // 'D'
        Some(Key::Left)
    } else if b == 0x48 {  // 'H'
        Some(Key::Home)
    } else if b == 0x46 {  // 'F'
        Some(Key::End)
    } else if b == 0x5a {  // 'Z'
        Some(Key::BackTab)
    } else {
        None
    }
}

/// Keys of the form `ESC [ [ <b>` (Linux console function keys).
pub open spec fn console_key(b: u8) -> Option<Key> {
    if 0x41 <= b <= 0x45 {  // 'A' 'E'
        Some(Key::F((b - 0x41 + 1) as u8))  // 'A'
    } else {
        None
    }
}

/// Keys of the form `ESC [ <d> ~`, for a digit `d` from 1 to 8.
pub open spec fn tilde_key(d: u8) -> Key {
    if d == 0x31 || d == 0x37 {  // '1' '7'
        Key::Home
    } else if d == 0x32 {  // '2'
        Key::Insert
    } else if d == 0x33 {  // '3'
        Key::Delete
    } else if d == 0x34 || d == 0x38 {  // '4' '8'
        Key::End
    } else if d == 0x35 {  // '5'
        Key::PageUp
    } else {
        Key::PageDown
    }
}

/// Keys of the form `ESC [ 1 ; <m> <b>`: `m` gives the modifiers, `b` the key.
pub open spec fn modified_key(m: u8, b: u8) -> Option<Key> {
    if m == 0x35 && b == 0x41 {  // '5' 'A'
        Some(Key::CtrlUp)
    } else if m == 0x35 && b == 0x42 {  // '5' 'B'
        Some(Key::CtrlDown)
    } else if m == 0x35 && b == 0x43 {  // '5' 'C'
        Some(Key::CtrlRight)
    } else if m == 0x35 && b == 0x44 {  // '5' 'D'
        Some(Key::CtrlLeft)
    } else if m == 0x34 && b == 0x41 {  // '4' 'A'
        Some(Key::AltShiftUp)
    } else if m == 0x34 && b == 0x42 {  // '4' 'B'
        Some(Key::AltShiftDown)
    } else if m == 0x34 && b == 0x43 {  // '4' 'C'
        Some(Key::AltShiftRight)
    } else if m == 0x34 && b == 0x44 {  // '4' 'D'
        Some(Key::AltShiftLeft)
    } else if m == 0x33 && b == 0x48 {  // '3' 'H'
        Some(Key::AltHome)
    } else if m == 0x33 && b == 0x46 {  // '3' 'F'
        Some(Key::AltEnd)
    } else if m == 0x32 && b == 0x41 {  // '2' 'A'
        Some(Key::ShiftUp)
    } else if m == 0x32 && b == 0x42 {  // '2' 'B'
        Some(Key::ShiftDown)
    } else if m == 0x32 && b == 0x43 {  // '2' 'C'
        Some(Key::ShiftRight)
    } else if m == 0x32 && b == 0x44 {  // '2' 'D'
        Some(Key::ShiftLeft)
    } else {
        None
    }
}

/// The Ctrl form of an arrow key.
pub open spec fn ctrl_arrow(k: Key) -> Option<Key> {
    match k {
        Key::Up => Some(Key::CtrlUp),
        Key::Down => Some(Key::CtrlDown),
        Key::Right => Some(Key::CtrlRight),
        Key::Left => Some(Key::CtrlLeft),
        _ => None,
    }
}

/// The Alt form of a key that `ESC ESC [ ...` can carry.
pub open spec fn alt_form(k: Key) -> Option<Key> {
    match k {
        Key::Up => Some(Key::AltUp),
        Key::Down => Some(Key::AltDown),
        Key::Left => Some(Key::AltLeft),
        Key::Right => Some(Key::AltRight),
        Key::PageUp => Some(Key::AltPageUp),
        Key::PageDown => Some(Key::AltPageDown),
        _ => None,
    }
}

pub open spec fn is_digit(b: u8) -> bool {
    0x30 <= b <= 0x39  // '0' '9'
}

/// Ends a numeric parameter string: `~` or an ASCII letter.
pub open spec fn is_terminator(b: u8) -> bool {
    b == 0x7e || (0x41 <= b <= 0x5a) || (0x61 <= b <= 0x7a)  // '~' 'A' 'Z' 'a' 'z'
}

/// The input stops at `p`: with more to come, wait; after the silence the sequence was
/// cut, which fails this decode only, carrying the last byte that came.
pub open spec fn cut_at(s: Seq<u8>, p: int, at_end: bool) -> Decoded {
    if at_end {
        Decoded::Failed(TermixError::KeyRead(s[p - 1]), p as usize)
    } else {
        Decoded::Pending
    }
}

pub open spec fn key_or_fail(k: Option<Key>, bad: u8, n: int) -> Decoded {
    match k {
        Some(k) => Decoded::Key(k, n as usize),
        None => Decoded::Failed(TermixError::KeyRead(bad), n as usize),
    }
}

/// `ESC O`, then the byte at `p`; silence right after `ESC O` makes it Alt-O.
pub open spec fn decode_ss3(s: Seq<u8>, p: int, at_end: bool) -> Decoded {
    if p >= s.len() {
        if at_end {
            Decoded::Key(alt_byte_key(s[p - 1]), p as usize)
        } else {
            Decoded::Pending
        }
    } else {
        key_or_fail(ss3_key(s[p]), s[p], p + 1)
    }
}

/// A byte that can stand inside a numeric parameter string.
pub open spec fn is_param_byte(b: u8) -> bool {
    is_digit(b) || b == 0x3b  // ';'
}

/// Keys of the form `ESC [ 1 <b> ~` and `ESC [ 2 <b> ~`: the function keys.
pub open spec fn function_key_number(a: u8, b: u8) -> Option<Key> {
    if a == 0x31 && 0x31 <= b <= 0x35 {  // '1', '1' to '5'
        Some(Key::F((b - 0x30) as u8))
    } else if a == 0x31 && 0x37 <= b <= 0x39 {  // '1', '7' to '9'
        Some(Key::F((b - 0x31) as u8))
    } else if a == 0x32 && (b == 0x30 || b == 0x31) {  // '2', '0' or '1'
        Some(Key::F((b - 0x30 + 9) as u8))
    } else if a == 0x32 && (b == 0x33 || b == 0x34) {  // '2', '3' or '4'
        Some(Key::F((b - 0x33 + 11) as u8))
    } else {
        None
    }
}

/// The key a numeric parameter string `p` and its terminator `t` stand for.
pub open spec fn param_key(p: Seq<u8>, t: u8) -> Option<Key> {
    if t == 0x7e {  // '~'
        if p.len() == 1 && 0x31 <= p[0] <= 0x38 {  // '1' to '8'
            Some(tilde_key(p[0]))
        } else if p.len() == 2 {
            function_key_number(p[0], p[1])
        } else if p.len() == 3 && p[0] == 0x32 && p[1] == 0x30 && p[2] == 0x30 {  // "200"
            Some(Key::BracketedPasteStart)
        } else if p.len() == 3 && p[0] == 0x32 && p[1] == 0x30 && p[2] == 0x31 {  // "201"
            Some(Key::BracketedPasteEnd)
        } else {
            None
        }
    } else if p.len() == 3 && p[0] == 0x31 && p[1] == 0x3b {  // "1;"
        modified_key(p[2], t)
    } else if p.len() == 1 && p[0] == 0x35 {  // '5'
        match csi_key(t) {
            Some(k) => ctrl_arrow(k),
            None => None,
        }
    } else {
        None
    }
}

/// A numeric parameter string that began at `start`, read from `q` on up to its
/// terminator, which is used up with it.
pub open spec fn decode_params(s: Seq<u8>, start: int, q: int, at_end: bool) -> Decoded
    decreases s.len() - q,
{
    if q >= s.len() {
        cut_at(s, q, at_end)
    } else if is_param_byte(s[q]) {
        decode_params(s, start, q + 1, at_end)
    } else if is_terminator(s[q]) {
        key_or_fail(param_key(s.subrange(start, q), s[q]), s[q], q + 1)
    } else {
        Decoded::Failed(TermixError::KeyRead(s[q]), (q + 1) as usize)
    }
}

/// `ESC [`, then the bytes from `p` on; silence right after `ESC [` makes it Alt-[.
/// A digit from 1 to 8 starts a parameter string, read up to its terminator; 0 and 9
/// start none.
pub open spec fn decode_csi(s: Seq<u8>, p: int, at_end: bool) -> Decoded {
    if p >= s.len() {
        if at_end && p == 2 {
            Decoded::Key(alt_byte_key(s[p - 1]), p as usize)
        } else {
            cut_at(s, p, at_end)
        }
    } else if 0x31 <= s[p] <= 0x38 {  // '1' to '8'
        decode_params(s, p, p + 1, at_end)
    } else if is_digit(s[p]) {
        Decoded::Failed(TermixError::KeyRead(s[p]), (p + 1) as usize)
    } else if s[p] == 0x5b {  // '['
        if p + 1 >= s.len() {
            cut_at(s, p + 1, at_end)
        } else {
            key_or_fail(console_key(s[p + 1]), s[p + 1], p + 2)
        }
    } else {
        key_or_fail(csi_key(s[p]), s[p], p + 1)
    }
}

/// A second ESC (or silence) after ESC, then the bytes from `p` on.
pub open spec fn decode_alt_escape(s: Seq<u8>, p: int, at_end: bool) -> Decoded {
    if p >= s.len() {
        if at_end {
            Decoded::Key(Key::ESC, p as usize)
        } else {
            Decoded::Pending
        }
    } else if s[p] != 0x5b {  // '['
        Decoded::Failed(TermixError::KeyRead(s[p]), (p + 1) as usize)
    } else {
        match decode_csi(s, p + 1, at_end) {
            Decoded::Key(k, n) => key_or_fail(alt_form(k), s[n - 1], n as int),
            other => other,
        }
    }
}

/// ESC at position 0, then the rest.
pub open spec fn decode_escape(s: Seq<u8>, at_end: bool) -> Decoded {
    if 1 >= s.len() {
        if at_end {
            decode_alt_escape(s, 1, at_end)
        } else {
            Decoded::Pending
        }
    } else {
        match read_char(s, 1, at_end) {
            CharRead::Pending => Decoded::Pending,
            CharRead::Bad(_) => Decoded::Failed(TermixError::KeyRead(s[1]), 2),
            CharRead::Wide(c, n) => Decoded::Key(Key::Alt(c), (n + 1) as usize),
            CharRead::Ascii(b) => if b == 0x5b {  // '['
                decode_csi(s, 2, at_end)
            } else if b == 0x4f {  // 'O'
                decode_ss3(s, 2, at_end)
            } else if b == 0x1b {
                decode_alt_escape(s, 2, at_end)
            } else {
                Decoded::Key(alt_byte_key(b), 2)
            },
        }
    }
}

/// Decodes the first key of the pending bytes `s`; `at_end` says that the input has
/// gone silent for the whole disambiguation window after `s`.
pub open spec fn decode_spec(s: Seq<u8>, at_end: bool) -> Decoded {
    if s.len() == 0 {
        Decoded::Pending
    } else {
        match read_char(s, 0, at_end) {
            CharRead::Pending => Decoded::Pending,
            CharRead::Bad(_) => Decoded::Failed(TermixError::KeyRead(s[0]), 1),
            CharRead::Wide(c, n) => Decoded::Key(Key::Char(c), n),
            CharRead::Ascii(b) => if b == 0x1b {
                decode_escape(s, at_end)
            } else {
                Decoded::Key(control_key(b), 1)
            },
        }
    }
}

fn exec_control_key(b: u8) -> (r: Key)
    ensures
        r == control_key(b),
{
    if b == 0 {
        Key::Ctrl(' ')
    } else if b == 9 {
        Key::Tab
    } else if b == 13 {
        Key::Enter
    } else if b == 127 {
        Key::Backspace
    } else if 1 <= b && b <= 26 {
        Key::Ctrl((b + 96) as char)
    } else {
        Key::Char(b as char)
    }
}

fn exec_alt_byte_key(b: u8) -> (r: Key)
    ensures
        r == alt_byte_key(b),
{
    if b == 0 {
        Key::CtrlAlt(' ')
    } else if b == 9 {
        Key::AltTab
    } else if b == 13 {
        Key::AltEnter
    } else if b == 25 {
        Key::AltBackTab
    } else if b == 127 {
        Key::AltBackspace
    } else if 1 <= b && b <= 26 {
        Key::CtrlAlt((b + 96) as char)
    } else {
        Key::Alt(b as char)
    }
}

fn exec_ss3_key(b: u8) -> (r: Option<Key>)
    ensures
        r == ss3_key(b),
{
    match b {
        0x41 => Some(Key::Up),
        0x42 => Some(Key::Down),
        0x43 => Some(Key::Right),
        0x44 => Some(Key::Left),
        0x46 => Some(Key::End),
        0x48 => Some(Key::Home),
        0x50 => Some(Key::F(1)),
        0x51 => Some(Key::F(2)),
        0x52 => Some(Key::F(3)),
        0x53 => Some(Key::F(4)),
        0x61 => Some(Key::CtrlUp),
        0x62 => Some(Key::CtrlDown),
        0x63 => Some(Key::CtrlRight),
        0x64 => Some(Key::CtrlLeft),
        _ => None,
    }
}

fn exec_csi_key(b: u8) -> (r: Option<Key>)
    ensures
        r == csi_key(b),
{
    match b {
        0x41 => Some(Key::Up),
        0x42 => Some(Key::Down),
        0x43 => Some(Key::Right),
        0x44 => Some(Key::Left),
        0x48 => Some(Key::Home),
        0x46 => Some(Key::End),
        0x5a => Some(Key::BackTab),
        _ => None,
    }
}

fn exec_console_key(b: u8) -> (r: Option<Key>)
    ensures
        r == console_key(b),
{
    if 0x41 <= b && b <= 0x45 {
        Some(Key::F(b - 0x41 + 1))
    } else {
        None
    }
}

fn exec_tilde_key(d: u8) -> (r: Key)
    ensures
        r == tilde_key(d),
{
    if d == 0x31 || d == 0x37 {
        Key::Home
    } else if d == 0x32 {
        Key::Insert
    } else if d == 0x33 {
        Key::Delete
    } else if d == 0x34 || d == 0x38 {
        Key::End
    } else if d == 0x35 {
        Key::PageUp
    } else {
        Key::PageDown
    }
}

fn exec_modified_key(m: u8, b: u8) -> (r: Option<Key>)
    ensures
        r == modified_key(m, b),
{
    match (m, b) {
        (0x35, 0x41) => Some(Key::CtrlUp),
        (0x35, 0x42) => Some(Key::CtrlDown),
        (0x35, 0x43) => Some(Key::CtrlRight),
        (0x35, 0x44) => Some(Key::CtrlLeft),
        (0x34, 0x41) => Some(Key::AltShiftUp),
        (0x34, 0x42) => Some(Key::AltShiftDown),
        (0x34, 0x43) => Some(Key::AltShiftRight),
        (0x34, 0x44) => Some(Key::AltShiftLeft),
        (0x33, 0x48) => Some(Key::AltHome),
        (0x33, 0x46) => Some(Key::AltEnd),
        (0x32, 0x41) => Some(Key::ShiftUp),
        (0x32, 0x42) => Some(Key::ShiftDown),
        (0x32, 0x43) => Some(Key::ShiftRight),
        (0x32, 0x44) => Some(Key::ShiftLeft),
        _ => None,
    }
}

fn exec_ctrl_arrow(k: Key) -> (r: Option<Key>)
    ensures
        r == ctrl_arrow(k),
{
    match k {
        Key::Up => Some(Key::CtrlUp),
        Key::Down => Some(Key::CtrlDown),
        Key::Right => Some(Key::CtrlRight),
        Key::Left => Some(Key::CtrlLeft),
        _ => None,
    }
}

fn exec_function_key_number(a: u8, b: u8) -> (r: Option<Key>)
    ensures
        r == function_key_number(a, b),
{
    if a == 0x31 && 0x31 <= b && b <= 0x35 {
        Some(Key::F(b - 0x30))
    } else if a == 0x31 && 0x37 <= b && b <= 0x39 {
        Some(Key::F(b - 0x31))
    } else if a == 0x32 && (b == 0x30 || b == 0x31) {
        Some(Key::F(b - 0x30 + 9))
    } else if a == 0x32 && (b == 0x33 || b == 0x34) {
        Some(Key::F(b - 0x33 + 11))
    } else {
        None
    }
}

fn exec_param_key(s: &[u8], start: usize, q: usize, t: u8) -> (r: Option<Key>)
    requires
        start <= q <= s@.len(),
    ensures
        r == param_key(s@.subrange(start as int, q as int), t),
{
    let n = q - start;
    let ghost p = s@.subrange(start as int, q as int);
    if t == 0x7e {
        if n == 1 && 0x31 <= s[start] && s[start] <= 0x38 {
            Some(exec_tilde_key(s[start]))
        } else if n == 2 {
            exec_function_key_number(s[start], s[start + 1])
        } else if n == 3 && s[start] == 0x32 && s[start + 1] == 0x30 && s[start + 2] == 0x30 {
            Some(Key::BracketedPasteStart)
        } else if n == 3 && s[start] == 0x32 && s[start + 1] == 0x30 && s[start + 2] == 0x31 {
            Some(Key::BracketedPasteEnd)
        } else {
            None
        }
    } else if n == 3 && s[start] == 0x31 && s[start + 1] == 0x3b {
        exec_modified_key(s[start + 2], t)
    } else if n == 1 && s[start] == 0x35 {
        match exec_csi_key(t) {
            Some(k) => exec_ctrl_arrow(k),
            None => None,
        }
    } else {
        None
    }
}

fn exec_alt_form(k: Key) -> (r: Option<Key>)
    ensures
        r == alt_form(k),
{
    match k {
        Key::Up => Some(Key::AltUp),
        Key::Down => Some(Key::AltDown),
        Key::Left => Some(Key::AltLeft),
        Key::Right => Some(Key::AltRight),
        Key::PageUp => Some(Key::AltPageUp),
        Key::PageDown => Some(Key::AltPageDown),
        _ => None,
    }
}

fn exec_cut_at(s: &[u8], p: usize, at_end: bool) -> (r: Decoded)
    requires
        1 <= p <= s@.len(),
    ensures
        r == cut_at(s@, p as int, at_end),
{
    if at_end {
        Decoded::Failed(TermixError::KeyRead(s[p - 1]), p)
    } else {
        Decoded::Pending
    }
}

fn exec_key_or_fail(k: Option<Key>, bad: u8, n: usize) -> (r: Decoded)
    ensures
        r == key_or_fail(k, bad, n as int),
{
    match k {
        Some(k) => Decoded::Key(k, n),
        None => Decoded::Failed(TermixError::KeyRead(bad), n),
    }
}

fn exec_decode_ss3(s: &[u8], p: usize, at_end: bool) -> (r: Decoded)
    requires
        1 <= p <= s@.len(),
    ensures
        r == decode_ss3(s@, p as int, at_end),
{
    if p >= s.len() {
        if at_end {
            Decoded::Key(exec_alt_byte_key(s[p - 1]), p)
        } else {
            Decoded::Pending
        }
    } else {
        exec_key_or_fail(exec_ss3_key(s[p]), s[p], p + 1)
    }
}

fn exec_decode_params(s: &[u8], start: usize, p: usize, at_end: bool) -> (r: Decoded)
    requires
        1 <= start < p <= s@.len(),
    ensures
        r == decode_params(s@, start as int, p as int, at_end),
{
    let mut q = p;
    while q < s.len() && ((0x30 <= s[q] && s[q] <= 0x39) || s[q] == 0x3b)
        invariant
            p <= q <= s@.len(),
            decode_params(s@, start as int, q as int, at_end) == decode_params(
                s@,
                start as int,
                p as int,
                at_end,
            ),
        decreases s@.len() - q,
    {
        q = q + 1;
    }
    if q >= s.len() {
        exec_cut_at(s, q, at_end)
    } else if s[q] == 0x7e || (0x41 <= s[q] && s[q] <= 0x5a) || (0x61 <= s[q] && s[q] <= 0x7a) {
        exec_key_or_fail(exec_param_key(s, start, q, s[q]), s[q], q + 1)
    } else {
        Decoded::Failed(TermixError::KeyRead(s[q]), q + 1)
    }
}

fn exec_decode_csi(s: &[u8], p: usize, at_end: bool) -> (r: Decoded)
    requires
        2 <= p <= s@.len(),
    ensures
        r == decode_csi(s@, p as int, at_end),
{
    if p >= s.len() {
        return if at_end && p == 2 {
            Decoded::Key(exec_alt_byte_key(s[p - 1]), p)
        } else {
            exec_cut_at(s, p, at_end)
        };
    }
    let b = s[p];
    if 0x31 <= b && b <= 0x38 {
        exec_decode_params(s, p, p + 1, at_end)
    } else if b == 0x30 || b == 0x39 {
        Decoded::Failed(TermixError::KeyRead(b), p + 1)
    } else if b == 0x5b {
        if p + 1 >= s.len() {
            exec_cut_at(s, p + 1, at_end)
        } else {
            exec_key_or_fail(exec_console_key(s[p + 1]), s[p + 1], p + 2)
        }
    } else {
        exec_key_or_fail(exec_csi_key(b), b, p + 1)
    }
}

/// A parameter string uses up at least one byte and no more than there are.
proof fn lemma_params_consumed(s: Seq<u8>, start: int, q: int, at_end: bool)
    requires
        1 <= q <= s.len() <= usize::MAX,
    ensures
        0 <= consumed(decode_params(s, start, q, at_end)) <= s.len(),
        decode_params(s, start, q, at_end) matches Decoded::Key(_, n) ==> 1 <= n <= s.len(),
    decreases s.len() - q,
{
    if q < s.len() && is_param_byte(s[q]) {
        lemma_params_consumed(s, start, q + 1, at_end);
    }
}

/// What a decode after `ESC [` uses up lies within the input, and a key uses up at
/// least one byte.
proof fn lemma_csi_consumed(s: Seq<u8>, p: int, at_end: bool)
    requires
        2 <= p <= s.len() <= usize::MAX,
    ensures
        0 <= consumed(decode_csi(s, p, at_end)) <= s.len(),
        decode_csi(s, p, at_end) matches Decoded::Key(_, n) ==> 1 <= n <= s.len(),
{
    if p < s.len() && 0x31 <= s[p] <= 0x38 {
        lemma_params_consumed(s, p, p + 1, at_end);
    }
}

fn exec_decode_alt_escape(s: &[u8], p: usize, at_end: bool) -> (r: Decoded)
    requires
        1 <= p <= s@.len(),
    ensures
        r == decode_alt_escape(s@, p as int, at_end),
{
    if p >= s.len() {
        return if at_end {
            Decoded::Key(Key::ESC, p)
        } else {
            Decoded::Pending
        };
    }
    if s[p] != 0x5b {
        return Decoded::Failed(TermixError::KeyRead(s[p]), p + 1);
    }
    proof {
        lemma_csi_consumed(s@, p + 1, at_end);
    }
    match exec_decode_csi(s, p + 1, at_end) {
        Decoded::Key(k, n) => exec_key_or_fail(exec_alt_form(k), s[n - 1], n),
        other => other,
    }
}

fn exec_decode_escape(s: &[u8], at_end: bool) -> (r: Decoded)
    requires
        s@.len() >= 1,
    ensures
        r == decode_escape(s@, at_end),
{
    if 1 >= s.len() {
        return if at_end {
            exec_decode_alt_escape(s, 1, at_end)
        } else {
            Decoded::Pending
        };
    }
    match exec_read_char(s, 1, at_end) {
        CharRead::Pending => Decoded::Pending,
        CharRead::Bad(_) => Decoded::Failed(TermixError::KeyRead(s[1]), 2),
        CharRead::Wide(c, n) => Decoded::Key(Key::Alt(c), n + 1),
        CharRead::Ascii(b) => if b == 0x5b {
            exec_decode_csi(s, 2, at_end)
        } else if b == 0x4f {
            exec_decode_ss3(s, 2, at_end)
        } else if b == 0x1b {
            exec_decode_alt_escape(s, 2, at_end)
        } else {
            Decoded::Key(exec_alt_byte_key(b), 2)
        },
    }
}

/// Decodes the first key of the pending bytes `s`; `at_end` says that the input has
/// gone silent for the whole disambiguation window after `s`.
pub fn decode(s: &[u8], at_end: bool) -> (r: Decoded)
    ensures
        r == decode_spec(s@, at_end),
{
    if s.len() == 0 {
        return Decoded::Pending;
    }
    match exec_read_char(s, 0, at_end) {
        CharRead::Pending => Decoded::Pending,
        CharRead::Bad(_) => Decoded::Failed(TermixError::KeyRead(s[0]), 1),
        CharRead::Wide(c, n) => Decoded::Key(Key::Char(c), n),
        CharRead::Ascii(b) => if b == 0x1b {
            exec_decode_escape(s, at_end)
        } else {
            Decoded::Key(exec_control_key(b), 1)
        },
    }
}

/// Every escape sequence with a fixed meaning, and the key it stands for.
pub open spec fn escape_sequence_key(t: Seq<u8>) -> Option<Key> {
    if t.len() == 3 {
        escape_sequence_key_3(t)
    } else if t.len() == 4 {
        escape_sequence_key_4(t)
    } else if t.len() == 5 {
        escape_sequence_key_5(t)
    } else if t.len() == 6 {
        escape_sequence_key_6(t)
    } else {
        None
    }
}

/// The escape sequences of 3 bytes with a fixed meaning.
pub open spec fn escape_sequence_key_3(t: Seq<u8>) -> Option<Key> {
    if t == seq![0x1bu8, 0x4fu8, 0x41u8] {  // ESC O A
        Some(Key::Up)
    } else if t == seq![0x1bu8, 0x4fu8, 0x42u8] {  // ESC O B
        Some(Key::Down)
    } else if t == seq![0x1bu8, 0x4fu8, 0x43u8] {  // ESC O C
        Some(Key::Right)
    } else if t == seq![0x1bu8, 0x4fu8, 0x44u8] {  // ESC O D
        Some(Key::Left)
    } else if t == seq![0x1bu8, 0x4fu8, 0x46u8] {  // ESC O F
        Some(Key::End)
    } else if t == seq![0x1bu8, 0x4fu8, 0x48u8] {  // ESC O H
        Some(Key::Home)
    } else if t == seq![0x1bu8, 0x4fu8, 0x50u8] {  // ESC O P
        Some(Key::F(1))
    } else if t == seq![0x1bu8, 0x4fu8, 0x51u8] {  // ESC O Q
        Some(Key::F(2))
    } else if t == seq![0x1bu8, 0x4fu8, 0x52u8] {  // ESC O R
        Some(Key::F(3))
    } else if t == seq![0x1bu8, 0x4fu8, 0x53u8] {  // ESC O S
        Some(Key::F(4))
    } else if t == seq![0x1bu8, 0x4fu8, 0x61u8] {  // ESC O a
        Some(Key::CtrlUp)
    } else if t == seq![0x1bu8, 0x4fu8, 0x62u8] {  // ESC O b
        Some(Key::CtrlDown)
    } else if t == seq![0x1bu8, 0x4fu8, 0x63u8] {  // ESC O c
        Some(Key::CtrlRight)
    } else if t == seq![0x1bu8, 0x4fu8, 0x64u8] {  // ESC O d
        Some(Key::CtrlLeft)
    } else if t == seq![0x1bu8, 0x5bu8, 0x41u8] {  // ESC [ A
        Some(Key::Up)
    } else if t == seq![0x1bu8, 0x5bu8, 0x42u8] {  // ESC [ B
        Some(Key::Down)
    } else if t == seq![0x1bu8, 0x5bu8, 0x43u8] {  // ESC [ C
        Some(Key::Right)
    } else if t == seq![0x1bu8, 0x5bu8, 0x44u8] {  // ESC [ D
        Some(Key::Left)
    } else if t == seq![0x1bu8, 0x5bu8, 0x48u8] {  // ESC [ H
        Some(Key::Home)
    } else if t == seq![0x1bu8, 0x5bu8, 0x46u8] {  // ESC [ F
        Some(Key::End)
    } else if t == seq![0x1bu8, 0x5bu8, 0x5au8] {  // ESC [ Z
        Some(Key::BackTab)
    } else {
        None
    }
}

/// The escape sequences of 4 bytes with a fixed meaning.
pub open spec fn escape_sequence_key_4(t: Seq<u8>) -> Option<Key> {
    if t == seq![0x1bu8, 0x5bu8, 0x5bu8, 0x41u8] {  // ESC [ [ A
        Some(Key::F(1))
    } else if t == seq![0x1bu8, 0x5bu8, 0x5bu8, 0x42u8] {  // ESC [ [ B
        Some(Key::F(2))
    } else if t == seq![0x1bu8, 0x5bu8, 0x5bu8, 0x43u8] {  // ESC [ [ C
        Some(Key::F(3))
    } else if t == seq![0x1bu8, 0x5bu8, 0x5bu8, 0x44u8] {  // ESC [ [ D
        Some(Key::F(4))
    } else if t == seq![0x1bu8, 0x5bu8, 0x5bu8, 0x45u8] {  // ESC [ [ E
        Some(Key::F(5))
    } else if t == seq![0x1bu8, 0x5bu8, 0x31u8, 0x7eu8] {  // ESC [ 1 ~
        Some(Key::Home)
    } else if t == seq![0x1bu8, 0x5bu8, 0x37u8, 0x7eu8] {  // ESC [ 7 ~
        Some(Key::Home)
    } else if t == seq![0x1bu8, 0x5bu8, 0x32u8, 0x7eu8] {  // ESC [ 2 ~
        Some(Key::Insert)
    } else if t == seq![0x1bu8, 0x5bu8, 0x33u8, 0x7eu8] {  // ESC [ 3 ~
        Some(Key::Delete)
    } else if t == seq![0x1bu8, 0x5bu8, 0x34u8, 0x7eu8] {  // ESC [ 4 ~
        Some(Key::End)
    } else if t == seq![0x1bu8, 0x5bu8, 0x38u8, 0x7eu8] {  // ESC [ 8 ~
        Some(Key::End)
    } else if t == seq![0x1bu8, 0x5bu8, 0x35u8, 0x7eu8] {  // ESC [ 5 ~
        Some(Key::PageUp)
    } else if t == seq![0x1bu8, 0x5bu8, 0x36u8, 0x7eu8] {  // ESC [ 6 ~
        Some(Key::PageDown)
    } else if t == seq![0x1bu8, 0x5bu8, 0x35u8, 0x41u8] {  // ESC [ 5 A
        Some(Key::CtrlUp)
    } else if t == seq![0x1bu8, 0x5bu8, 0x35u8, 0x42u8] {  // ESC [ 5 B
        Some(Key::CtrlDown)
    } else if t == seq![0x1bu8, 0x5bu8, 0x35u8, 0x43u8] {  // ESC [ 5 C
        Some(Key::CtrlRight)
    } else if t == seq![0x1bu8, 0x5bu8, 0x35u8, 0x44u8] {  // ESC [ 5 D
        Some(Key::CtrlLeft)
    } else if t == seq![0x1bu8, 0x1bu8, 0x5bu8, 0x41u8] {  // ESC ESC [ A
        Some(Key::AltUp)
    } else if t == seq![0x1bu8, 0x1bu8, 0x5bu8, 0x42u8] {  // ESC ESC [ B
        Some(Key::AltDown)
    } else if t == seq![0x1bu8, 0x1bu8, 0x5bu8, 0x43u8] {  // ESC ESC [ C
        Some(Key::AltRight)
    } else if t == seq![0x1bu8, 0x1bu8, 0x5bu8, 0x44u8] {  // ESC ESC [ D
        Some(Key::AltLeft)
    } else {
        None
    }
}

/// The escape sequences of 5 bytes with a fixed meaning.
pub open spec fn escape_sequence_key_5(t: Seq<u8>) -> Option<Key> {
    if t == seq![0x1bu8, 0x1bu8, 0x5bu8, 0x35u8, 0x7eu8] {  // ESC ESC [ 5 ~
        Some(Key::AltPageUp)
    } else if t == seq![0x1bu8, 0x1bu8, 0x5bu8, 0x36u8, 0x7eu8] {  // ESC ESC [ 6 ~
        Some(Key::AltPageDown)
    } else if t == seq![0x1bu8, 0x5bu8, 0x31u8, 0x31u8, 0x7eu8] {  // ESC [ 1 1 ~
        Some(Key::F(1))
    } else if t == seq![0x1bu8, 0x5bu8, 0x31u8, 0x32u8, 0x7eu8] {  // ESC [ 1 2 ~
        Some(Key::F(2))
    } else if t == seq![0x1bu8, 0x5bu8, 0x31u8, 0x33u8, 0x7eu8] {  // ESC [ 1 3 ~
        Some(Key::F(3))
    } else if t == seq![0x1bu8, 0x5bu8, 0x31u8, 0x34u8, 0x7eu8] {  // ESC [ 1 4 ~
        Some(Key::F(4))
    } else if t == seq![0x1bu8, 0x5bu8, 0x31u8, 0x35u8, 0x7eu8] {  // ESC [ 1 5 ~
        Some(Key::F(5))
    } else if t == seq![0x1bu8, 0x5bu8, 0x31u8, 0x37u8, 0x7eu8] {  // ESC [ 1 7 ~
        Some(Key::F(6))
    } else if t == seq![0x1bu8, 0x5bu8, 0x31u8, 0x38u8, 0x7eu8] {  // ESC [ 1 8 ~
        Some(Key::F(7))
    } else if t == seq![0x1bu8, 0x5bu8, 0x31u8, 0x39u8, 0x7eu8] {  // ESC [ 1 9 ~
        Some(Key::F(8))
    } else if t == seq![0x1bu8, 0x5bu8, 0x32u8, 0x30u8, 0x7eu8] {  // ESC [ 2 0 ~
        Some(Key::F(9))
    } else if t == seq![0x1bu8, 0x5bu8, 0x32u8, 0x31u8, 0x7eu8] {  // ESC [ 2 1 ~
        Some(Key::F(10))
    } else if t == seq![0x1bu8, 0x5bu8, 0x32u8, 0x33u8, 0x7eu8] {  // ESC [ 2 3 ~
        Some(Key::F(11))
    } else if t == seq![0x1bu8, 0x5bu8, 0x32u8, 0x34u8, 0x7eu8] {  // ESC [ 2 4 ~
        Some(Key::F(12))
    } else {
        None
    }
}

/// The escape sequences of 6 bytes with a fixed meaning.
pub open spec fn escape_sequence_key_6(t: Seq<u8>) -> Option<Key> {
    if t == seq![0x1bu8, 0x5bu8, 0x31u8, 0x3bu8, 0x35u8, 0x41u8] {  // ESC [ 1 ; 5 A
        Some(Key::CtrlUp)
    } else if t == seq![0x1bu8, 0x5bu8, 0x31u8, 0x3bu8, 0x35u8, 0x42u8] {  // ESC [ 1 ; 5 B
        Some(Key::CtrlDown)
    } else if t == seq![0x1bu8, 0x5bu8, 0x31u8, 0x3bu8, 0x35u8, 0x43u8] {  // ESC [ 1 ; 5 C
        Some(Key::CtrlRight)
    } else if t == seq![0x1bu8, 0x5bu8, 0x31u8, 0x3bu8, 0x35u8, 0x44u8] {  // ESC [ 1 ; 5 D
        Some(Key::CtrlLeft)
    } else if t == seq![0x1bu8, 0x5bu8, 0x31u8, 0x3bu8, 0x34u8, 0x41u8] {  // ESC [ 1 ; 4 A
        Some(Key::AltShiftUp)
    } else if t == seq![0x1bu8, 0x5bu8, 0x31u8, 0x3bu8, 0x34u8, 0x42u8] {  // ESC [ 1 ; 4 B
        Some(Key::AltShiftDown)
    } else if t == seq![0x1bu8, 0x5bu8, 0x31u8, 0x3bu8, 0x34u8, 0x43u8] {  // ESC [ 1 ; 4 C
        Some(Key::AltShiftRight)
    } else if t == seq![0x1bu8, 0x5bu8, 0x31u8, 0x3bu8, 0x34u8, 0x44u8] {  // ESC [ 1 ; 4 D
        Some(Key::AltShiftLeft)
    } else if t == seq![0x1bu8, 0x5bu8, 0x31u8, 0x3bu8, 0x33u8, 0x48u8] {  // ESC [ 1 ; 3 H
        Some(Key::AltHome)
    } else if t == seq![0x1bu8, 0x5bu8, 0x31u8, 0x3bu8, 0x33u8, 0x46u8] {  // ESC [ 1 ; 3 F
        Some(Key::AltEnd)
    } else if t == seq![0x1bu8, 0x5bu8, 0x31u8, 0x3bu8, 0x32u8, 0x41u8] {  // ESC [ 1 ; 2 A
        Some(Key::ShiftUp)
    } else if t == seq![0x1bu8, 0x5bu8, 0x31u8, 0x3bu8, 0x32u8, 0x42u8] {  // ESC [ 1 ; 2 B
        Some(Key::ShiftDown)
    } else if t == seq![0x1bu8, 0x5bu8, 0x31u8, 0x3bu8, 0x32u8, 0x43u8] {  // ESC [ 1 ; 2 C
        Some(Key::ShiftRight)
    } else if t == seq![0x1bu8, 0x5bu8, 0x31u8, 0x3bu8, 0x32u8, 0x44u8] {  // ESC [ 1 ; 2 D
        Some(Key::ShiftLeft)
    } else if t == seq![0x1bu8, 0x5bu8, 0x32u8, 0x30u8, 0x30u8, 0x7eu8] {  // ESC [ 2 0 0 ~
        Some(Key::BracketedPasteStart)
    } else if t == seq![0x1bu8, 0x5bu8, 0x32u8, 0x30u8, 0x31u8, 0x7eu8] {  // ESC [ 2 0 1 ~
        Some(Key::BracketedPasteEnd)
    } else {
        None
    }
}

/// How many bytes reading a character uses up.
pub open spec fn char_bytes(r: CharRead) -> int {
    match r {
        CharRead::Wide(_, n) => n as int,
        CharRead::Ascii(_) => 1,
        CharRead::Bad(_) => 1,
        CharRead::Pending => 0,
    }
}

/// How many bytes a decode attempt used up.
pub open spec fn consumed(d: Decoded) -> int {
    match d {
        Decoded::Key(_, n) => n as int,
        Decoded::Failed(_, n) => n as int,
        Decoded::Pending => 0,
    }
}

/// A decode attempt never uses up more bytes than there are.
pub proof fn lemma_decode_consumed(s: Seq<u8>, at_end: bool)
    requires
        s.len() <= usize::MAX,
    ensures
        0 <= consumed(decode_spec(s, at_end)) <= s.len(),
{
    if s.len() > 1 {
        lemma_csi_consumed(s, 2, at_end);
        if s.len() > 2 {
            lemma_csi_consumed(s, 3, at_end);
        }
    }
}

/// Every escape sequence of the fixed tables, followed by any bytes, decodes to the key
/// that the table gives it and uses up exactly its own bytes.
pub proof fn lemma_escape_table(t: Seq<u8>, rest: Seq<u8>, at_end: bool)
    requires
        escape_sequence_key(t) is Some,
        t.len() + rest.len() <= usize::MAX,
    ensures
        decode_spec(t + rest, at_end) == Decoded::Key(escape_sequence_key(t)->0, t.len() as usize),
{
    if t.len() == 3 {
        lemma_escape_table_3(t, rest, at_end);
    } else if t.len() == 4 {
        lemma_escape_table_4(t, rest, at_end);
    } else if t.len() == 5 {
        lemma_escape_table_5(t, rest, at_end);
    } else if t.len() == 6 {
        lemma_escape_table_6(t, rest, at_end);
    }
}

proof fn lemma_escape_table_3(t: Seq<u8>, rest: Seq<u8>, at_end: bool)
    requires
        escape_sequence_key_3(t) is Some,
        t.len() == 3,
        t.len() + rest.len() <= usize::MAX,
    ensures
        decode_spec(t + rest, at_end) == Decoded::Key(escape_sequence_key_3(t)->0, t.len() as usize),
{
    let s = t + rest;
    assert(forall|i: int| 0 <= i < t.len() ==> s[i] == t[i]);
    reveal_with_fuel(decode_params, 5);
}

proof fn lemma_escape_table_4(t: Seq<u8>, rest: Seq<u8>, at_end: bool)
    requires
        escape_sequence_key_4(t) is Some,
        t.len() == 4,
        t.len() + rest.len() <= usize::MAX,
    ensures
        decode_spec(t + rest, at_end) == Decoded::Key(escape_sequence_key_4(t)->0, t.len() as usize),
{
    let s = t + rest;
    assert(forall|i: int| 0 <= i < t.len() ==> s[i] == t[i]);
    reveal_with_fuel(decode_params, 5);
}

proof fn lemma_escape_table_5(t: Seq<u8>, rest: Seq<u8>, at_end: bool)
    requires
        escape_sequence_key_5(t) is Some,
        t.len() == 5,
        t.len() + rest.len() <= usize::MAX,
    ensures
        decode_spec(t + rest, at_end) == Decoded::Key(escape_sequence_key_5(t)->0, t.len() as usize),
{
    let s = t + rest;
    assert(forall|i: int| 0 <= i < t.len() ==> s[i] == t[i]);
    reveal_with_fuel(decode_params, 5);
}

proof fn lemma_escape_table_6(t: Seq<u8>, rest: Seq<u8>, at_end: bool)
    requires
        escape_sequence_key_6(t) is Some,
        t.len() == 6,
        t.len() + rest.len() <= usize::MAX,
    ensures
        decode_spec(t + rest, at_end) == Decoded::Key(escape_sequence_key_6(t)->0, t.len() as usize),
{
    let s = t + rest;
    assert(forall|i: int| 0 <= i < t.len() ==> s[i] == t[i]);
    reveal_with_fuel(decode_params, 5);
}

proof fn lemma_params_skip(s: Seq<u8>, start: int, q0: int, q: int, at_end: bool)
    requires
        q0 <= q <= s.len(),
        forall|i: int| q0 <= i < q ==> is_param_byte(#[trigger] s[i]),
    ensures
        decode_params(s, start, q0, at_end) == decode_params(s, start, q, at_end),
    decreases q - q0,
{
    if q0 < q {
        lemma_params_skip(s, start, q0 + 1, q, at_end);
    }
}

/// After `ESC [` and a digit from 1 to 8, the parameter string is read up to the first byte that
/// cannot continue it, and the decode uses up exactly the bytes through that byte:
/// the terminator, or the offending byte, which the error then carries.
pub proof fn lemma_params_through_terminator(s: Seq<u8>, q: int, at_end: bool)
    requires
        s.len() <= usize::MAX,
        3 <= q < s.len(),
        s[0] == 0x1b,
        s[1] == 0x5b,
        forall|i: int| 2 <= i < q ==> is_param_byte(#[trigger] s[i]),
        0x31 <= s[2] <= 0x38,
        !is_param_byte(s[q]),
    ensures
        consumed(decode_spec(s, at_end)) == q + 1,
        !is_terminator(s[q]) ==> decode_spec(s, at_end) == Decoded::Failed(
            TermixError::KeyRead(s[q]),
            (q + 1) as usize,
        ),
        is_terminator(s[q]) ==> decode_spec(s, at_end) == key_or_fail(
            param_key(s.subrange(2, q), s[q]),
            s[q],
            q + 1,
        ),
{
    lemma_params_skip(s, 2, 3, q, at_end);
}

/// A lone ESC decodes to `ESC` once the input stays silent, and to nothing before that.
pub proof fn lemma_bare_escape()
    ensures
        decode_spec(seq![0x1bu8], true) == Decoded::Key(Key::ESC, 1),
        decode_spec(seq![0x1bu8], false) == Decoded::Pending,
{
}

/// A character of more than one byte that arrives in two reads: after the first part
/// alone the decoder waits (using up nothing), and once the second part is queued
/// behind it the two give exactly that one character, using up all its bytes.
pub proof fn lemma_split_char(c: char, k: int, at_end: bool)
    requires
        encode_utf8(seq![c]).len() > 1,
        0 < k < encode_utf8(seq![c]).len(),
    ensures
        decode_spec(encode_utf8(seq![c]).take(k), false) == Decoded::Pending,
        decode_spec(encode_utf8(seq![c]).take(k) + encode_utf8(seq![c]).skip(k), at_end)
            == Decoded::Key(Key::Char(c), encode_utf8(seq![c]).len() as usize),
        decode_spec(encode_utf8(seq![c]), at_end) == Decoded::Key(
            Key::Char(c),
            encode_utf8(seq![c]).len() as usize,
        ),
{
    let e = encode_utf8(seq![c]);
    encode_utf8_first_scalar(seq![c]);
    assert(encode_utf8(seq![c].drop_first()) == Seq::<u8>::empty());
    assert(e == encode_scalar(c as u32));
    char_u32_cast(c, c as u32);
    assert(e.subrange(0, e.len() as int) == e);
    assert(e.take(k)[0] == e[0]);
    assert(e.take(k) + e.skip(k) == e);
}

/// The pending-byte queue in front of the decoder: bytes read from the terminal wait
/// here until they make up a key.
pub struct KeyDecoder {
    pending: Vec<u8>,
}

impl View for KeyDecoder {
    type V = Seq<u8>;

    closed spec fn view(&self) -> Seq<u8> {
        self.pending@
    }
}

impl KeyDecoder {
    pub fn new() -> (r: KeyDecoder)
        ensures
            r@ == Seq::<u8>::empty(),
    {
        KeyDecoder { pending: Vec::new() }
    }

    /// Whether bytes are waiting.
    pub fn has_pending(&self) -> (r: bool)
        ensures
            r == (self@.len() > 0),
    {
        self.pending.len() > 0
    }

    /// Queues bytes that were read from the terminal.
    pub fn push_bytes(&mut self, bytes: &[u8])
        requires
            old(self)@.len() + bytes@.len() <= usize::MAX,
        ensures
            final(self)@ == old(self)@ + bytes@,
    {
        let mut i: usize = 0;
        while i < bytes.len()
            invariant
                i <= bytes@.len(),
                self@ == old(self)@ + bytes@.take(i as int),
            decreases bytes@.len() - i,
        {
            self.pending.push(bytes[i]);
            i = i + 1;
            assert(bytes@.take(i as int) == bytes@.take(i - 1) + seq![bytes@[i - 1]]);
        }
        assert(bytes@.take(bytes@.len() as int) == bytes@);
    }

    /// Reads the first character of the queued bytes and drops its bytes; a byte that
    /// starts no character is dropped alone.
    pub fn next_char(&mut self, at_end: bool) -> (r: CharRead)
        ensures
            old(self)@.len() == 0 ==> r is Pending && final(self)@ == old(self)@,
            old(self)@.len() > 0 ==> r == read_char(old(self)@, 0, at_end),
            final(self)@ == old(self)@.skip(char_bytes(r)),
    {
        if self.pending.len() == 0 {
            return CharRead::Pending;
        }
        let r = exec_read_char(self.pending.as_slice(), 0, at_end);
        let n: usize = match &r {
            CharRead::Wide(_, n) => *n,
            CharRead::Ascii(_) => 1,
            CharRead::Bad(_) => 1,
            CharRead::Pending => 0,
        };
        self.drop_front(n);
        r
    }

    fn drop_front(&mut self, n: usize)
        requires
            n <= old(self)@.len(),
        ensures
            final(self)@ == old(self)@.skip(n as int),
    {
        if n > 0 {
            let mut rest: Vec<u8> = Vec::new();
            let mut i: usize = n;
            while i < self.pending.len()
                invariant
                    n <= i <= self.pending@.len(),
                    rest@ == self.pending@.subrange(n as int, i as int),
                decreases self.pending@.len() - i,
            {
                rest.push(self.pending[i]);
                i = i + 1;
            }
            self.pending = rest;
        }
    }

    /// Decodes the first key of the queued bytes and drops the bytes it used up;
    /// `at_end` says that the input has stayed silent for the disambiguation window.
    pub fn next_key(&mut self, at_end: bool) -> (r: Decoded)
        ensures
            r == decode_spec(old(self)@, at_end),
            final(self)@ == old(self)@.skip(consumed(r)),
    {
        let r = decode(self.pending.as_slice(), at_end);
        let len = self.pending.len();
        proof {
            lemma_decode_consumed(self@, at_end);
        }
        let n: usize = match &r {
            Decoded::Key(_, n) => *n,
            Decoded::Failed(_, n) => *n,
            Decoded::Pending => 0,
        };
        self.drop_front(n);
        r
    }
}

} // verus!
