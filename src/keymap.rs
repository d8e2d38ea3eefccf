//! Which character each physical key types, with and without shift.

use vstd::prelude::*;

verus! {

/// Enter: submits the password.
pub const KEY_ENTER: u8 = 36;
/// Backspace: removes the last character.
pub const KEY_BACKSPACE: u8 = 22;
/// Escape: empties the password.
pub const KEY_CLEAR: u8 = 9;
/// Left shift.
pub const KEY_SHIFT_LEFT: u8 = 50;
/// Right shift.
pub const KEY_SHIFT_RIGHT: u8 = 62;

/// The character a key types without shift: the digit row, the three
/// letter rows, the space bar and the punctuation keys.
pub open spec fn base_char(code: u8) -> Option<char> {
    match code {
        10 => Some('1'),
        11 => Some('2'),
        12 => Some('3'),
        13 => Some('4'),
        14 => Some('5'),
        15 => Some('6'),
        16 => Some('7'),
        17 => Some('8'),
        18 => Some('9'),
        19 => Some('0'),
        20 => Some('-'),
        21 => Some('='),
        24 => Some('q'),
        25 => Some('w'),
        26 => Some('e'),
        27 => Some('r'),
        28 => Some('t'),
        29 => Some('y'),
        30 => Some('u'),
        31 => Some('i'),
        32 => Some('o'),
        33 => Some('p'),
        34 => Some('['),
        35 => Some(']'),
        38 => Some('a'),
        39 => Some('s'),
        40 => Some('d'),
        41 => Some('f'),
        42 => Some('g'),
        43 => Some('h'),
        44 => Some('j'),
        45 => Some('k'),
        46 => Some('l'),
        47 => Some(';'),
        48 => Some('\''),
        51 => Some('\\'),
        52 => Some('z'),
        53 => Some('x'),
        54 => Some('c'),
        55 => Some('v'),
        56 => Some('b'),
        57 => Some('n'),
        58 => Some('m'),
        59 => Some(','),
        60 => Some('.'),
        61 => Some('/'),
        65 => Some(' '),
        _ => None,
    }
}

/// The character shift turns `c` into: the symbol above a digit or
/// punctuation mark, the capital of a letter; any other stays as it is.
pub open spec fn shift_of(c: char) -> char {
    match c {
        '1' => '!',
        '2' => '@',
        '3' => '#',
        '4' => '$',
        '5' => '%',
        '6' => '^',
        '7' => '&',
        '8' => '*',
        '9' => '(',
        '0' => ')',
        '-' => '_',
        '=' => '+',
        '[' => '{',
        ']' => '}',
        '\\' => '|',
        ';' => ':',
        '\'' => '"',
        ',' => '<',
        '.' => '>',
        '/' => '?',
        'a' => 'A',
        'b' => 'B',
        'c' => 'C',
        'd' => 'D',
        'e' => 'E',
        'f' => 'F',
        'g' => 'G',
        'h' => 'H',
        'i' => 'I',
        'j' => 'J',
        'k' => 'K',
        'l' => 'L',
        'm' => 'M',
        'n' => 'N',
        'o' => 'O',
        'p' => 'P',
        'q' => 'Q',
        'r' => 'R',
        's' => 'S',
        't' => 'T',
        'u' => 'U',
        'v' => 'V',
        'w' => 'W',
        'x' => 'X',
        'y' => 'Y',
        'z' => 'Z',
        _ => c,
    }
}

/// The character a key types with the given shift state, if any.
pub open spec fn key_char(code: u8, shift: bool) -> Option<char> {
    match base_char(code) {
        Some(c) => if shift { Some(shift_of(c)) } else { Some(c) },
        None => None,
    }
}

fn base_char_of(code: u8) -> (r: Option<char>)
    ensures
        r == base_char(code),
{
    match code {
        10 => Some('1'),
        11 => Some('2'),
        12 => Some('3'),
        13 => Some('4'),
        14 => Some('5'),
        15 => Some('6'),
        16 => Some('7'),
        17 => Some('8'),
        18 => Some('9'),
        19 => Some('0'),
        20 => Some('-'),
        21 => Some('='),
        24 => Some('q'),
        25 => Some('w'),
        26 => Some('e'),
        27 => Some('r'),
        28 => Some('t'),
        29 => Some('y'),
        30 => Some('u'),
        31 => Some('i'),
        32 => Some('o'),
        33 => Some('p'),
        34 => Some('['),
        35 => Some(']'),
        38 => Some('a'),
        39 => Some('s'),
        40 => Some('d'),
        41 => Some('f'),
        42 => Some('g'),
        43 => Some('h'),
        44 => Some('j'),
        45 => Some('k'),
        46 => Some('l'),
        47 => Some(';'),
        48 => Some('\''),
        51 => Some('\\'),
        52 => Some('z'),
        53 => Some('x'),
        54 => Some('c'),
        55 => Some('v'),
        56 => Some('b'),
        57 => Some('n'),
        58 => Some('m'),
        59 => Some(','),
        60 => Some('.'),
        61 => Some('/'),
        65 => Some(' '),
        _ => None,
    }
}

fn shift_char(c: char) -> (r: char)
    ensures
        r == shift_of(c),
{
    match c {
        '1' => '!',
        '2' => '@',
        '3' => '#',
        '4' => '$',
        '5' => '%',
        '6' => '^',
        '7' => '&',
        '8' => '*',
        '9' => '(',
        '0' => ')',
        '-' => '_',
        '=' => '+',
        '[' => '{',
        ']' => '}',
        '\\' => '|',
        ';' => ':',
        '\'' => '"',
        ',' => '<',
        '.' => '>',
        '/' => '?',
        'a' => 'A',
        'b' => 'B',
        'c' => 'C',
        'd' => 'D',
        'e' => 'E',
        'f' => 'F',
        'g' => 'G',
        'h' => 'H',
        'i' => 'I',
        'j' => 'J',
        'k' => 'K',
        'l' => 'L',
        'm' => 'M',
        'n' => 'N',
        'o' => 'O',
        'p' => 'P',
        'q' => 'Q',
        'r' => 'R',
        's' => 'S',
        't' => 'T',
        'u' => 'U',
        'v' => 'V',
        'w' => 'W',
        'x' => 'X',
        'y' => 'Y',
        'z' => 'Z',
        _ => c,
    }
}

/// The character key `code` types with the given shift state, or `None`
/// for a key that types nothing.
pub fn keycode_to_char(code: u8, shift: bool) -> (r: Option<char>)
    ensures
        r == key_char(code, shift),
{
    match base_char_of(code) {
        Some(c) => if shift { Some(shift_char(c)) } else { Some(c) },
        None => None,
    }
}

} // verus!
