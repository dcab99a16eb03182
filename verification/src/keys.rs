//! The keys Footman can bind, independent of any platform's key codes.
//!
//! The table below is the single place the key set is declared: its order is
//! the key-table order Bindings are written in, and the name in each row is
//! exactly what a Chord is written with in the config file.

use vstd::prelude::*;

use crate::text::{chars_of, eq_ignore_case, fold, fold_seq, same_ignoring_case};

verus! {

/// A key Footman can reason about, independent of any platform's key codes.
///
/// Punctuation is deliberately absent: where `;` or `[` physically sits
/// depends on the keyboard layout, so naming them would mean a config binding
/// different keys on different machines.
#[derive(Debug, Clone, Copy, PartialEq, Eq, Structural, Hash, PartialOrd, Ord)]
pub enum Key {
    A,
    B,
    C,
    D,
    E,
    F,
    G,
    H,
    I,
    J,
    K,
    L,
    M,
    N,
    O,
    P,
    Q,
    R,
    S,
    T,
    U,
    V,
    W,
    X,
    Y,
    Z,
    Digit0,
    Digit1,
    Digit2,
    Digit3,
    Digit4,
    Digit5,
    Digit6,
    Digit7,
    Digit8,
    Digit9,
    F1,
    F2,
    F3,
    F4,
    F5,
    F6,
    F7,
    F8,
    F9,
    F10,
    F11,
    F12,
    F13,
    F14,
    F15,
    F16,
    F17,
    F18,
    F19,
    F20,
    F21,
    F22,
    F23,
    F24,
    Left,
    Right,
    Up,
    Down,
    Space,
    Enter,
    Tab,
    Backspace,
    Escape,
    Delete,
    Insert,
    Home,
    End,
    PageUp,
    PageDown,
    CapsLock,
    Shift,
    Ctrl,
    Alt,
}

/// How many keys the table holds.
pub const KEY_COUNT: usize = 79;

/// A key's row in the table, counted from zero.
pub open spec fn key_index(k: Key) -> int {
    match k {
        Key::A => 0,
        Key::B => 1,
        Key::C => 2,
        Key::D => 3,
        Key::E => 4,
        Key::F => 5,
        Key::G => 6,
        Key::H => 7,
        Key::I => 8,
        Key::J => 9,
        Key::K => 10,
        Key::L => 11,
        Key::M => 12,
        Key::N => 13,
        Key::O => 14,
        Key::P => 15,
        Key::Q => 16,
        Key::R => 17,
        Key::S => 18,
        Key::T => 19,
        Key::U => 20,
        Key::V => 21,
        Key::W => 22,
        Key::X => 23,
        Key::Y => 24,
        Key::Z => 25,
        Key::Digit0 => 26,
        Key::Digit1 => 27,
        Key::Digit2 => 28,
        Key::Digit3 => 29,
        Key::Digit4 => 30,
        Key::Digit5 => 31,
        Key::Digit6 => 32,
        Key::Digit7 => 33,
        Key::Digit8 => 34,
        Key::Digit9 => 35,
        Key::F1 => 36,
        Key::F2 => 37,
        Key::F3 => 38,
        Key::F4 => 39,
        Key::F5 => 40,
        Key::F6 => 41,
        Key::F7 => 42,
        Key::F8 => 43,
        Key::F9 => 44,
        Key::F10 => 45,
        Key::F11 => 46,
        Key::F12 => 47,
        Key::F13 => 48,
        Key::F14 => 49,
        Key::F15 => 50,
        Key::F16 => 51,
        Key::F17 => 52,
        Key::F18 => 53,
        Key::F19 => 54,
        Key::F20 => 55,
        Key::F21 => 56,
        Key::F22 => 57,
        Key::F23 => 58,
        Key::F24 => 59,
        Key::Left => 60,
        Key::Right => 61,
        Key::Up => 62,
        Key::Down => 63,
        Key::Space => 64,
        Key::Enter => 65,
        Key::Tab => 66,
        Key::Backspace => 67,
        Key::Escape => 68,
        Key::Delete => 69,
        Key::Insert => 70,
        Key::Home => 71,
        Key::End => 72,
        Key::PageUp => 73,
        Key::PageDown => 74,
        Key::CapsLock => 75,
        Key::Shift => 76,
        Key::Ctrl => 77,
        Key::Alt => 78,
    }
}

/// The key in row `i` of the table.
pub open spec fn key_at(i: int) -> Key {
    if i == 0 {
        Key::A
    } else if i == 1 {
        Key::B
    } else if i == 2 {
        Key::C
    } else if i == 3 {
        Key::D
    } else if i == 4 {
        Key::E
    } else if i == 5 {
        Key::F
    } else if i == 6 {
        Key::G
    } else if i == 7 {
        Key::H
    } else if i == 8 {
        Key::I
    } else if i == 9 {
        Key::J
    } else if i == 10 {
        Key::K
    } else if i == 11 {
        Key::L
    } else if i == 12 {
        Key::M
    } else if i == 13 {
        Key::N
    } else if i == 14 {
        Key::O
    } else if i == 15 {
        Key::P
    } else if i == 16 {
        Key::Q
    } else if i == 17 {
        Key::R
    } else if i == 18 {
        Key::S
    } else if i == 19 {
        Key::T
    } else if i == 20 {
        Key::U
    } else if i == 21 {
        Key::V
    } else if i == 22 {
        Key::W
    } else if i == 23 {
        Key::X
    } else if i == 24 {
        Key::Y
    } else if i == 25 {
        Key::Z
    } else if i == 26 {
        Key::Digit0
    } else if i == 27 {
        Key::Digit1
    } else if i == 28 {
        Key::Digit2
    } else if i == 29 {
        Key::Digit3
    } else if i == 30 {
        Key::Digit4
    } else if i == 31 {
        Key::Digit5
    } else if i == 32 {
        Key::Digit6
    } else if i == 33 {
        Key::Digit7
    } else if i == 34 {
        Key::Digit8
    } else if i == 35 {
        Key::Digit9
    } else if i == 36 {
        Key::F1
    } else if i == 37 {
        Key::F2
    } else if i == 38 {
        Key::F3
    } else if i == 39 {
        Key::F4
    } else if i == 40 {
        Key::F5
    } else if i == 41 {
        Key::F6
    } else if i == 42 {
        Key::F7
    } else if i == 43 {
        Key::F8
    } else if i == 44 {
        Key::F9
    } else if i == 45 {
        Key::F10
    } else if i == 46 {
        Key::F11
    } else if i == 47 {
        Key::F12
    } else if i == 48 {
        Key::F13
    } else if i == 49 {
        Key::F14
    } else if i == 50 {
        Key::F15
    } else if i == 51 {
        Key::F16
    } else if i == 52 {
        Key::F17
    } else if i == 53 {
        Key::F18
    } else if i == 54 {
        Key::F19
    } else if i == 55 {
        Key::F20
    } else if i == 56 {
        Key::F21
    } else if i == 57 {
        Key::F22
    } else if i == 58 {
        Key::F23
    } else if i == 59 {
        Key::F24
    } else if i == 60 {
        Key::Left
    } else if i == 61 {
        Key::Right
    } else if i == 62 {
        Key::Up
    } else if i == 63 {
        Key::Down
    } else if i == 64 {
        Key::Space
    } else if i == 65 {
        Key::Enter
    } else if i == 66 {
        Key::Tab
    } else if i == 67 {
        Key::Backspace
    } else if i == 68 {
        Key::Escape
    } else if i == 69 {
        Key::Delete
    } else if i == 70 {
        Key::Insert
    } else if i == 71 {
        Key::Home
    } else if i == 72 {
        Key::End
    } else if i == 73 {
        Key::PageUp
    } else if i == 74 {
        Key::PageDown
    } else if i == 75 {
        Key::CapsLock
    } else if i == 76 {
        Key::Shift
    } else if i == 77 {
        Key::Ctrl
    } else {
        Key::Alt
    }
}

/// The name a key is written with.
pub open spec fn key_name(k: Key) -> Seq<char> {
    match k {
        Key::A => seq!['A'],
        Key::B => seq!['B'],
        Key::C => seq!['C'],
        Key::D => seq!['D'],
        Key::E => seq!['E'],
        Key::F => seq!['F'],
        Key::G => seq!['G'],
        Key::H => seq!['H'],
        Key::I => seq!['I'],
        Key::J => seq!['J'],
        Key::K => seq!['K'],
        Key::L => seq!['L'],
        Key::M => seq!['M'],
        Key::N => seq!['N'],
        Key::O => seq!['O'],
        Key::P => seq!['P'],
        Key::Q => seq!['Q'],
        Key::R => seq!['R'],
        Key::S => seq!['S'],
        Key::T => seq!['T'],
        Key::U => seq!['U'],
        Key::V => seq!['V'],
        Key::W => seq!['W'],
        Key::X => seq!['X'],
        Key::Y => seq!['Y'],
        Key::Z => seq!['Z'],
        Key::Digit0 => seq!['0'],
        Key::Digit1 => seq!['1'],
        Key::Digit2 => seq!['2'],
        Key::Digit3 => seq!['3'],
        Key::Digit4 => seq!['4'],
        Key::Digit5 => seq!['5'],
        Key::Digit6 => seq!['6'],
        Key::Digit7 => seq!['7'],
        Key::Digit8 => seq!['8'],
        Key::Digit9 => seq!['9'],
        Key::F1 => seq!['F', '1'],
        Key::F2 => seq!['F', '2'],
        Key::F3 => seq!['F', '3'],
        Key::F4 => seq!['F', '4'],
        Key::F5 => seq!['F', '5'],
        Key::F6 => seq!['F', '6'],
        Key::F7 => seq!['F', '7'],
        Key::F8 => seq!['F', '8'],
        Key::F9 => seq!['F', '9'],
        Key::F10 => seq!['F', '1', '0'],
        Key::F11 => seq!['F', '1', '1'],
        Key::F12 => seq!['F', '1', '2'],
        Key::F13 => seq!['F', '1', '3'],
        Key::F14 => seq!['F', '1', '4'],
        Key::F15 => seq!['F', '1', '5'],
        Key::F16 => seq!['F', '1', '6'],
        Key::F17 => seq!['F', '1', '7'],
        Key::F18 => seq!['F', '1', '8'],
        Key::F19 => seq!['F', '1', '9'],
        Key::F20 => seq!['F', '2', '0'],
        Key::F21 => seq!['F', '2', '1'],
        Key::F22 => seq!['F', '2', '2'],
        Key::F23 => seq!['F', '2', '3'],
        Key::F24 => seq!['F', '2', '4'],
        Key::Left => seq!['L', 'e', 'f', 't'],
        Key::Right => seq!['R', 'i', 'g', 'h', 't'],
        Key::Up => seq!['U', 'p'],
        Key::Down => seq!['D', 'o', 'w', 'n'],
        Key::Space => seq!['S', 'p', 'a', 'c', 'e'],
        Key::Enter => seq!['E', 'n', 't', 'e', 'r'],
        Key::Tab => seq!['T', 'a', 'b'],
        Key::Backspace => seq!['B', 'a', 'c', 'k', 's', 'p', 'a', 'c', 'e'],
        Key::Escape => seq!['E', 's', 'c', 'a', 'p', 'e'],
        Key::Delete => seq!['D', 'e', 'l', 'e', 't', 'e'],
        Key::Insert => seq!['I', 'n', 's', 'e', 'r', 't'],
        Key::Home => seq!['H', 'o', 'm', 'e'],
        Key::End => seq!['E', 'n', 'd'],
        Key::PageUp => seq!['P', 'a', 'g', 'e', 'U', 'p'],
        Key::PageDown => seq!['P', 'a', 'g', 'e', 'D', 'o', 'w', 'n'],
        Key::CapsLock => seq!['C', 'a', 'p', 's', 'L', 'o', 'c', 'k'],
        Key::Shift => seq!['S', 'h', 'i', 'f', 't'],
        Key::Ctrl => seq!['C', 't', 'r', 'l'],
        Key::Alt => seq!['A', 'l', 't'],
    }
}

/// The first key, in table order from row `from` on, whose name is `s` when
/// ASCII case is ignored.
pub open spec fn first_named(s: Seq<char>, from: int) -> Option<Key>
    decreases KEY_COUNT - from,
{
    if from < 0 || from >= KEY_COUNT {
        None
    } else if same_ignoring_case(key_name(key_at(from)), s) {
        Some(key_at(from))
    } else {
        first_named(s, from + 1)
    }
}

/// The key a name stands for: the first in table order whose name it is,
/// ignoring ASCII case.
pub open spec fn key_named(s: Seq<char>) -> Option<Key> {
    first_named(s, 0)
}

/// Row numbers and keys correspond one to one.
pub proof fn lemma_key_rows(k: Key)
    ensures
        0 <= key_index(k) < KEY_COUNT,
        key_at(key_index(k)) == k,
{
}

pub proof fn lemma_key_rows_inverse(i: int)
    requires
        0 <= i < KEY_COUNT,
    ensures
        key_index(key_at(i)) == i,
{
}

impl Key {
    /// This key's row in the table.
    pub fn index(self) -> (i: usize)
        ensures
            i == key_index(self),
    {
        match self {
            Key::A => 0,
            Key::B => 1,
            Key::C => 2,
            Key::D => 3,
            Key::E => 4,
            Key::F => 5,
            Key::G => 6,
            Key::H => 7,
            Key::I => 8,
            Key::J => 9,
            Key::K => 10,
            Key::L => 11,
            Key::M => 12,
            Key::N => 13,
            Key::O => 14,
            Key::P => 15,
            Key::Q => 16,
            Key::R => 17,
            Key::S => 18,
            Key::T => 19,
            Key::U => 20,
            Key::V => 21,
            Key::W => 22,
            Key::X => 23,
            Key::Y => 24,
            Key::Z => 25,
            Key::Digit0 => 26,
            Key::Digit1 => 27,
            Key::Digit2 => 28,
            Key::Digit3 => 29,
            Key::Digit4 => 30,
            Key::Digit5 => 31,
            Key::Digit6 => 32,
            Key::Digit7 => 33,
            Key::Digit8 => 34,
            Key::Digit9 => 35,
            Key::F1 => 36,
            Key::F2 => 37,
            Key::F3 => 38,
            Key::F4 => 39,
            Key::F5 => 40,
            Key::F6 => 41,
            Key::F7 => 42,
            Key::F8 => 43,
            Key::F9 => 44,
            Key::F10 => 45,
            Key::F11 => 46,
            Key::F12 => 47,
            Key::F13 => 48,
            Key::F14 => 49,
            Key::F15 => 50,
            Key::F16 => 51,
            Key::F17 => 52,
            Key::F18 => 53,
            Key::F19 => 54,
            Key::F20 => 55,
            Key::F21 => 56,
            Key::F22 => 57,
            Key::F23 => 58,
            Key::F24 => 59,
            Key::Left => 60,
            Key::Right => 61,
            Key::Up => 62,
            Key::Down => 63,
            Key::Space => 64,
            Key::Enter => 65,
            Key::Tab => 66,
            Key::Backspace => 67,
            Key::Escape => 68,
            Key::Delete => 69,
            Key::Insert => 70,
            Key::Home => 71,
            Key::End => 72,
            Key::PageUp => 73,
            Key::PageDown => 74,
            Key::CapsLock => 75,
            Key::Shift => 76,
            Key::Ctrl => 77,
            Key::Alt => 78,
        }
    }

    /// The key in row `i` of the table.
    pub fn from_index(i: usize) -> (k: Key)
        requires
            i < KEY_COUNT,
        ensures
            k == key_at(i as int),
    {
        match i {
            0 => Key::A,
            1 => Key::B,
            2 => Key::C,
            3 => Key::D,
            4 => Key::E,
            5 => Key::F,
            6 => Key::G,
            7 => Key::H,
            8 => Key::I,
            9 => Key::J,
            10 => Key::K,
            11 => Key::L,
            12 => Key::M,
            13 => Key::N,
            14 => Key::O,
            15 => Key::P,
            16 => Key::Q,
            17 => Key::R,
            18 => Key::S,
            19 => Key::T,
            20 => Key::U,
            21 => Key::V,
            22 => Key::W,
            23 => Key::X,
            24 => Key::Y,
            25 => Key::Z,
            26 => Key::Digit0,
            27 => Key::Digit1,
            28 => Key::Digit2,
            29 => Key::Digit3,
            30 => Key::Digit4,
            31 => Key::Digit5,
            32 => Key::Digit6,
            33 => Key::Digit7,
            34 => Key::Digit8,
            35 => Key::Digit9,
            36 => Key::F1,
            37 => Key::F2,
            38 => Key::F3,
            39 => Key::F4,
            40 => Key::F5,
            41 => Key::F6,
            42 => Key::F7,
            43 => Key::F8,
            44 => Key::F9,
            45 => Key::F10,
            46 => Key::F11,
            47 => Key::F12,
            48 => Key::F13,
            49 => Key::F14,
            50 => Key::F15,
            51 => Key::F16,
            52 => Key::F17,
            53 => Key::F18,
            54 => Key::F19,
            55 => Key::F20,
            56 => Key::F21,
            57 => Key::F22,
            58 => Key::F23,
            59 => Key::F24,
            60 => Key::Left,
            61 => Key::Right,
            62 => Key::Up,
            63 => Key::Down,
            64 => Key::Space,
            65 => Key::Enter,
            66 => Key::Tab,
            67 => Key::Backspace,
            68 => Key::Escape,
            69 => Key::Delete,
            70 => Key::Insert,
            71 => Key::Home,
            72 => Key::End,
            73 => Key::PageUp,
            74 => Key::PageDown,
            75 => Key::CapsLock,
            76 => Key::Shift,
            77 => Key::Ctrl,
            _ => Key::Alt,
        }
    }

    /// The name this key is written with in a config file.
    pub fn name(self) -> (r: &'static str)
        ensures
            r@ == key_name(self),
    {
        match self {
            Key::A => {
                proof {
                    reveal_strlit("A");
                }
                "A"
            },
            Key::B => {
                proof {
                    reveal_strlit("B");
                }
                "B"
            },
            Key::C => {
                proof {
                    reveal_strlit("C");
                }
                "C"
            },
            Key::D => {
                proof {
                    reveal_strlit("D");
                }
                "D"
            },
            Key::E => {
                proof {
                    reveal_strlit("E");
                }
                "E"
            },
            Key::F => {
                proof {
                    reveal_strlit("F");
                }
                "F"
            },
            Key::G => {
                proof {
                    reveal_strlit("G");
                }
                "G"
            },
            Key::H => {
                proof {
                    reveal_strlit("H");
                }
                "H"
            },
            Key::I => {
                proof {
                    reveal_strlit("I");
                }
                "I"
            },
            Key::J => {
                proof {
                    reveal_strlit("J");
                }
                "J"
            },
            Key::K => {
                proof {
                    reveal_strlit("K");
                }
                "K"
            },
            Key::L => {
                proof {
                    reveal_strlit("L");
                }
                "L"
            },
            Key::M => {
                proof {
                    reveal_strlit("M");
                }
                "M"
            },
            Key::N => {
                proof {
                    reveal_strlit("N");
                }
                "N"
            },
            Key::O => {
                proof {
                    reveal_strlit("O");
                }
                "O"
            },
            Key::P => {
                proof {
                    reveal_strlit("P");
                }
                "P"
            },
            Key::Q => {
                proof {
                    reveal_strlit("Q");
                }
                "Q"
            },
            Key::R => {
                proof {
                    reveal_strlit("R");
                }
                "R"
            },
            Key::S => {
                proof {
                    reveal_strlit("S");
                }
                "S"
            },
            Key::T => {
                proof {
                    reveal_strlit("T");
                }
                "T"
            },
            Key::U => {
                proof {
                    reveal_strlit("U");
                }
                "U"
            },
            Key::V => {
                proof {
                    reveal_strlit("V");
                }
                "V"
            },
            Key::W => {
                proof {
                    reveal_strlit("W");
                }
                "W"
            },
            Key::X => {
                proof {
                    reveal_strlit("X");
                }
                "X"
            },
            Key::Y => {
                proof {
                    reveal_strlit("Y");
                }
                "Y"
            },
            Key::Z => {
                proof {
                    reveal_strlit("Z");
                }
                "Z"
            },
            Key::Digit0 => {
                proof {
                    reveal_strlit("0");
                }
                "0"
            },
            Key::Digit1 => {
                proof {
                    reveal_strlit("1");
                }
                "1"
            },
            Key::Digit2 => {
                proof {
                    reveal_strlit("2");
                }
                "2"
            },
            Key::Digit3 => {
                proof {
                    reveal_strlit("3");
                }
                "3"
            },
            Key::Digit4 => {
                proof {
                    reveal_strlit("4");
                }
                "4"
            },
            Key::Digit5 => {
                proof {
                    reveal_strlit("5");
                }
                "5"
            },
            Key::Digit6 => {
                proof {
                    reveal_strlit("6");
                }
                "6"
            },
            Key::Digit7 => {
                proof {
                    reveal_strlit("7");
                }
                "7"
            },
            Key::Digit8 => {
                proof {
                    reveal_strlit("8");
                }
                "8"
            },
            Key::Digit9 => {
                proof {
                    reveal_strlit("9");
                }
                "9"
            },
            Key::F1 => {
                proof {
                    reveal_strlit("F1");
                }
                "F1"
            },
            Key::F2 => {
                proof {
                    reveal_strlit("F2");
                }
                "F2"
            },
            Key::F3 => {
                proof {
                    reveal_strlit("F3");
                }
                "F3"
            },
            Key::F4 => {
                proof {
                    reveal_strlit("F4");
                }
                "F4"
            },
            Key::F5 => {
                proof {
                    reveal_strlit("F5");
                }
                "F5"
            },
            Key::F6 => {
                proof {
                    reveal_strlit("F6");
                }
                "F6"
            },
            Key::F7 => {
                proof {
                    reveal_strlit("F7");
                }
                "F7"
            },
            Key::F8 => {
                proof {
                    reveal_strlit("F8");
                }
                "F8"
            },
            Key::F9 => {
                proof {
                    reveal_strlit("F9");
                }
                "F9"
            },
            Key::F10 => {
                proof {
                    reveal_strlit("F10");
                }
                "F10"
            },
            Key::F11 => {
                proof {
                    reveal_strlit("F11");
                }
                "F11"
            },
            Key::F12 => {
                proof {
                    reveal_strlit("F12");
                }
                "F12"
            },
            Key::F13 => {
                proof {
                    reveal_strlit("F13");
                }
                "F13"
            },
            Key::F14 => {
                proof {
                    reveal_strlit("F14");
                }
                "F14"
            },
            Key::F15 => {
                proof {
                    reveal_strlit("F15");
                }
                "F15"
            },
            Key::F16 => {
                proof {
                    reveal_strlit("F16");
                }
                "F16"
            },
            Key::F17 => {
                proof {
                    reveal_strlit("F17");
                }
                "F17"
            },
            Key::F18 => {
                proof {
                    reveal_strlit("F18");
                }
                "F18"
            },
            Key::F19 => {
                proof {
                    reveal_strlit("F19");
                }
                "F19"
            },
            Key::F20 => {
                proof {
                    reveal_strlit("F20");
                }
                "F20"
            },
            Key::F21 => {
                proof {
                    reveal_strlit("F21");
                }
                "F21"
            },
            Key::F22 => {
                proof {
                    reveal_strlit("F22");
                }
                "F22"
            },
            Key::F23 => {
                proof {
                    reveal_strlit("F23");
                }
                "F23"
            },
            Key::F24 => {
                proof {
                    reveal_strlit("F24");
                }
                "F24"
            },
            Key::Left => {
                proof {
                    reveal_strlit("Left");
                }
                "Left"
            },
            Key::Right => {
                proof {
                    reveal_strlit("Right");
                }
                "Right"
            },
            Key::Up => {
                proof {
                    reveal_strlit("Up");
                }
                "Up"
            },
            Key::Down => {
                proof {
                    reveal_strlit("Down");
                }
                "Down"
            },
            Key::Space => {
                proof {
                    reveal_strlit("Space");
                }
                "Space"
            },
            Key::Enter => {
                proof {
                    reveal_strlit("Enter");
                }
                "Enter"
            },
            Key::Tab => {
                proof {
                    reveal_strlit("Tab");
                }
                "Tab"
            },
            Key::Backspace => {
                proof {
                    reveal_strlit("Backspace");
                }
                "Backspace"
            },
            Key::Escape => {
                proof {
                    reveal_strlit("Escape");
                }
                "Escape"
            },
            Key::Delete => {
                proof {
                    reveal_strlit("Delete");
                }
                "Delete"
            },
            Key::Insert => {
                proof {
                    reveal_strlit("Insert");
                }
                "Insert"
            },
            Key::Home => {
                proof {
                    reveal_strlit("Home");
                }
                "Home"
            },
            Key::End => {
                proof {
                    reveal_strlit("End");
                }
                "End"
            },
            Key::PageUp => {
                proof {
                    reveal_strlit("PageUp");
                }
                "PageUp"
            },
            Key::PageDown => {
                proof {
                    reveal_strlit("PageDown");
                }
                "PageDown"
            },
            Key::CapsLock => {
                proof {
                    reveal_strlit("CapsLock");
                }
                "CapsLock"
            },
            Key::Shift => {
                proof {
                    reveal_strlit("Shift");
                }
                "Shift"
            },
            Key::Ctrl => {
                proof {
                    reveal_strlit("Ctrl");
                }
                "Ctrl"
            },
            Key::Alt => {
                proof {
                    reveal_strlit("Alt");
                }
                "Alt"
            },
        }
    }

    /// The name this key is written with, as an owned string.
    pub fn to_string(self) -> (r: String)
        ensures
            r@ == key_name(self),
    {
        self.name().to_owned()
    }

    /// Every bindable key, in key-table order.
    pub fn all() -> (keys: Vec<Key>)
        ensures
            keys@.len() == KEY_COUNT,
            forall|i: int| 0 <= i < KEY_COUNT ==> keys@[i] == key_at(i),
    {
        let mut keys: Vec<Key> = Vec::new();
        let mut i: usize = 0;
        while i < KEY_COUNT
            invariant
                i <= KEY_COUNT,
                keys@.len() == i,
                forall|j: int| 0 <= j < i ==> keys@[j] == key_at(j),
            decreases KEY_COUNT - i,
        {
            keys.push(Key::from_index(i));
            i = i + 1;
        }
        keys
    }

    /// Reads a key name, ignoring ASCII case.
    pub fn parse(name: &str) -> (k: Option<Key>)
        ensures
            k == key_named(name@),
    {
        let wanted = chars_of(name);
        Key::parse_chars(wanted.as_slice())
    }

    /// Reads a key name given as characters, ignoring ASCII case.
    pub fn parse_chars(wanted: &[char]) -> (k: Option<Key>)
        ensures
            k == key_named(wanted@),
    {
        let mut i: usize = 0;
        while i < KEY_COUNT
            invariant
                i <= KEY_COUNT,
                first_named(wanted@, 0) == first_named(wanted@, i as int),
            decreases KEY_COUNT - i,
        {
            let key = Key::from_index(i);
            let spelled = chars_of(key.name());
            if eq_ignore_case(spelled.as_slice(), wanted) {
                return Some(key);
            }
            i = i + 1;
        }
        None
    }
}

impl std::str::FromStr for Key {
    type Err = ();

    /// Reads a key name, ignoring ASCII case.
    fn from_str(name: &str) -> (r: Result<Key, ()>)
        ensures
            match key_named(name@) {
                Some(key) => r == Ok::<Key, ()>(key),
                None => r == Err::<Key, ()>(()),
            },
    {
        match Key::parse(name) {
            Some(key) => Ok(key),
            None => Err(()),
        }
    }
}

} // verus!
verus! {

/// A number that tells apart the names of the table once ASCII case is
/// ignored: their length and the first, second and last characters.
spec fn name_code(t: Seq<char>) -> int {
    t.len() * 2097152 + (t[0] as int) * 16384 + (if t.len() > 1 {
        t[1] as int
    } else {
        0
    }) * 128 + (t[t.len() - 1] as int)
}

/// `name_code` of each key's folded name, worked out once.
spec fn key_code(k: Key) -> int {
    match k {
        Key::A => 3686497,
        Key::B => 3702882,
        Key::C => 3719267,
        Key::D => 3735652,
        Key::E => 3752037,
        Key::F => 3768422,
        Key::G => 3784807,
        Key::H => 3801192,
        Key::I => 3817577,
        Key::J => 3833962,
        Key::K => 3850347,
        Key::L => 3866732,
        Key::M => 3883117,
        Key::N => 3899502,
        Key::O => 3915887,
        Key::P => 3932272,
        Key::Q => 3948657,
        Key::R => 3965042,
        Key::S => 3981427,
        Key::T => 3997812,
        Key::U => 4014197,
        Key::V => 4030582,
        Key::W => 4046967,
        Key::X => 4063352,
        Key::Y => 4079737,
        Key::Z => 4096122,
        Key::Digit0 => 2883632,
        Key::Digit1 => 2900017,
        Key::Digit2 => 2916402,
        Key::Digit3 => 2932787,
        Key::Digit4 => 2949172,
        Key::Digit5 => 2965557,
        Key::Digit6 => 2981942,
        Key::Digit7 => 2998327,
        Key::Digit8 => 3014712,
        Key::Digit9 => 3031097,
        Key::F1 => 5871793,
        Key::F2 => 5871922,
        Key::F3 => 5872051,
        Key::F4 => 5872180,
        Key::F5 => 5872309,
        Key::F6 => 5872438,
        Key::F7 => 5872567,
        Key::F8 => 5872696,
        Key::F9 => 5872825,
        Key::F10 => 7968944,
        Key::F11 => 7968945,
        Key::F12 => 7968946,
        Key::F13 => 7968947,
        Key::F14 => 7968948,
        Key::F15 => 7968949,
        Key::F16 => 7968950,
        Key::F17 => 7968951,
        Key::F18 => 7968952,
        Key::F19 => 7968953,
        Key::F20 => 7969072,
        Key::F21 => 7969073,
        Key::F22 => 7969074,
        Key::F23 => 7969075,
        Key::F24 => 7969076,
        Key::Left => 10171124,
        Key::Right => 12367092,
        Key::Up => 6125680,
        Key::Down => 10041326,
        Key::Space => 12384357,
        Key::Enter => 12154738,
        Key::Tab => 8204514,
        Key::Backspace => 20492517,
        Key::Escape => 14252517,
        Key::Delete => 14234341,
        Key::Insert => 14317428,
        Key::Home => 10106853,
        Key::End => 7960420,
        Key::PageUp => 14430448,
        Key::PageDown => 18624750,
        Key::CapsLock => 18411755,
        Key::Shift => 12383348,
        Key::Ctrl => 10025580,
        Key::Alt => 7894644,
    }
}

/// The key whose folded name has this code.
spec fn key_of_code(c: int) -> Option<Key> {
    if c == 3686497 {
        Some(Key::A)
    } else if c == 3702882 {
        Some(Key::B)
    } else if c == 3719267 {
        Some(Key::C)
    } else if c == 3735652 {
        Some(Key::D)
    } else if c == 3752037 {
        Some(Key::E)
    } else if c == 3768422 {
        Some(Key::F)
    } else if c == 3784807 {
        Some(Key::G)
    } else if c == 3801192 {
        Some(Key::H)
    } else if c == 3817577 {
        Some(Key::I)
    } else if c == 3833962 {
        Some(Key::J)
    } else if c == 3850347 {
        Some(Key::K)
    } else if c == 3866732 {
        Some(Key::L)
    } else if c == 3883117 {
        Some(Key::M)
    } else if c == 3899502 {
        Some(Key::N)
    } else if c == 3915887 {
        Some(Key::O)
    } else if c == 3932272 {
        Some(Key::P)
    } else if c == 3948657 {
        Some(Key::Q)
    } else if c == 3965042 {
        Some(Key::R)
    } else if c == 3981427 {
        Some(Key::S)
    } else if c == 3997812 {
        Some(Key::T)
    } else if c == 4014197 {
        Some(Key::U)
    } else if c == 4030582 {
        Some(Key::V)
    } else if c == 4046967 {
        Some(Key::W)
    } else if c == 4063352 {
        Some(Key::X)
    } else if c == 4079737 {
        Some(Key::Y)
    } else if c == 4096122 {
        Some(Key::Z)
    } else if c == 2883632 {
        Some(Key::Digit0)
    } else if c == 2900017 {
        Some(Key::Digit1)
    } else if c == 2916402 {
        Some(Key::Digit2)
    } else if c == 2932787 {
        Some(Key::Digit3)
    } else if c == 2949172 {
        Some(Key::Digit4)
    } else if c == 2965557 {
        Some(Key::Digit5)
    } else if c == 2981942 {
        Some(Key::Digit6)
    } else if c == 2998327 {
        Some(Key::Digit7)
    } else if c == 3014712 {
        Some(Key::Digit8)
    } else if c == 3031097 {
        Some(Key::Digit9)
    } else if c == 5871793 {
        Some(Key::F1)
    } else if c == 5871922 {
        Some(Key::F2)
    } else if c == 5872051 {
        Some(Key::F3)
    } else if c == 5872180 {
        Some(Key::F4)
    } else if c == 5872309 {
        Some(Key::F5)
    } else if c == 5872438 {
        Some(Key::F6)
    } else if c == 5872567 {
        Some(Key::F7)
    } else if c == 5872696 {
        Some(Key::F8)
    } else if c == 5872825 {
        Some(Key::F9)
    } else if c == 7968944 {
        Some(Key::F10)
    } else if c == 7968945 {
        Some(Key::F11)
    } else if c == 7968946 {
        Some(Key::F12)
    } else if c == 7968947 {
        Some(Key::F13)
    } else if c == 7968948 {
        Some(Key::F14)
    } else if c == 7968949 {
        Some(Key::F15)
    } else if c == 7968950 {
        Some(Key::F16)
    } else if c == 7968951 {
        Some(Key::F17)
    } else if c == 7968952 {
        Some(Key::F18)
    } else if c == 7968953 {
        Some(Key::F19)
    } else if c == 7969072 {
        Some(Key::F20)
    } else if c == 7969073 {
        Some(Key::F21)
    } else if c == 7969074 {
        Some(Key::F22)
    } else if c == 7969075 {
        Some(Key::F23)
    } else if c == 7969076 {
        Some(Key::F24)
    } else if c == 10171124 {
        Some(Key::Left)
    } else if c == 12367092 {
        Some(Key::Right)
    } else if c == 6125680 {
        Some(Key::Up)
    } else if c == 10041326 {
        Some(Key::Down)
    } else if c == 12384357 {
        Some(Key::Space)
    } else if c == 12154738 {
        Some(Key::Enter)
    } else if c == 8204514 {
        Some(Key::Tab)
    } else if c == 20492517 {
        Some(Key::Backspace)
    } else if c == 14252517 {
        Some(Key::Escape)
    } else if c == 14234341 {
        Some(Key::Delete)
    } else if c == 14317428 {
        Some(Key::Insert)
    } else if c == 10106853 {
        Some(Key::Home)
    } else if c == 7960420 {
        Some(Key::End)
    } else if c == 14430448 {
        Some(Key::PageUp)
    } else if c == 18624750 {
        Some(Key::PageDown)
    } else if c == 18411755 {
        Some(Key::CapsLock)
    } else if c == 12383348 {
        Some(Key::Shift)
    } else if c == 10025580 {
        Some(Key::Ctrl)
    } else if c == 7894644 {
        Some(Key::Alt)
    } else {
        None
    }
}

proof fn lemma_key_code(k: Key)
    ensures
        name_code(fold_seq(key_name(k))) == key_code(k),
        key_of_code(key_code(k)) == Some(k),
{
    let t = key_name(k);
    assert(fold_seq(t).len() == t.len());
    assert(fold_seq(t)[0] == fold(t[0]));
    assert(t.len() > 1 ==> fold_seq(t)[1] == fold(t[1]));
    assert(fold_seq(t)[t.len() - 1] == fold(t[t.len() - 1]));
}

/// No two keys share a name, even ignoring ASCII case.
pub proof fn lemma_key_names_distinct(a: Key, b: Key)
    requires
        same_ignoring_case(key_name(a), key_name(b)),
    ensures
        a == b,
{
    lemma_key_code(a);
    lemma_key_code(b);
}

proof fn lemma_first_named_own(k: Key, i: int)
    requires
        0 <= i <= key_index(k),
    ensures
        first_named(key_name(k), i) == Some(k),
    decreases key_index(k) - i,
{
    lemma_key_rows(k);
    if i < key_index(k) {
        lemma_key_rows_inverse(i);
        if same_ignoring_case(key_name(key_at(i)), key_name(k)) {
            lemma_key_names_distinct(key_at(i), k);
        }
        lemma_first_named_own(k, i + 1);
    } else {
        assert(fold_seq(key_name(k)) =~= fold_seq(key_name(k)));
    }
}

/// A key's name reads back as that key: what is written, is read.
pub proof fn lemma_key_name_round_trip(k: Key)
    ensures
        key_named(key_name(k)) == Some(k),
{
    lemma_first_named_own(k, 0);
}

} // verus!
