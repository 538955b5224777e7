use vstd::prelude::*;

verus! {

// Linux evdev key codes, as delivered by `wl_keyboard.key`.
pub const KEY_ESC: u32 = 1;
pub const KEY_1: u32 = 2;
pub const KEY_2: u32 = 3;
pub const KEY_3: u32 = 4;
pub const KEY_4: u32 = 5;
pub const KEY_5: u32 = 6;
pub const KEY_6: u32 = 7;
pub const KEY_7: u32 = 8;
pub const KEY_8: u32 = 9;
pub const KEY_9: u32 = 10;
pub const KEY_0: u32 = 11;
pub const KEY_MINUS: u32 = 12;
pub const KEY_EQUAL: u32 = 13;
pub const KEY_BACKSPACE: u32 = 14;
pub const KEY_Q: u32 = 16;
pub const KEY_W: u32 = 17;
pub const KEY_E: u32 = 18;
pub const KEY_R: u32 = 19;
pub const KEY_T: u32 = 20;
pub const KEY_Y: u32 = 21;
pub const KEY_U: u32 = 22;
pub const KEY_I: u32 = 23;
pub const KEY_O: u32 = 24;
pub const KEY_P: u32 = 25;
pub const KEY_LEFTBRACE: u32 = 26;
pub const KEY_RIGHTBRACE: u32 = 27;
pub const KEY_ENTER: u32 = 28;
pub const KEY_A: u32 = 30;
pub const KEY_S: u32 = 31;
pub const KEY_D: u32 = 32;
pub const KEY_F: u32 = 33;
pub const KEY_G: u32 = 34;
pub const KEY_H: u32 = 35;
pub const KEY_J: u32 = 36;
pub const KEY_K: u32 = 37;
pub const KEY_L: u32 = 38;
pub const KEY_Z: u32 = 44;
pub const KEY_X: u32 = 45;
pub const KEY_C: u32 = 46;
pub const KEY_V: u32 = 47;
pub const KEY_B: u32 = 48;
pub const KEY_N: u32 = 49;
pub const KEY_M: u32 = 50;
pub const KEY_DOT: u32 = 52;
pub const KEY_SLASH: u32 = 53;
pub const KEY_SPACE: u32 = 57;
pub const KEY_KPMINUS: u32 = 74;
pub const KEY_KPPLUS: u32 = 78;
pub const KEY_KP0: u32 = 82;
pub const KEY_UP: u32 = 103;
pub const KEY_LEFT: u32 = 105;
pub const KEY_RIGHT: u32 = 106;
pub const KEY_DOWN: u32 = 108;

/// Palette slot selected by the number row: 1..9, 0, minus, equal.
pub open spec fn palette_index_spec(key: u32) -> Option<usize> {
    if KEY_1 <= key <= KEY_EQUAL {
        Some((key - KEY_1) as usize)
    } else {
        None
    }
}

/// Keys that repeat while held during navigation.
pub open spec fn is_repeatable_key_spec(key: u32) -> bool {
    key == KEY_EQUAL || key == KEY_KPPLUS || key == KEY_MINUS || key == KEY_KPMINUS
        || key == KEY_LEFT || key == KEY_RIGHT || key == KEY_UP || key == KEY_DOWN
        || key == KEY_LEFTBRACE || key == KEY_RIGHTBRACE
}

pub fn palette_index_for_key(key: u32) -> (index: Option<usize>)
    ensures
        index == palette_index_spec(key),
{
    if KEY_1 <= key && key <= KEY_EQUAL {
        Some((key - KEY_1) as usize)
    } else {
        None
    }
}

pub fn is_repeatable_key(key: u32) -> (repeatable: bool)
    ensures
        repeatable == is_repeatable_key_spec(key),
{
    key == KEY_EQUAL || key == KEY_KPPLUS || key == KEY_MINUS || key == KEY_KPMINUS
        || key == KEY_LEFT || key == KEY_RIGHT || key == KEY_UP || key == KEY_DOWN
        || key == KEY_LEFTBRACE || key == KEY_RIGHTBRACE
}

/// The character typed by a key when no keymap is installed (US layout, upper case).
pub open spec fn text_input_char_spec(key: u32) -> Option<char> {
    if key == KEY_A { Some('A') }
    else if key == KEY_B { Some('B') }
    else if key == KEY_C { Some('C') }
    else if key == KEY_D { Some('D') }
    else if key == KEY_E { Some('E') }
    else if key == KEY_F { Some('F') }
    else if key == KEY_G { Some('G') }
    else if key == KEY_H { Some('H') }
    else if key == KEY_I { Some('I') }
    else if key == KEY_J { Some('J') }
    else if key == KEY_K { Some('K') }
    else if key == KEY_L { Some('L') }
    else if key == KEY_M { Some('M') }
    else if key == KEY_N { Some('N') }
    else if key == KEY_O { Some('O') }
    else if key == KEY_P { Some('P') }
    else if key == KEY_Q { Some('Q') }
    else if key == KEY_R { Some('R') }
    else if key == KEY_S { Some('S') }
    else if key == KEY_T { Some('T') }
    else if key == KEY_U { Some('U') }
    else if key == KEY_V { Some('V') }
    else if key == KEY_W { Some('W') }
    else if key == KEY_X { Some('X') }
    else if key == KEY_Y { Some('Y') }
    else if key == KEY_Z { Some('Z') }
    else if key == KEY_0 { Some('0') }
    else if KEY_1 <= key <= KEY_9 { Some(('1' as u32 + (key - KEY_1)) as char) }
    else if key == KEY_SPACE { Some(' ') }
    else if key == KEY_MINUS { Some('-') }
    else if key == KEY_DOT { Some('.') }
    else if key == KEY_SLASH { Some('/') }
    else { None }
}

pub fn text_input_char(key: u32) -> (ch: Option<char>)
    ensures
        ch == text_input_char_spec(key),
{
    match key {
        KEY_A => Some('A'),
        KEY_B => Some('B'),
        KEY_C => Some('C'),
        KEY_D => Some('D'),
        KEY_E => Some('E'),
        KEY_F => Some('F'),
        KEY_G => Some('G'),
        KEY_H => Some('H'),
        KEY_I => Some('I'),
        KEY_J => Some('J'),
        KEY_K => Some('K'),
        KEY_L => Some('L'),
        KEY_M => Some('M'),
        KEY_N => Some('N'),
        KEY_O => Some('O'),
        KEY_P => Some('P'),
        KEY_Q => Some('Q'),
        KEY_R => Some('R'),
        KEY_S => Some('S'),
        KEY_T => Some('T'),
        KEY_U => Some('U'),
        KEY_V => Some('V'),
        KEY_W => Some('W'),
        KEY_X => Some('X'),
        KEY_Y => Some('Y'),
        KEY_Z => Some('Z'),
        KEY_0 => Some('0'),
        KEY_1 => Some('1'),
        KEY_2 => Some('2'),
        KEY_3 => Some('3'),
        KEY_4 => Some('4'),
        KEY_5 => Some('5'),
        KEY_6 => Some('6'),
        KEY_7 => Some('7'),
        KEY_8 => Some('8'),
        KEY_9 => Some('9'),
        KEY_SPACE => Some(' '),
        KEY_MINUS => Some('-'),
        KEY_DOT => Some('.'),
        KEY_SLASH => Some('/'),
        _ => None,
    }
}

} // verus!
