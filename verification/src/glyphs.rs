use vstd::prelude::*;

verus! {

/// Rows of the 5-by-7 bitmap font, top row first; bit 4 is the leftmost column.
pub open spec fn glyph_rows(ch: char) -> Option<Seq<u8>> {
    match ch {
        'A' => Some(seq![0x0Eu8, 0x11u8, 0x11u8, 0x1Fu8, 0x11u8, 0x11u8, 0x11u8]),
        'B' => Some(seq![0x1Eu8, 0x11u8, 0x11u8, 0x1Eu8, 0x11u8, 0x11u8, 0x1Eu8]),
        'C' => Some(seq![0x0Eu8, 0x11u8, 0x10u8, 0x10u8, 0x10u8, 0x11u8, 0x0Eu8]),
        'D' => Some(seq![0x1Eu8, 0x11u8, 0x11u8, 0x11u8, 0x11u8, 0x11u8, 0x1Eu8]),
        'E' => Some(seq![0x1Fu8, 0x10u8, 0x10u8, 0x1Eu8, 0x10u8, 0x10u8, 0x1Fu8]),
        'F' => Some(seq![0x1Fu8, 0x10u8, 0x10u8, 0x1Eu8, 0x10u8, 0x10u8, 0x10u8]),
        'G' => Some(seq![0x0Eu8, 0x11u8, 0x10u8, 0x17u8, 0x11u8, 0x11u8, 0x0Fu8]),
        'H' => Some(seq![0x11u8, 0x11u8, 0x11u8, 0x1Fu8, 0x11u8, 0x11u8, 0x11u8]),
        'I' => Some(seq![0x1Fu8, 0x04u8, 0x04u8, 0x04u8, 0x04u8, 0x04u8, 0x1Fu8]),
        'J' => Some(seq![0x01u8, 0x01u8, 0x01u8, 0x01u8, 0x11u8, 0x11u8, 0x0Eu8]),
        'K' => Some(seq![0x11u8, 0x12u8, 0x14u8, 0x18u8, 0x14u8, 0x12u8, 0x11u8]),
        'L' => Some(seq![0x10u8, 0x10u8, 0x10u8, 0x10u8, 0x10u8, 0x10u8, 0x1Fu8]),
        'M' => Some(seq![0x11u8, 0x1Bu8, 0x15u8, 0x15u8, 0x11u8, 0x11u8, 0x11u8]),
        'N' => Some(seq![0x11u8, 0x19u8, 0x15u8, 0x13u8, 0x11u8, 0x11u8, 0x11u8]),
        'O' => Some(seq![0x0Eu8, 0x11u8, 0x11u8, 0x11u8, 0x11u8, 0x11u8, 0x0Eu8]),
        'P' => Some(seq![0x1Eu8, 0x11u8, 0x11u8, 0x1Eu8, 0x10u8, 0x10u8, 0x10u8]),
        'Q' => Some(seq![0x0Eu8, 0x11u8, 0x11u8, 0x11u8, 0x15u8, 0x12u8, 0x0Du8]),
        'R' => Some(seq![0x1Eu8, 0x11u8, 0x11u8, 0x1Eu8, 0x14u8, 0x12u8, 0x11u8]),
        'S' => Some(seq![0x0Fu8, 0x10u8, 0x10u8, 0x0Eu8, 0x01u8, 0x01u8, 0x1Eu8]),
        'T' => Some(seq![0x1Fu8, 0x04u8, 0x04u8, 0x04u8, 0x04u8, 0x04u8, 0x04u8]),
        'U' => Some(seq![0x11u8, 0x11u8, 0x11u8, 0x11u8, 0x11u8, 0x11u8, 0x0Eu8]),
        'V' => Some(seq![0x11u8, 0x11u8, 0x11u8, 0x11u8, 0x0Au8, 0x0Au8, 0x04u8]),
        'W' => Some(seq![0x11u8, 0x11u8, 0x11u8, 0x15u8, 0x15u8, 0x15u8, 0x0Au8]),
        'X' => Some(seq![0x11u8, 0x11u8, 0x0Au8, 0x04u8, 0x0Au8, 0x11u8, 0x11u8]),
        'Y' => Some(seq![0x11u8, 0x11u8, 0x0Au8, 0x04u8, 0x04u8, 0x04u8, 0x04u8]),
        'Z' => Some(seq![0x1Fu8, 0x01u8, 0x02u8, 0x04u8, 0x08u8, 0x10u8, 0x1Fu8]),
        'a' => Some(seq![0x00u8, 0x00u8, 0x0Eu8, 0x01u8, 0x0Fu8, 0x11u8, 0x0Fu8]),
        'b' => Some(seq![0x10u8, 0x10u8, 0x1Eu8, 0x11u8, 0x11u8, 0x11u8, 0x1Eu8]),
        'c' => Some(seq![0x00u8, 0x00u8, 0x0Eu8, 0x10u8, 0x10u8, 0x11u8, 0x0Eu8]),
        'd' => Some(seq![0x01u8, 0x01u8, 0x0Fu8, 0x11u8, 0x11u8, 0x11u8, 0x0Fu8]),
        'e' => Some(seq![0x00u8, 0x00u8, 0x0Eu8, 0x11u8, 0x1Fu8, 0x10u8, 0x0Eu8]),
        'f' => Some(seq![0x06u8, 0x09u8, 0x08u8, 0x1Cu8, 0x08u8, 0x08u8, 0x08u8]),
        'g' => Some(seq![0x00u8, 0x0Fu8, 0x11u8, 0x11u8, 0x0Fu8, 0x01u8, 0x0Eu8]),
        'h' => Some(seq![0x10u8, 0x10u8, 0x1Eu8, 0x11u8, 0x11u8, 0x11u8, 0x11u8]),
        'i' => Some(seq![0x04u8, 0x00u8, 0x0Cu8, 0x04u8, 0x04u8, 0x04u8, 0x0Eu8]),
        'j' => Some(seq![0x02u8, 0x00u8, 0x06u8, 0x02u8, 0x02u8, 0x12u8, 0x0Cu8]),
        'k' => Some(seq![0x10u8, 0x10u8, 0x12u8, 0x14u8, 0x18u8, 0x14u8, 0x12u8]),
        'l' => Some(seq![0x0Cu8, 0x04u8, 0x04u8, 0x04u8, 0x04u8, 0x04u8, 0x0Eu8]),
        'm' => Some(seq![0x00u8, 0x00u8, 0x1Au8, 0x15u8, 0x15u8, 0x15u8, 0x15u8]),
        'n' => Some(seq![0x00u8, 0x00u8, 0x1Eu8, 0x11u8, 0x11u8, 0x11u8, 0x11u8]),
        'o' => Some(seq![0x00u8, 0x00u8, 0x0Eu8, 0x11u8, 0x11u8, 0x11u8, 0x0Eu8]),
        'p' => Some(seq![0x00u8, 0x00u8, 0x1Eu8, 0x11u8, 0x1Eu8, 0x10u8, 0x10u8]),
        'q' => Some(seq![0x00u8, 0x00u8, 0x0Fu8, 0x11u8, 0x0Fu8, 0x01u8, 0x01u8]),
        'r' => Some(seq![0x00u8, 0x00u8, 0x16u8, 0x19u8, 0x10u8, 0x10u8, 0x10u8]),
        's' => Some(seq![0x00u8, 0x00u8, 0x0Fu8, 0x10u8, 0x0Eu8, 0x01u8, 0x1Eu8]),
        't' => Some(seq![0x08u8, 0x08u8, 0x1Cu8, 0x08u8, 0x08u8, 0x09u8, 0x06u8]),
        'u' => Some(seq![0x00u8, 0x00u8, 0x11u8, 0x11u8, 0x11u8, 0x13u8, 0x0Du8]),
        'v' => Some(seq![0x00u8, 0x00u8, 0x11u8, 0x11u8, 0x11u8, 0x0Au8, 0x04u8]),
        'w' => Some(seq![0x00u8, 0x00u8, 0x11u8, 0x11u8, 0x15u8, 0x15u8, 0x0Au8]),
        'x' => Some(seq![0x00u8, 0x00u8, 0x11u8, 0x0Au8, 0x04u8, 0x0Au8, 0x11u8]),
        'y' => Some(seq![0x00u8, 0x00u8, 0x11u8, 0x11u8, 0x0Fu8, 0x01u8, 0x0Eu8]),
        'z' => Some(seq![0x00u8, 0x00u8, 0x1Fu8, 0x02u8, 0x04u8, 0x08u8, 0x1Fu8]),
        '0' => Some(seq![0x0Eu8, 0x11u8, 0x13u8, 0x15u8, 0x19u8, 0x11u8, 0x0Eu8]),
        '1' => Some(seq![0x04u8, 0x0Cu8, 0x04u8, 0x04u8, 0x04u8, 0x04u8, 0x0Eu8]),
        '2' => Some(seq![0x0Eu8, 0x11u8, 0x01u8, 0x02u8, 0x04u8, 0x08u8, 0x1Fu8]),
        '3' => Some(seq![0x1Fu8, 0x02u8, 0x04u8, 0x02u8, 0x01u8, 0x11u8, 0x0Eu8]),
        '4' => Some(seq![0x02u8, 0x06u8, 0x0Au8, 0x12u8, 0x1Fu8, 0x02u8, 0x02u8]),
        '5' => Some(seq![0x1Fu8, 0x10u8, 0x1Eu8, 0x01u8, 0x01u8, 0x11u8, 0x0Eu8]),
        '6' => Some(seq![0x06u8, 0x08u8, 0x10u8, 0x1Eu8, 0x11u8, 0x11u8, 0x0Eu8]),
        '7' => Some(seq![0x1Fu8, 0x01u8, 0x02u8, 0x04u8, 0x08u8, 0x08u8, 0x08u8]),
        '8' => Some(seq![0x0Eu8, 0x11u8, 0x11u8, 0x0Eu8, 0x11u8, 0x11u8, 0x0Eu8]),
        '9' => Some(seq![0x0Eu8, 0x11u8, 0x11u8, 0x0Fu8, 0x01u8, 0x02u8, 0x0Cu8]),
        '!' => Some(seq![0x04u8, 0x04u8, 0x04u8, 0x04u8, 0x04u8, 0x00u8, 0x04u8]),
        '"' => Some(seq![0x0Au8, 0x0Au8, 0x0Au8, 0x00u8, 0x00u8, 0x00u8, 0x00u8]),
        '#' => Some(seq![0x0Au8, 0x0Au8, 0x1Fu8, 0x0Au8, 0x1Fu8, 0x0Au8, 0x0Au8]),
        '\'' => Some(seq![0x04u8, 0x04u8, 0x08u8, 0x00u8, 0x00u8, 0x00u8, 0x00u8]),
        '(' => Some(seq![0x02u8, 0x04u8, 0x08u8, 0x08u8, 0x08u8, 0x04u8, 0x02u8]),
        ')' => Some(seq![0x08u8, 0x04u8, 0x02u8, 0x02u8, 0x02u8, 0x04u8, 0x08u8]),
        '+' => Some(seq![0x00u8, 0x04u8, 0x04u8, 0x1Fu8, 0x04u8, 0x04u8, 0x00u8]),
        ',' => Some(seq![0x00u8, 0x00u8, 0x00u8, 0x00u8, 0x00u8, 0x04u8, 0x08u8]),
        '-' => Some(seq![0x00u8, 0x00u8, 0x00u8, 0x1Fu8, 0x00u8, 0x00u8, 0x00u8]),
        '.' => Some(seq![0x00u8, 0x00u8, 0x00u8, 0x00u8, 0x00u8, 0x06u8, 0x06u8]),
        '/' => Some(seq![0x01u8, 0x02u8, 0x02u8, 0x04u8, 0x08u8, 0x08u8, 0x10u8]),
        ':' => Some(seq![0x00u8, 0x06u8, 0x06u8, 0x00u8, 0x06u8, 0x06u8, 0x00u8]),
        ';' => Some(seq![0x00u8, 0x06u8, 0x06u8, 0x00u8, 0x06u8, 0x04u8, 0x08u8]),
        '=' => Some(seq![0x00u8, 0x00u8, 0x1Fu8, 0x00u8, 0x1Fu8, 0x00u8, 0x00u8]),
        '?' => Some(seq![0x0Eu8, 0x11u8, 0x01u8, 0x02u8, 0x04u8, 0x00u8, 0x04u8]),
        '[' => Some(seq![0x0Eu8, 0x08u8, 0x08u8, 0x08u8, 0x08u8, 0x08u8, 0x0Eu8]),
        '\\' => Some(seq![0x10u8, 0x08u8, 0x08u8, 0x04u8, 0x02u8, 0x02u8, 0x01u8]),
        ']' => Some(seq![0x0Eu8, 0x02u8, 0x02u8, 0x02u8, 0x02u8, 0x02u8, 0x0Eu8]),
        '_' => Some(seq![0x00u8, 0x00u8, 0x00u8, 0x00u8, 0x00u8, 0x00u8, 0x1Fu8]),
        _ => None,
    }
}

/// The bitmap of `ch`, if the font has one.
pub fn lookup_glyph(ch: char) -> (glyph: Option<[u8; 7]>)
    ensures
        glyph_rows(ch) is None ==> glyph is None,
        glyph_rows(ch) matches Some(rows) ==> (glyph matches Some(g) && g@ == rows),
{
    match ch {
        'A' => Some([0x0E, 0x11, 0x11, 0x1F, 0x11, 0x11, 0x11]),
        'B' => Some([0x1E, 0x11, 0x11, 0x1E, 0x11, 0x11, 0x1E]),
        'C' => Some([0x0E, 0x11, 0x10, 0x10, 0x10, 0x11, 0x0E]),
        'D' => Some([0x1E, 0x11, 0x11, 0x11, 0x11, 0x11, 0x1E]),
        'E' => Some([0x1F, 0x10, 0x10, 0x1E, 0x10, 0x10, 0x1F]),
        'F' => Some([0x1F, 0x10, 0x10, 0x1E, 0x10, 0x10, 0x10]),
        'G' => Some([0x0E, 0x11, 0x10, 0x17, 0x11, 0x11, 0x0F]),
        'H' => Some([0x11, 0x11, 0x11, 0x1F, 0x11, 0x11, 0x11]),
        'I' => Some([0x1F, 0x04, 0x04, 0x04, 0x04, 0x04, 0x1F]),
        'J' => Some([0x01, 0x01, 0x01, 0x01, 0x11, 0x11, 0x0E]),
        'K' => Some([0x11, 0x12, 0x14, 0x18, 0x14, 0x12, 0x11]),
        'L' => Some([0x10, 0x10, 0x10, 0x10, 0x10, 0x10, 0x1F]),
        'M' => Some([0x11, 0x1B, 0x15, 0x15, 0x11, 0x11, 0x11]),
        'N' => Some([0x11, 0x19, 0x15, 0x13, 0x11, 0x11, 0x11]),
        'O' => Some([0x0E, 0x11, 0x11, 0x11, 0x11, 0x11, 0x0E]),
        'P' => Some([0x1E, 0x11, 0x11, 0x1E, 0x10, 0x10, 0x10]),
        'Q' => Some([0x0E, 0x11, 0x11, 0x11, 0x15, 0x12, 0x0D]),
        'R' => Some([0x1E, 0x11, 0x11, 0x1E, 0x14, 0x12, 0x11]),
        'S' => Some([0x0F, 0x10, 0x10, 0x0E, 0x01, 0x01, 0x1E]),
        'T' => Some([0x1F, 0x04, 0x04, 0x04, 0x04, 0x04, 0x04]),
        'U' => Some([0x11, 0x11, 0x11, 0x11, 0x11, 0x11, 0x0E]),
        'V' => Some([0x11, 0x11, 0x11, 0x11, 0x0A, 0x0A, 0x04]),
        'W' => Some([0x11, 0x11, 0x11, 0x15, 0x15, 0x15, 0x0A]),
        'X' => Some([0x11, 0x11, 0x0A, 0x04, 0x0A, 0x11, 0x11]),
        'Y' => Some([0x11, 0x11, 0x0A, 0x04, 0x04, 0x04, 0x04]),
        'Z' => Some([0x1F, 0x01, 0x02, 0x04, 0x08, 0x10, 0x1F]),
        'a' => Some([0x00, 0x00, 0x0E, 0x01, 0x0F, 0x11, 0x0F]),
        'b' => Some([0x10, 0x10, 0x1E, 0x11, 0x11, 0x11, 0x1E]),
        'c' => Some([0x00, 0x00, 0x0E, 0x10, 0x10, 0x11, 0x0E]),
        'd' => Some([0x01, 0x01, 0x0F, 0x11, 0x11, 0x11, 0x0F]),
        'e' => Some([0x00, 0x00, 0x0E, 0x11, 0x1F, 0x10, 0x0E]),
        'f' => Some([0x06, 0x09, 0x08, 0x1C, 0x08, 0x08, 0x08]),
        'g' => Some([0x00, 0x0F, 0x11, 0x11, 0x0F, 0x01, 0x0E]),
        'h' => Some([0x10, 0x10, 0x1E, 0x11, 0x11, 0x11, 0x11]),
        'i' => Some([0x04, 0x00, 0x0C, 0x04, 0x04, 0x04, 0x0E]),
        'j' => Some([0x02, 0x00, 0x06, 0x02, 0x02, 0x12, 0x0C]),
        'k' => Some([0x10, 0x10, 0x12, 0x14, 0x18, 0x14, 0x12]),
        'l' => Some([0x0C, 0x04, 0x04, 0x04, 0x04, 0x04, 0x0E]),
        'm' => Some([0x00, 0x00, 0x1A, 0x15, 0x15, 0x15, 0x15]),
        'n' => Some([0x00, 0x00, 0x1E, 0x11, 0x11, 0x11, 0x11]),
        'o' => Some([0x00, 0x00, 0x0E, 0x11, 0x11, 0x11, 0x0E]),
        'p' => Some([0x00, 0x00, 0x1E, 0x11, 0x1E, 0x10, 0x10]),
        'q' => Some([0x00, 0x00, 0x0F, 0x11, 0x0F, 0x01, 0x01]),
        'r' => Some([0x00, 0x00, 0x16, 0x19, 0x10, 0x10, 0x10]),
        's' => Some([0x00, 0x00, 0x0F, 0x10, 0x0E, 0x01, 0x1E]),
        't' => Some([0x08, 0x08, 0x1C, 0x08, 0x08, 0x09, 0x06]),
        'u' => Some([0x00, 0x00, 0x11, 0x11, 0x11, 0x13, 0x0D]),
        'v' => Some([0x00, 0x00, 0x11, 0x11, 0x11, 0x0A, 0x04]),
        'w' => Some([0x00, 0x00, 0x11, 0x11, 0x15, 0x15, 0x0A]),
        'x' => Some([0x00, 0x00, 0x11, 0x0A, 0x04, 0x0A, 0x11]),
        'y' => Some([0x00, 0x00, 0x11, 0x11, 0x0F, 0x01, 0x0E]),
        'z' => Some([0x00, 0x00, 0x1F, 0x02, 0x04, 0x08, 0x1F]),
        '0' => Some([0x0E, 0x11, 0x13, 0x15, 0x19, 0x11, 0x0E]),
        '1' => Some([0x04, 0x0C, 0x04, 0x04, 0x04, 0x04, 0x0E]),
        '2' => Some([0x0E, 0x11, 0x01, 0x02, 0x04, 0x08, 0x1F]),
        '3' => Some([0x1F, 0x02, 0x04, 0x02, 0x01, 0x11, 0x0E]),
        '4' => Some([0x02, 0x06, 0x0A, 0x12, 0x1F, 0x02, 0x02]),
        '5' => Some([0x1F, 0x10, 0x1E, 0x01, 0x01, 0x11, 0x0E]),
        '6' => Some([0x06, 0x08, 0x10, 0x1E, 0x11, 0x11, 0x0E]),
        '7' => Some([0x1F, 0x01, 0x02, 0x04, 0x08, 0x08, 0x08]),
        '8' => Some([0x0E, 0x11, 0x11, 0x0E, 0x11, 0x11, 0x0E]),
        '9' => Some([0x0E, 0x11, 0x11, 0x0F, 0x01, 0x02, 0x0C]),
        '!' => Some([0x04, 0x04, 0x04, 0x04, 0x04, 0x00, 0x04]),
        '"' => Some([0x0A, 0x0A, 0x0A, 0x00, 0x00, 0x00, 0x00]),
        '#' => Some([0x0A, 0x0A, 0x1F, 0x0A, 0x1F, 0x0A, 0x0A]),
        '\'' => Some([0x04, 0x04, 0x08, 0x00, 0x00, 0x00, 0x00]),
        '(' => Some([0x02, 0x04, 0x08, 0x08, 0x08, 0x04, 0x02]),
        ')' => Some([0x08, 0x04, 0x02, 0x02, 0x02, 0x04, 0x08]),
        '+' => Some([0x00, 0x04, 0x04, 0x1F, 0x04, 0x04, 0x00]),
        ',' => Some([0x00, 0x00, 0x00, 0x00, 0x00, 0x04, 0x08]),
        '-' => Some([0x00, 0x00, 0x00, 0x1F, 0x00, 0x00, 0x00]),
        '.' => Some([0x00, 0x00, 0x00, 0x00, 0x00, 0x06, 0x06]),
        '/' => Some([0x01, 0x02, 0x02, 0x04, 0x08, 0x08, 0x10]),
        ':' => Some([0x00, 0x06, 0x06, 0x00, 0x06, 0x06, 0x00]),
        ';' => Some([0x00, 0x06, 0x06, 0x00, 0x06, 0x04, 0x08]),
        '=' => Some([0x00, 0x00, 0x1F, 0x00, 0x1F, 0x00, 0x00]),
        '?' => Some([0x0E, 0x11, 0x01, 0x02, 0x04, 0x00, 0x04]),
        '[' => Some([0x0E, 0x08, 0x08, 0x08, 0x08, 0x08, 0x0E]),
        '\\' => Some([0x10, 0x08, 0x08, 0x04, 0x02, 0x02, 0x01]),
        ']' => Some([0x0E, 0x02, 0x02, 0x02, 0x02, 0x02, 0x0E]),
        '_' => Some([0x00, 0x00, 0x00, 0x00, 0x00, 0x00, 0x1F]),
        _ => None,
    }
}

} // verus!
