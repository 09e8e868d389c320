//! The two fonts of the status display. The large font draws a character in
//! five rows of five cells, the small one in five rows of three; a cell that
//! holds 1 is drawn in the colour of the text, any other in the colour
//! behind it. The cells of a character stand row after row, the top row
//! first.

use vstd::prelude::*;

verus! {

pub const BIG_A: [u8; 25] = [
    0, 1, 1, 1, 0,
    1, 0, 0, 0, 1,
    1, 1, 1, 1, 1,
    1, 0, 0, 0, 1,
    1, 0, 0, 0, 1,
];

pub const BIG_B: [u8; 25] = [
    1, 1, 1, 1, 0,
    1, 0, 0, 0, 1,
    1, 1, 1, 1, 0,
    1, 0, 0, 0, 1,
    1, 1, 1, 1, 0,
];

pub const BIG_C: [u8; 25] = [
    0, 1, 1, 1, 0,
    1, 0, 0, 0, 1,
    1, 0, 0, 0, 0,
    1, 0, 0, 0, 1,
    0, 1, 1, 1, 0,
];

pub const BIG_D: [u8; 25] = [
    1, 1, 1, 0, 0,
    1, 0, 0, 1, 0,
    1, 0, 0, 0, 1,
    1, 0, 0, 1, 0,
    1, 1, 1, 0, 0,
];

pub const BIG_E: [u8; 25] = [
    1, 1, 1, 1, 1,
    1, 0, 0, 0, 0,
    1, 1, 1, 0, 0,
    1, 0, 0, 0, 0,
    1, 1, 1, 1, 1,
];

pub const BIG_F: [u8; 25] = [
    1, 1, 1, 1, 1,
    1, 0, 0, 0, 0,
    1, 1, 1, 0, 0,
    1, 0, 0, 0, 0,
    1, 0, 0, 0, 0,
];

pub const BIG_G: [u8; 25] = [
    0, 1, 1, 1, 0,
    1, 0, 0, 0, 0,
    1, 0, 1, 1, 1,
    1, 0, 0, 0, 1,
    0, 1, 1, 1, 0,
];

pub const BIG_H: [u8; 25] = [
    1, 0, 0, 0, 1,
    1, 0, 0, 0, 1,
    1, 1, 1, 1, 1,
    1, 0, 0, 0, 1,
    1, 0, 0, 0, 1,
];

pub const BIG_I: [u8; 25] = [
    1, 1, 1, 1, 1,
    0, 0, 1, 0, 0,
    0, 0, 1, 0, 0,
    0, 0, 1, 0, 0,
    1, 1, 1, 1, 1,
];

pub const BIG_J: [u8; 25] = [
    0, 0, 0, 0, 1,
    0, 0, 0, 0, 1,
    0, 0, 0, 0, 1,
    1, 0, 0, 0, 1,
    0, 1, 1, 1, 0,
];

pub const BIG_K: [u8; 25] = [
    1, 0, 0, 0, 1,
    1, 0, 0, 1, 0,
    1, 1, 1, 0, 0,
    1, 0, 0, 1, 0,
    1, 0, 0, 0, 1,
];

pub const BIG_L: [u8; 25] = [
    1, 0, 0, 0, 0,
    1, 0, 0, 0, 0,
    1, 0, 0, 0, 0,
    1, 0, 0, 0, 0,
    1, 1, 1, 1, 1,
];

pub const BIG_M: [u8; 25] = [
    1, 0, 0, 0, 1,
    1, 1, 0, 1, 1,
    1, 0, 1, 0, 1,
    1, 0, 0, 0, 1,
    1, 0, 0, 0, 1,
];

pub const BIG_N: [u8; 25] = [
    1, 0, 0, 0, 1,
    1, 1, 0, 0, 1,
    1, 0, 1, 0, 1,
    1, 0, 0, 1, 1,
    1, 0, 0, 0, 1,
];

pub const BIG_O: [u8; 25] = [
    0, 1, 1, 1, 0,
    1, 0, 0, 0, 1,
    1, 0, 0, 0, 1,
    1, 0, 0, 0, 1,
    0, 1, 1, 1, 0,
];

pub const BIG_P: [u8; 25] = [
    1, 1, 1, 1, 0,
    1, 0, 0, 0, 1,
    1, 1, 1, 1, 0,
    1, 0, 0, 0, 0,
    1, 0, 0, 0, 0,
];

pub const BIG_Q: [u8; 25] = [
    0, 1, 1, 1, 0,
    1, 0, 0, 0, 1,
    1, 0, 1, 0, 1,
    1, 0, 0, 1, 0,
    0, 1, 1, 0, 1,
];

pub const BIG_R: [u8; 25] = [
    1, 1, 1, 1, 0,
    1, 0, 0, 0, 1,
    1, 1, 1, 1, 0,
    1, 0, 0, 1, 0,
    1, 0, 0, 0, 1,
];

pub const BIG_S: [u8; 25] = [
    0, 1, 1, 1, 1,
    1, 0, 0, 0, 0,
    0, 1, 1, 1, 0,
    0, 0, 0, 0, 1,
    1, 1, 1, 1, 0,
];

pub const BIG_T: [u8; 25] = [
    1, 1, 1, 1, 1,
    0, 0, 1, 0, 0,
    0, 0, 1, 0, 0,
    0, 0, 1, 0, 0,
    0, 0, 1, 0, 0,
];

pub const BIG_U: [u8; 25] = [
    1, 0, 0, 0, 1,
    1, 0, 0, 0, 1,
    1, 0, 0, 0, 1,
    1, 0, 0, 0, 1,
    0, 1, 1, 1, 0,
];

pub const BIG_V: [u8; 25] = [
    1, 0, 0, 0, 1,
    1, 0, 0, 0, 1,
    1, 0, 0, 0, 1,
    0, 1, 0, 1, 0,
    0, 0, 1, 0, 0,
];

pub const BIG_W: [u8; 25] = [
    1, 0, 0, 0, 1,
    1, 0, 0, 0, 1,
    1, 0, 1, 0, 1,
    1, 1, 0, 1, 1,
    1, 0, 0, 0, 1,
];

pub const BIG_X: [u8; 25] = [
    1, 0, 0, 0, 1,
    0, 1, 0, 1, 0,
    0, 0, 1, 0, 0,
    0, 1, 0, 1, 0,
    1, 0, 0, 0, 1,
];

pub const BIG_Y: [u8; 25] = [
    1, 0, 0, 0, 1,
    0, 1, 0, 1, 0,
    0, 0, 1, 0, 0,
    0, 0, 1, 0, 0,
    0, 0, 1, 0, 0,
];

pub const BIG_Z: [u8; 25] = [
    1, 1, 1, 1, 1,
    0, 0, 0, 1, 0,
    0, 0, 1, 0, 0,
    0, 1, 0, 0, 0,
    1, 1, 1, 1, 1,
];

pub const BIG_DIGIT_0: [u8; 25] = [
    0, 1, 1, 1, 0,
    1, 0, 0, 1, 1,
    1, 0, 1, 0, 1,
    1, 1, 0, 0, 1,
    0, 1, 1, 1, 0,
];

pub const BIG_DIGIT_1: [u8; 25] = [
    0, 0, 1, 0, 0,
    0, 1, 1, 0, 0,
    0, 0, 1, 0, 0,
    0, 0, 1, 0, 0,
    0, 1, 1, 1, 0,
];

pub const BIG_DIGIT_2: [u8; 25] = [
    0, 1, 1, 1, 0,
    1, 0, 0, 0, 1,
    0, 0, 1, 1, 0,
    0, 1, 0, 0, 0,
    1, 1, 1, 1, 1,
];

pub const BIG_DIGIT_3: [u8; 25] = [
    0, 1, 1, 1, 0,
    1, 0, 0, 0, 1,
    0, 0, 1, 1, 0,
    1, 0, 0, 0, 1,
    0, 1, 1, 1, 0,
];

pub const BIG_DIGIT_4: [u8; 25] = [
    0, 0, 1, 1, 0,
    0, 1, 0, 1, 0,
    1, 0, 0, 1, 0,
    1, 1, 1, 1, 1,
    0, 0, 0, 1, 0,
];

pub const BIG_DIGIT_5: [u8; 25] = [
    1, 1, 1, 1, 1,
    1, 0, 0, 0, 0,
    1, 1, 1, 1, 0,
    0, 0, 0, 0, 1,
    1, 1, 1, 1, 0,
];

pub const BIG_DIGIT_6: [u8; 25] = [
    0, 1, 1, 1, 0,
    1, 0, 0, 0, 0,
    1, 1, 1, 1, 0,
    1, 0, 0, 0, 1,
    0, 1, 1, 1, 0,
];

pub const BIG_DIGIT_7: [u8; 25] = [
    1, 1, 1, 1, 1,
    0, 0, 0, 0, 1,
    0, 0, 0, 1, 0,
    0, 0, 1, 0, 0,
    0, 1, 0, 0, 0,
];

pub const BIG_DIGIT_8: [u8; 25] = [
    0, 1, 1, 1, 0,
    1, 0, 0, 0, 1,
    0, 1, 1, 1, 0,
    1, 0, 0, 0, 1,
    0, 1, 1, 1, 0,
];

pub const BIG_DIGIT_9: [u8; 25] = [
    0, 1, 1, 1, 0,
    1, 0, 0, 0, 1,
    0, 1, 1, 1, 1,
    0, 0, 0, 0, 1,
    0, 1, 1, 1, 0,
];

pub const BIG_SPACE: [u8; 25] = [
    0, 0, 0, 0, 0,
    0, 0, 0, 0, 0,
    0, 0, 0, 0, 0,
    0, 0, 0, 0, 0,
    0, 0, 0, 0, 0,
];

pub const BIG_PERIOD: [u8; 25] = [
    0, 0, 0, 0, 0,
    0, 0, 0, 0, 0,
    0, 0, 0, 0, 0,
    0, 0, 0, 0, 0,
    0, 1, 0, 0, 0,
];

pub const BIG_COLON: [u8; 25] = [
    0, 0, 0, 0, 0,
    0, 0, 1, 0, 0,
    0, 0, 0, 0, 0,
    0, 0, 1, 0, 0,
    0, 0, 0, 0, 0,
];

pub const BIG_LEFT_BRACKET: [u8; 25] = [
    0, 1, 1, 0, 0,
    0, 1, 0, 0, 0,
    0, 1, 0, 0, 0,
    0, 1, 0, 0, 0,
    0, 1, 1, 0, 0,
];

pub const BIG_RIGHT_BRACKET: [u8; 25] = [
    0, 0, 1, 1, 0,
    0, 0, 0, 1, 0,
    0, 0, 0, 1, 0,
    0, 0, 0, 1, 0,
    0, 0, 1, 1, 0,
];

pub const BIG_LEFT_PAREN: [u8; 25] = [
    0, 0, 1, 0, 0,
    0, 1, 0, 0, 0,
    0, 1, 0, 0, 0,
    0, 1, 0, 0, 0,
    0, 0, 1, 0, 0,
];

pub const BIG_RIGHT_PAREN: [u8; 25] = [
    0, 0, 1, 0, 0,
    0, 0, 0, 1, 0,
    0, 0, 0, 1, 0,
    0, 0, 0, 1, 0,
    0, 0, 1, 0, 0,
];

pub const BIG_MINUS: [u8; 25] = [
    0, 0, 0, 0, 0,
    0, 0, 0, 0, 0,
    1, 1, 1, 1, 1,
    0, 0, 0, 0, 0,
    0, 0, 0, 0, 0,
];

pub const BIG_UNDERSCORE: [u8; 25] = [
    0, 0, 0, 0, 0,
    0, 0, 0, 0, 0,
    0, 0, 0, 0, 0,
    0, 0, 0, 0, 0,
    1, 1, 1, 1, 1,
];

pub const BIG_PLUS: [u8; 25] = [
    0, 0, 0, 0, 0,
    0, 0, 1, 0, 0,
    0, 1, 1, 1, 0,
    0, 0, 1, 0, 0,
    0, 0, 0, 0, 0,
];

pub const BIG_BANG: [u8; 25] = [
    0, 0, 1, 0, 0,
    0, 0, 1, 0, 0,
    0, 0, 1, 0, 0,
    0, 0, 0, 0, 0,
    0, 0, 1, 0, 0,
];

pub const BIG_LESS: [u8; 25] = [
    0, 0, 0, 1, 0,
    0, 0, 1, 0, 0,
    0, 1, 0, 0, 0,
    0, 0, 1, 0, 0,
    0, 0, 0, 1, 0,
];

pub const BIG_GREATER: [u8; 25] = [
    0, 1, 0, 0, 0,
    0, 0, 1, 0, 0,
    0, 0, 0, 1, 0,
    0, 0, 1, 0, 0,
    0, 1, 0, 0, 0,
];

pub const BIG_SLASH: [u8; 25] = [
    0, 0, 0, 0, 1,
    0, 0, 0, 1, 0,
    0, 0, 1, 0, 0,
    0, 1, 0, 0, 0,
    1, 0, 0, 0, 0,
];

pub const BIG_BACKSLASH: [u8; 25] = [
    1, 0, 0, 0, 0,
    0, 1, 0, 0, 0,
    0, 0, 1, 0, 0,
    0, 0, 0, 1, 0,
    0, 0, 0, 0, 1,
];

pub const BIG_APOSTROPHE: [u8; 25] = [
    0, 0, 1, 0, 0,
    0, 0, 1, 0, 0,
    0, 0, 0, 0, 0,
    0, 0, 0, 0, 0,
    0, 0, 0, 0, 0,
];

pub const BIG_COMMA: [u8; 25] = [
    0, 0, 0, 0, 0,
    0, 0, 0, 0, 0,
    0, 0, 0, 0, 0,
    0, 0, 1, 0, 0,
    0, 1, 0, 0, 0,
];

pub const SMALL_K: [u8; 15] = [
    1, 0, 1,
    1, 0, 1,
    1, 1, 0,
    1, 0, 1,
    1, 0, 1,
];

pub const SMALL_B: [u8; 15] = [
    1, 1, 0,
    1, 0, 1,
    1, 1, 0,
    1, 0, 1,
    1, 1, 0,
];

pub const SMALL_S: [u8; 15] = [
    1, 1, 1,
    1, 0, 0,
    1, 1, 1,
    0, 0, 1,
    1, 1, 1,
];

pub const SMALL_I: [u8; 15] = [
    1, 1, 1,
    0, 1, 0,
    0, 1, 0,
    0, 1, 0,
    1, 1, 1,
];

pub const SMALL_Z: [u8; 15] = [
    1, 1, 1,
    0, 0, 1,
    0, 1, 0,
    1, 0, 0,
    1, 1, 1,
];

pub const SMALL_E: [u8; 15] = [
    1, 1, 1,
    1, 0, 0,
    1, 1, 0,
    1, 0, 0,
    1, 1, 1,
];

pub const SMALL_A: [u8; 15] = [
    1, 1, 1,
    1, 0, 1,
    1, 1, 1,
    1, 0, 1,
    1, 0, 1,
];

pub const SMALL_N: [u8; 15] = [
    1, 0, 1,
    1, 1, 1,
    1, 1, 1,
    1, 0, 1,
    1, 0, 1,
];

pub const SMALL_L: [u8; 15] = [
    1, 0, 0,
    1, 0, 0,
    1, 0, 0,
    1, 0, 0,
    1, 1, 1,
];

pub const SMALL_Y: [u8; 15] = [
    1, 0, 1,
    1, 0, 1,
    0, 1, 0,
    0, 1, 0,
    0, 1, 0,
];

pub const SMALL_W: [u8; 15] = [
    1, 0, 1,
    1, 0, 1,
    1, 1, 1,
    1, 1, 1,
    1, 0, 1,
];

pub const SMALL_R: [u8; 15] = [
    1, 1, 0,
    1, 0, 1,
    1, 1, 0,
    1, 0, 1,
    1, 0, 1,
];

pub const SMALL_G: [u8; 15] = [
    1, 1, 1,
    1, 0, 0,
    1, 0, 1,
    1, 0, 1,
    1, 1, 1,
];

pub const SMALL_H: [u8; 15] = [
    1, 0, 1,
    1, 0, 1,
    1, 1, 1,
    1, 0, 1,
    1, 0, 1,
];

pub const SMALL_U: [u8; 15] = [
    1, 0, 1,
    1, 0, 1,
    1, 0, 1,
    1, 0, 1,
    1, 1, 1,
];

pub const SMALL_T: [u8; 15] = [
    1, 1, 1,
    0, 1, 0,
    0, 1, 0,
    0, 1, 0,
    0, 1, 0,
];

pub const SMALL_V: [u8; 15] = [
    1, 0, 1,
    1, 0, 1,
    1, 0, 1,
    1, 0, 1,
    0, 1, 0,
];

pub const SMALL_O: [u8; 15] = [
    1, 1, 1,
    1, 0, 1,
    1, 0, 1,
    1, 0, 1,
    1, 1, 1,
];

pub const SMALL_P: [u8; 15] = [
    1, 1, 1,
    1, 0, 1,
    1, 1, 1,
    1, 0, 0,
    1, 0, 0,
];

pub const SMALL_D: [u8; 15] = [
    1, 1, 0,
    1, 0, 1,
    1, 0, 1,
    1, 0, 1,
    1, 1, 0,
];

pub const SMALL_COLON: [u8; 15] = [
    0, 1, 0,
    0, 1, 0,
    0, 0, 0,
    0, 1, 0,
    0, 1, 0,
];

pub const SMALL_PERIOD: [u8; 15] = [
    0, 0, 0,
    0, 0, 0,
    0, 0, 0,
    0, 0, 0,
    0, 1, 0,
];

pub const SMALL_MINUS: [u8; 15] = [
    0, 0, 0,
    0, 0, 0,
    1, 1, 1,
    0, 0, 0,
    0, 0, 0,
];

pub const SMALL_DIGIT_0: [u8; 15] = [
    1, 1, 1,
    1, 0, 1,
    1, 0, 1,
    1, 0, 1,
    1, 1, 1,
];

pub const SMALL_DIGIT_1: [u8; 15] = [
    0, 1, 0,
    1, 1, 0,
    0, 1, 0,
    0, 1, 0,
    1, 1, 1,
];

pub const SMALL_DIGIT_2: [u8; 15] = [
    1, 1, 1,
    0, 0, 1,
    1, 1, 1,
    1, 0, 0,
    1, 1, 1,
];

pub const SMALL_DIGIT_3: [u8; 15] = [
    1, 1, 1,
    0, 0, 1,
    0, 1, 1,
    0, 0, 1,
    1, 1, 1,
];

pub const SMALL_DIGIT_4: [u8; 15] = [
    1, 0, 1,
    1, 0, 1,
    1, 1, 1,
    0, 0, 1,
    0, 0, 1,
];

pub const SMALL_DIGIT_5: [u8; 15] = [
    1, 1, 1,
    1, 0, 0,
    1, 1, 1,
    0, 0, 1,
    1, 1, 1,
];

pub const SMALL_DIGIT_6: [u8; 15] = [
    1, 1, 1,
    1, 0, 0,
    1, 1, 1,
    1, 0, 1,
    1, 1, 1,
];

pub const SMALL_DIGIT_7: [u8; 15] = [
    1, 1, 1,
    0, 0, 1,
    0, 1, 0,
    1, 0, 0,
    1, 0, 0,
];

pub const SMALL_DIGIT_8: [u8; 15] = [
    1, 1, 1,
    1, 0, 1,
    1, 1, 1,
    1, 0, 1,
    1, 1, 1,
];

pub const SMALL_DIGIT_9: [u8; 15] = [
    1, 1, 1,
    1, 0, 1,
    1, 1, 1,
    0, 0, 1,
    1, 1, 1,
];

pub const SMALL_SPACE: [u8; 15] = [
    0, 0, 0,
    0, 0, 0,
    0, 0, 0,
    0, 0, 0,
    0, 0, 0,
];

/// The cells of a character that the large font has.
pub open spec fn glyph(c: char) -> Option<Seq<u8>> {
    match c {
        'A' => Some(BIG_A@),
        'B' => Some(BIG_B@),
        'C' => Some(BIG_C@),
        'D' => Some(BIG_D@),
        'E' => Some(BIG_E@),
        'F' => Some(BIG_F@),
        'G' => Some(BIG_G@),
        'H' => Some(BIG_H@),
        'I' => Some(BIG_I@),
        'J' => Some(BIG_J@),
        'K' => Some(BIG_K@),
        'L' => Some(BIG_L@),
        'M' => Some(BIG_M@),
        'N' => Some(BIG_N@),
        'O' => Some(BIG_O@),
        'P' => Some(BIG_P@),
        'Q' => Some(BIG_Q@),
        'R' => Some(BIG_R@),
        'S' => Some(BIG_S@),
        'T' => Some(BIG_T@),
        'U' => Some(BIG_U@),
        'V' => Some(BIG_V@),
        'W' => Some(BIG_W@),
        'X' => Some(BIG_X@),
        'Y' => Some(BIG_Y@),
        'Z' => Some(BIG_Z@),
        '0' => Some(BIG_DIGIT_0@),
        '1' => Some(BIG_DIGIT_1@),
        '2' => Some(BIG_DIGIT_2@),
        '3' => Some(BIG_DIGIT_3@),
        '4' => Some(BIG_DIGIT_4@),
        '5' => Some(BIG_DIGIT_5@),
        '6' => Some(BIG_DIGIT_6@),
        '7' => Some(BIG_DIGIT_7@),
        '8' => Some(BIG_DIGIT_8@),
        '9' => Some(BIG_DIGIT_9@),
        ' ' => Some(BIG_SPACE@),
        '.' => Some(BIG_PERIOD@),
        ':' => Some(BIG_COLON@),
        '[' => Some(BIG_LEFT_BRACKET@),
        ']' => Some(BIG_RIGHT_BRACKET@),
        '(' => Some(BIG_LEFT_PAREN@),
        ')' => Some(BIG_RIGHT_PAREN@),
        '-' => Some(BIG_MINUS@),
        '_' => Some(BIG_UNDERSCORE@),
        '+' => Some(BIG_PLUS@),
        '!' => Some(BIG_BANG@),
        '<' => Some(BIG_LESS@),
        '>' => Some(BIG_GREATER@),
        '/' => Some(BIG_SLASH@),
        '\\' => Some(BIG_BACKSLASH@),
        '\'' => Some(BIG_APOSTROPHE@),
        ',' => Some(BIG_COMMA@),
        _ => None,
    }
}

/// The cells of a character in the large font, where it has the character:
/// the capital letters, the digits, the space and sixteen signs.
pub fn get_character_pattern(c: char) -> (pattern: Option<&'static [u8]>)
    ensures
        match pattern {
            Some(cells) => glyph(c) == Some(cells@) && cells@.len() == 25,
            None => glyph(c) is None,
        },
{
    match c {
        'A' => Some(&BIG_A),
        'B' => Some(&BIG_B),
        'C' => Some(&BIG_C),
        'D' => Some(&BIG_D),
        'E' => Some(&BIG_E),
        'F' => Some(&BIG_F),
        'G' => Some(&BIG_G),
        'H' => Some(&BIG_H),
        'I' => Some(&BIG_I),
        'J' => Some(&BIG_J),
        'K' => Some(&BIG_K),
        'L' => Some(&BIG_L),
        'M' => Some(&BIG_M),
        'N' => Some(&BIG_N),
        'O' => Some(&BIG_O),
        'P' => Some(&BIG_P),
        'Q' => Some(&BIG_Q),
        'R' => Some(&BIG_R),
        'S' => Some(&BIG_S),
        'T' => Some(&BIG_T),
        'U' => Some(&BIG_U),
        'V' => Some(&BIG_V),
        'W' => Some(&BIG_W),
        'X' => Some(&BIG_X),
        'Y' => Some(&BIG_Y),
        'Z' => Some(&BIG_Z),
        '0' => Some(&BIG_DIGIT_0),
        '1' => Some(&BIG_DIGIT_1),
        '2' => Some(&BIG_DIGIT_2),
        '3' => Some(&BIG_DIGIT_3),
        '4' => Some(&BIG_DIGIT_4),
        '5' => Some(&BIG_DIGIT_5),
        '6' => Some(&BIG_DIGIT_6),
        '7' => Some(&BIG_DIGIT_7),
        '8' => Some(&BIG_DIGIT_8),
        '9' => Some(&BIG_DIGIT_9),
        ' ' => Some(&BIG_SPACE),
        '.' => Some(&BIG_PERIOD),
        ':' => Some(&BIG_COLON),
        '[' => Some(&BIG_LEFT_BRACKET),
        ']' => Some(&BIG_RIGHT_BRACKET),
        '(' => Some(&BIG_LEFT_PAREN),
        ')' => Some(&BIG_RIGHT_PAREN),
        '-' => Some(&BIG_MINUS),
        '_' => Some(&BIG_UNDERSCORE),
        '+' => Some(&BIG_PLUS),
        '!' => Some(&BIG_BANG),
        '<' => Some(&BIG_LESS),
        '>' => Some(&BIG_GREATER),
        '/' => Some(&BIG_SLASH),
        '\\' => Some(&BIG_BACKSLASH),
        '\'' => Some(&BIG_APOSTROPHE),
        ',' => Some(&BIG_COMMA),
        _ => None,
    }
}

/// The cells of a character in the small font as labels use it. A character
/// that the font lacks is drawn as a space.
pub open spec fn label_cells(c: char) -> Seq<u8> {
    match c {
        'K' => SMALL_K@,
        'B' => SMALL_B@,
        'S' => SMALL_S@,
        'I' => SMALL_I@,
        'Z' => SMALL_Z@,
        'E' => SMALL_E@,
        'A' => SMALL_A@,
        'N' => SMALL_N@,
        'L' => SMALL_L@,
        'Y' => SMALL_Y@,
        'W' => SMALL_W@,
        'R' => SMALL_R@,
        'G' => SMALL_G@,
        'H' => SMALL_H@,
        'U' => SMALL_U@,
        'T' => SMALL_T@,
        'V' => SMALL_V@,
        'O' => SMALL_O@,
        'P' => SMALL_P@,
        'D' => SMALL_D@,
        ':' => SMALL_COLON@,
        '.' => SMALL_PERIOD@,
        '-' => SMALL_MINUS@,
        '0' => SMALL_DIGIT_0@,
        '1' => SMALL_DIGIT_1@,
        '2' => SMALL_DIGIT_2@,
        '3' => SMALL_DIGIT_3@,
        '4' => SMALL_DIGIT_4@,
        '5' => SMALL_DIGIT_5@,
        '6' => SMALL_DIGIT_6@,
        '7' => SMALL_DIGIT_7@,
        '8' => SMALL_DIGIT_8@,
        '9' => SMALL_DIGIT_9@,
        ' ' => SMALL_SPACE@,
        _ => SMALL_SPACE@,
    }
}

/// The cells of a character in the small font as labels use it.
pub fn label_pattern(c: char) -> (pattern: &'static [u8])
    ensures
        pattern@ == label_cells(c),
        pattern@.len() == 15,
{
    match c {
        'K' => &SMALL_K,
        'B' => &SMALL_B,
        'S' => &SMALL_S,
        'I' => &SMALL_I,
        'Z' => &SMALL_Z,
        'E' => &SMALL_E,
        'A' => &SMALL_A,
        'N' => &SMALL_N,
        'L' => &SMALL_L,
        'Y' => &SMALL_Y,
        'W' => &SMALL_W,
        'R' => &SMALL_R,
        'G' => &SMALL_G,
        'H' => &SMALL_H,
        'U' => &SMALL_U,
        'T' => &SMALL_T,
        'V' => &SMALL_V,
        'O' => &SMALL_O,
        'P' => &SMALL_P,
        'D' => &SMALL_D,
        ':' => &SMALL_COLON,
        '.' => &SMALL_PERIOD,
        '-' => &SMALL_MINUS,
        '0' => &SMALL_DIGIT_0,
        '1' => &SMALL_DIGIT_1,
        '2' => &SMALL_DIGIT_2,
        '3' => &SMALL_DIGIT_3,
        '4' => &SMALL_DIGIT_4,
        '5' => &SMALL_DIGIT_5,
        '6' => &SMALL_DIGIT_6,
        '7' => &SMALL_DIGIT_7,
        '8' => &SMALL_DIGIT_8,
        '9' => &SMALL_DIGIT_9,
        ' ' => &SMALL_SPACE,
        _ => &SMALL_SPACE,
    }
}

/// Whether headers draw the character: they draw the letters of their one
/// title, the digit 1, the period and the space.
pub open spec fn in_header_font(c: char) -> bool {
    ||| c == 'K'
    ||| c == 'R'
    ||| c == 'A'
    ||| c == 'Y'
    ||| c == 'H'
    ||| c == 'U'
    ||| c == 'N'
    ||| c == 'T'
    ||| c == 'E'
    ||| c == 'V'
    ||| c == '1'
    ||| c == '.'
    ||| c == ' '
}

/// The cells of a character in the small font as headers use it: the cells
/// that a label has for it where headers draw the character, and a space
/// where they do not.
pub open spec fn header_cells(c: char) -> Seq<u8> {
    if in_header_font(c) {
        label_cells(c)
    } else {
        SMALL_SPACE@
    }
}

/// The cells of a character in the small font as headers use it.
pub fn header_pattern(c: char) -> (pattern: &'static [u8])
    ensures
        pattern@ == header_cells(c),
        pattern@.len() == 15,
{
    match c {
        'K' => &SMALL_K,
        'R' => &SMALL_R,
        'A' => &SMALL_A,
        'Y' => &SMALL_Y,
        'H' => &SMALL_H,
        'U' => &SMALL_U,
        'N' => &SMALL_N,
        'T' => &SMALL_T,
        'E' => &SMALL_E,
        'V' => &SMALL_V,
        '1' => &SMALL_DIGIT_1,
        '.' => &SMALL_PERIOD,
        ' ' => &SMALL_SPACE,
        _ => &SMALL_SPACE,
    }
}

/// The cells of a decimal digit in the small font.
pub open spec fn digit_cells(digit: int) -> Seq<u8> {
    if digit == 0 {
        SMALL_DIGIT_0@
    } else if digit == 1 {
        SMALL_DIGIT_1@
    } else if digit == 2 {
        SMALL_DIGIT_2@
    } else if digit == 3 {
        SMALL_DIGIT_3@
    } else if digit == 4 {
        SMALL_DIGIT_4@
    } else if digit == 5 {
        SMALL_DIGIT_5@
    } else if digit == 6 {
        SMALL_DIGIT_6@
    } else if digit == 7 {
        SMALL_DIGIT_7@
    } else if digit == 8 {
        SMALL_DIGIT_8@
    } else {
        SMALL_DIGIT_9@
    }
}

/// The cells of a decimal digit in the small font.
pub fn digit_pattern(digit: u8) -> (pattern: &'static [u8])
    requires
        digit <= 9,
    ensures
        pattern@ == digit_cells(digit as int),
        pattern@.len() == 15,
{
    match digit {
        0 => &SMALL_DIGIT_0,
        1 => &SMALL_DIGIT_1,
        2 => &SMALL_DIGIT_2,
        3 => &SMALL_DIGIT_3,
        4 => &SMALL_DIGIT_4,
        5 => &SMALL_DIGIT_5,
        6 => &SMALL_DIGIT_6,
        7 => &SMALL_DIGIT_7,
        8 => &SMALL_DIGIT_8,
        _ => &SMALL_DIGIT_9,
    }
}

/// A digit is drawn alike as a number and in a label.
pub proof fn lemma_digit_cells_are_label_cells(digit: int)
    requires
        0 <= digit <= 9,
    ensures
        digit_cells(digit) == label_cells(('0' as u8 + digit) as u8 as char),
{
}

} // verus!
