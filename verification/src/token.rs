//! The HTTP token alphabet and the lookup table that validates method bytes.

use vstd::prelude::*;

verus! {

/// Whether `b` may appear in an HTTP token: an ASCII letter or digit, or one of
/// ``! # $ % & ' * + - . ^ _ ` | ~``.
pub open spec fn is_token_byte(b: u8) -> bool {
    ||| 0x30 <= b <= 0x39
    ||| 0x41 <= b <= 0x5a
    ||| 0x61 <= b <= 0x7a
    ||| b == 0x21
    ||| 0x23 <= b <= 0x27
    ||| b == 0x2a
    ||| b == 0x2b
    ||| b == 0x2d
    ||| b == 0x2e
    ||| 0x5e <= b <= 0x60
    ||| b == 0x7c
    ||| b == 0x7e
}

/// What the lookup table holds for `b`: the byte itself where it is a token
/// byte, and the marker `0` where it is not.
pub open spec fn table_entry(b: u8) -> u8 {
    if is_token_byte(b) {
        b
    } else {
        0
    }
}

pub const METHOD_CHARS: [u8; 256] = [
    //0    1    2    3    4    5    6    7    8    9
      0,   0,   0,   0,   0,   0,   0,   0,   0,   0,  //   x
      0,   0,   0,   0,   0,   0,   0,   0,   0,   0,  //  1x
      0,   0,   0,   0,   0,   0,   0,   0,   0,   0,  //  2x
      0,   0,   0,  33,   0,  35,  36,  37,  38,  39,  //  3x
      0,   0,  42,  43,   0,  45,  46,   0,  48,  49,  //  4x
     50,  51,  52,  53,  54,  55,  56,  57,   0,   0,  //  5x
      0,   0,   0,   0,   0,  65,  66,  67,  68,  69,  //  6x
     70,  71,  72,  73,  74,  75,  76,  77,  78,  79,  //  7x
     80,  81,  82,  83,  84,  85,  86,  87,  88,  89,  //  8x
     90,   0,   0,   0,  94,  95,  96,  97,  98,  99,  //  9x
    100, 101, 102, 103, 104, 105, 106, 107, 108, 109,  // 10x
    110, 111, 112, 113, 114, 115, 116, 117, 118, 119,  // 11x
    120, 121, 122,   0, 124,   0, 126,   0,   0,   0,  // 12x
      0,   0,   0,   0,   0,   0,   0,   0,   0,   0,  // 13x
      0,   0,   0,   0,   0,   0,   0,   0,   0,   0,  // 14x
      0,   0,   0,   0,   0,   0,   0,   0,   0,   0,  // 15x
      0,   0,   0,   0,   0,   0,   0,   0,   0,   0,  // 16x
      0,   0,   0,   0,   0,   0,   0,   0,   0,   0,  // 17x
      0,   0,   0,   0,   0,   0,   0,   0,   0,   0,  // 18x
      0,   0,   0,   0,   0,   0,   0,   0,   0,   0,  // 19x
      0,   0,   0,   0,   0,   0,   0,   0,   0,   0,  // 20x
      0,   0,   0,   0,   0,   0,   0,   0,   0,   0,  // 21x
      0,   0,   0,   0,   0,   0,   0,   0,   0,   0,  // 22x
      0,   0,   0,   0,   0,   0,   0,   0,   0,   0,  // 23x
      0,   0,   0,   0,   0,   0,   0,   0,   0,   0,  // 24x
      0,   0,   0,   0,   0,   0,  // 25x
];

/// Looks `b` up in the table.
pub fn method_char(b: u8) -> (c: u8)
    ensures
        c == table_entry(b),
{
    METHOD_CHARS[b as usize]
}

} // verus!
