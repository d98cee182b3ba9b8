//! Squares in the coordinates that chess protocols write: a file letter and
//! a rank number.

use vstd::prelude::*;

verus! {

/// The letter of a file, `'a'` for the first.
pub open spec fn file_letter(file: int) -> char {
    if file == 0 {
        'a'
    } else if file == 1 {
        'b'
    } else if file == 2 {
        'c'
    } else if file == 3 {
        'd'
    } else if file == 4 {
        'e'
    } else if file == 5 {
        'f'
    } else if file == 6 {
        'g'
    } else {
        'h'
    }
}

/// The file letter of a square.
pub fn square_to_ucifile(square: u8) -> (file: char)
    requires
        square < 64,
    ensures
        file == file_letter(square as int % 8),
{
    match square % 8 {
        0 => 'a',
        1 => 'b',
        2 => 'c',
        3 => 'd',
        4 => 'e',
        5 => 'f',
        6 => 'g',
        _ => 'h',
    }
}

/// The rank number of a square, 1 for the first.
pub fn square_to_ucirank(square: u8) -> (rank: u8)
    requires
        square < 64,
    ensures
        rank == square / 8 + 1,
        1 <= rank <= 8,
{
    square / 8 + 1
}

} // verus!
