use vstd::prelude::*;

verus! {

/// The numeric value of a digit character, covering every base up to 16.
pub open spec fn spec_digit_value(c: char) -> Result<u8, ()> {
    match c {
        '0' => Ok(0u8),
        '1' => Ok(1u8),
        '2' => Ok(2u8),
        '3' => Ok(3u8),
        '4' => Ok(4u8),
        '5' => Ok(5u8),
        '6' => Ok(6u8),
        '7' => Ok(7u8),
        '8' => Ok(8u8),
        '9' => Ok(9u8),
        'A' | 'a' => Ok(10u8),
        'B' | 'b' => Ok(11u8),
        'C' | 'c' => Ok(12u8),
        'D' | 'd' => Ok(13u8),
        'E' | 'e' => Ok(14u8),
        'F' | 'f' => Ok(15u8),
        _ => Err(()),
    }
}

pub fn digit_value(c: char) -> (r: Result<u8, ()>)
    ensures
        r == spec_digit_value(c),
{
    match c {
        '0' => Ok(0),
        '1' => Ok(1),
        '2' => Ok(2),
        '3' => Ok(3),
        '4' => Ok(4),
        '5' => Ok(5),
        '6' => Ok(6),
        '7' => Ok(7),
        '8' => Ok(8),
        '9' => Ok(9),
        'A' | 'a' => Ok(10),
        'B' | 'b' => Ok(11),
        'C' | 'c' => Ok(12),
        'D' | 'd' => Ok(13),
        'E' | 'e' => Ok(14),
        'F' | 'f' => Ok(15),
        _ => Err(()),
    }
}

/// Whether the byte is an ASCII digit of the given base, as the scanner's
/// digit runs understand it.
pub open spec fn is_digit_of_base(b: u8, base: u32) -> bool {
    b < 128 && match spec_digit_value(b as char) {
        Ok(v) => (v as u32) < base,
        Err(_) => false,
    }
}

pub fn is_digit(b: u8, base: u32) -> (r: bool)
    ensures
        r == is_digit_of_base(b, base),
{
    if b >= 128 {
        return false;
    }
    match digit_value(b as char) {
        Ok(v) => (v as u32) < base,
        Err(_) => false,
    }
}

} // verus!
