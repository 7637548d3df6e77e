//! The three bytes of a colour, from numbers or from text such as
//! `#FF0040`.
use std::num::ParseIntError;
use vstd::prelude::*;
use vstd::string::StringSliceAdditionalSpecFns;
use vstd::utf8::{is_char_boundary, is_continuation_byte, valid_utf8};

verus! {

/// Why something is no colour.
#[derive(Debug, PartialEq)]
pub enum Error {
    /// A part of the text is no number.
    Parse(ParseIntError),
    /// A number is not in the allowed range.
    NotInRange,
    /// The text has not the length of a colour.
    InvalidColorString,
}

/// The value of a digit of base sixteen, given as a byte of text.
pub open spec fn hex_digit(byte: u8) -> Option<u8> {
    if 0x30 <= byte <= 0x39 {
        Some((byte - 0x30) as u8)
    } else if 0x41 <= byte <= 0x46 {
        Some((byte - 0x41 + 10) as u8)
    } else if 0x61 <= byte <= 0x66 {
        Some((byte - 0x61 + 10) as u8)
    } else {
        None
    }
}

/// The number that two bytes of text stand for in base sixteen: two digits,
/// or a `+` and one digit.
pub open spec fn hex_pair(first: u8, second: u8) -> Option<u8> {
    match (hex_digit(first), hex_digit(second)) {
        (Some(high), Some(low)) => Some((16 * high + low) as u8),
        (None, Some(low)) => if first == 0x2B {
            Some(low)
        } else {
            None
        },
        _ => None,
    }
}

/// The bytes of a colour's text after the `#` that may stand before them.
pub open spec fn color_digits(bytes: Seq<u8>) -> Seq<u8> {
    if bytes.len() > 0 && bytes[0] == 0x23 {
        bytes.skip(1)
    } else {
        bytes
    }
}

/// Whether the text of a colour can be cut into its three parts: no
/// character lies across the end of the first part, nor, where the first
/// part is a number, across the end of the second.
pub open spec fn can_be_cut(bytes: Seq<u8>) -> bool {
    let digits = color_digits(bytes);
    digits.len() == 6 ==> {
        &&& !is_continuation_byte(digits[2])
        &&& hex_pair(digits[0], digits[1]) is Some ==> !is_continuation_byte(digits[4])
    }
}

/// The three bytes that the text of a colour stands for, or why it stands
/// for none.
pub open spec fn color_of(bytes: Seq<u8>) -> Result<(u8, u8, u8), ()> {
    let digits = color_digits(bytes);
    if digits.len() != 6 {
        Err(())
    } else {
        match (
            hex_pair(digits[0], digits[1]),
            hex_pair(digits[2], digits[3]),
            hex_pair(digits[4], digits[5]),
        ) {
            (Some(red), Some(green), Some(blue)) => Ok((red, green, blue)),
            _ => Err(()),
        }
    }
}

/// Reads two bytes of text as a number in base sixteen with
/// `u8::from_str_radix`: two digits give their value, so does one digit
/// after a `+`, and everything else gives an error.
#[verifier::external_body]
fn parse_hex_pair(pair: &str) -> (parsed: Result<u8, ParseIntError>)
    requires
        pair.spec_bytes().len() == 2,
    ensures
        match parsed {
            Ok(value) => hex_pair(pair.spec_bytes()[0], pair.spec_bytes()[1]) == Some(value),
            Err(_) => hex_pair(pair.spec_bytes()[0], pair.spec_bytes()[1]) is None,
        },
{
    u8::from_str_radix(pair, 16)
}

/// After a first byte that is a character of its own, a second character
/// begins.
proof fn lemma_boundary_after_ascii(bytes: Seq<u8>)
    requires
        valid_utf8(bytes),
        bytes.len() > 0,
        bytes[0] < 0x80,
    ensures
        is_char_boundary(bytes, 1),
{
    reveal_with_fuel(is_char_boundary, 2);
    reveal_with_fuel(valid_utf8, 2);
    let first: u8 = bytes[0];
    assert(first & 0x80 == 0) by (bit_vector)
        requires
            first < 0x80,
    ;
}

/// The number of a hue, where it lies between 0 and 255.
pub fn hue_byte(number: i64) -> (hue: Result<u8, Error>)
    ensures
        match hue {
            Ok(byte) => 0 <= number <= 255 && byte == number,
            Err(error) => !(0 <= number <= 255) && error == Error::NotInRange,
        },
{
    if 0 <= number && number <= 255 {
        Ok(number as u8)
    } else {
        Err(Error::NotInRange)
    }
}

/// The value of a digit of base sixteen, given as a byte of text.
fn hex_digit_of(byte: u8) -> (digit: Option<u8>)
    ensures
        digit == hex_digit(byte),
{
    if 0x30 <= byte && byte <= 0x39 {
        Some(byte - 0x30)
    } else if 0x41 <= byte && byte <= 0x46 {
        Some(byte - 0x41 + 10)
    } else if 0x61 <= byte && byte <= 0x66 {
        Some(byte - 0x61 + 10)
    } else {
        None
    }
}

/// Whether two bytes of text stand for a number in base sixteen.
fn is_hex_pair(first: u8, second: u8) -> (number: bool)
    ensures
        number == hex_pair(first, second).is_some(),
{
    match (hex_digit_of(first), hex_digit_of(second)) {
        (Some(_), Some(_)) => true,
        (None, Some(_)) => first == 0x2B,
        _ => false,
    }
}

/// Whether a byte continues a character that began before it.
fn continues_character(byte: u8) -> (continues: bool)
    ensures
        continues == is_continuation_byte(byte),
{
    0x80 <= byte && byte <= 0xBF
}

/// The three bytes of the colour that `text` stands for, or `None` where
/// the text cannot be cut into its three parts.
pub fn try_hex_bytes(text: &str) -> (parsed: Option<Result<(u8, u8, u8), Error>>)
    ensures
        parsed is Some == can_be_cut(text.spec_bytes()),
        parsed matches Some(outcome) ==> match outcome {
            Ok(color) => color_of(text.spec_bytes()) == Ok::<(u8, u8, u8), ()>(color),
            Err(Error::InvalidColorString) => color_digits(text.spec_bytes()).len() != 6,
            Err(Error::Parse(_)) => color_digits(text.spec_bytes()).len() == 6 && color_of(
                text.spec_bytes(),
            ) is Err,
            Err(Error::NotInRange) => false,
        },
{
    let raw = text.as_bytes();
    let from: usize = if raw.len() > 0 && raw[0] == 0x23 {
        1
    } else {
        0
    };
    proof {
        assert(color_digits(raw@) =~= raw@.skip(from as int));
    }
    if raw.len() - from == 6 {
        if continues_character(raw[from + 2]) {
            return None;
        }
        if is_hex_pair(raw[from], raw[from + 1]) && continues_character(raw[from + 4]) {
            return None;
        }
    }
    Some(hex_bytes(text))
}

/// The three bytes of the colour that `text` stands for: six digits of base
/// sixteen, two for each of red, green and blue, with or without a `#`
/// before them.
pub fn hex_bytes(text: &str) -> (parsed: Result<(u8, u8, u8), Error>)
    requires
        can_be_cut(text.spec_bytes()),
    ensures
        match parsed {
            Ok(color) => color_of(text.spec_bytes()) == Ok::<(u8, u8, u8), ()>(color),
            Err(Error::InvalidColorString) => color_digits(text.spec_bytes()).len() != 6,
            Err(Error::Parse(_)) => color_digits(text.spec_bytes()).len() == 6 && color_of(
                text.spec_bytes(),
            ) is Err,
            Err(Error::NotInRange) => false,
        },
{
    broadcast use vstd::utf8::encode_utf8_valid_utf8;

    let ghost bytes = text.spec_bytes();
    let raw = text.as_bytes();
    let body = if raw.len() > 0 && raw[0] == 0x23 {
        proof {
            lemma_boundary_after_ascii(bytes);
        }
        text.split_at(1).1
    } else {
        text
    };
    let ghost digits = body.spec_bytes();
    proof {
        assert(digits =~= color_digits(bytes));
    }
    if body.len() != 6 {
        return Err(Error::InvalidColorString);
    }
    proof {
        vstd::utf8::is_char_boundary_iff_not_is_continuation_byte(digits, 2);
    }
    let (first, rest) = body.split_at(2);
    let red = match parse_hex_pair(first) {
        Ok(red) => red,
        Err(error) => {
            return Err(Error::Parse(error));
        },
    };
    proof {
        vstd::utf8::is_char_boundary_iff_not_is_continuation_byte(digits, 4);
        vstd::utf8::valid_utf8_split(digits, 2);
        vstd::utf8::is_char_boundary_iff_not_is_continuation_byte(rest.spec_bytes(), 2);
    }
    let (second, third) = rest.split_at(2);
    let green = match parse_hex_pair(second) {
        Ok(green) => green,
        Err(error) => {
            return Err(Error::Parse(error));
        },
    };
    let blue = match parse_hex_pair(third) {
        Ok(blue) => blue,
        Err(error) => {
            return Err(Error::Parse(error));
        },
    };
    Ok((red, green, blue))
}

} // verus!
