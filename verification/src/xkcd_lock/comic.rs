//! A comic and the name of the file that keeps its picture.
use crate::decimal::{decimal_text, push_padded, zero_padded};
use crate::xkcd_lock::{safe_chars, safe_path};
use std::num::ParseIntError;
use vstd::prelude::*;
use vstd::string::StringSliceAdditionalSpecFns;
use vstd::utf8::{decode_utf8, is_continuation_byte};

verus! {

/// What is known of a comic.
#[derive(Debug)]
pub struct Xkcd {
    pub img: String,
    pub title: String,
    pub alt: String,
    pub num: u32,
}

/// The name of the file of the comic with the number and the title: the
/// number in at least four digits, the title without the characters that
/// may not stand in a file name, and the ending of a picture.
pub open spec fn file_name(number: u32, title: Seq<char>) -> Seq<char> {
    zero_padded(decimal_text(number as nat), 4) + " - "@ + safe_chars(title) + ".png"@
}

impl Xkcd {
    /// The name of the file that keeps the picture of the comic.
    pub fn filename(&self) -> (name: String)
        ensures
            name@ == file_name(self.num, self.title@),
    {
        let mut name = String::new();
        push_padded(&mut name, self.num as u64, 4);
        name.push(' ');
        name.push('-');
        name.push(' ');
        let title = safe_path(self.title.as_str());
        vstd::string::StringExecFns::append(&mut name, title.as_str());
        name.push('.');
        name.push('p');
        name.push('n');
        name.push('g');
        proof {
            reveal_strlit(" - ");
            reveal_strlit(".png");
            assert(name@ =~= file_name(self.num, self.title@));
        }
        name
    }
}

/// The number that digits stand for in base ten, given as bytes of text.
pub open spec fn decimal_bytes(digits: Seq<u8>) -> nat
    decreases digits.len(),
{
    if digits.len() == 0 {
        0
    } else {
        (10 * decimal_bytes(digits.drop_last()) + (digits.last() - 0x30)) as nat
    }
}

/// The number that bytes of text stand for where it is one that fits 32
/// bits: an optional `+`, then at least one digit and nothing else.
pub open spec fn u32_of_bytes(bytes: Seq<u8>) -> Option<u32> {
    let digits = if bytes.len() > 0 && bytes[0] == 0x2B {
        bytes.skip(1)
    } else {
        bytes
    };
    if digits.len() > 0 && (forall|i: int|
        0 <= i < digits.len() ==> 0x30 <= #[trigger] digits[i] <= 0x39) && decimal_bytes(digits)
        <= u32::MAX {
        Some(decimal_bytes(digits) as u32)
    } else {
        None
    }
}

/// Whether a byte position of a text is the end of the text or the
/// beginning of a character.
pub open spec fn begins_character(bytes: Seq<u8>, at: int) -> bool {
    at == bytes.len() || (0 <= at < bytes.len() && !is_continuation_byte(bytes[at]))
}

/// The number that the name of a kept file begins with: its first four
/// bytes, where they are characters of their own and stand for a number.
pub open spec fn kept_number(name: Seq<u8>) -> Option<u32> {
    if name.len() >= 4 && begins_character(name, 4) {
        u32_of_bytes(name.subrange(0, 4))
    } else {
        None
    }
}

/// Whether the title can be cut out of the name of a kept file: the name
/// is long enough for the number, the title and the ending, and the title
/// begins and ends where characters do.
pub open spec fn has_kept_title(name: Seq<u8>) -> bool {
    &&& name.len() >= 11
    &&& begins_character(name, 7)
    &&& begins_character(name, name.len() - 4)
}

/// The title in the name of a kept file: what stands between the number
/// with its hyphen and the ending.
pub open spec fn kept_title(name: Seq<u8>) -> Seq<char> {
    decode_utf8(name.subrange(7, name.len() - 4))
}

/// Reads text as a number of 32 bits with `str::parse`: decimal digits,
/// with or without a `+` before them, give their value if that fits; every
/// other text gives an error.
#[verifier::external_body]
fn parse_u32(text: &str) -> (parsed: Result<u32, ParseIntError>)
    ensures
        match parsed {
            Ok(value) => u32_of_bytes(text.spec_bytes()) == Some(value),
            Err(_) => u32_of_bytes(text.spec_bytes()) is None,
        },
{
    text.parse::<u32>()
}

/// Whether a byte continues a character that began before it.
fn continues_character(byte: u8) -> (continues: bool)
    ensures
        continues == is_continuation_byte(byte),
{
    0x80 <= byte && byte <= 0xBF
}

impl Xkcd {
    /// What the name of a kept file tells of the comic with the number
    /// `number`. `None` where the name cannot be read: it does not begin
    /// with a number of four bytes, or it is the file of the comic and its
    /// title cannot be cut out. `Some(None)` where the file is that of
    /// another comic. Else the comic, with the title from the name.
    pub fn from_file_name(name: &str, number: u32) -> (read: Option<Option<Xkcd>>)
        ensures
            match read {
                None => kept_number(name.spec_bytes()) is None || (kept_number(name.spec_bytes())
                    == Some(number) && !has_kept_title(name.spec_bytes())),
                Some(None) => kept_number(name.spec_bytes()) matches Some(other) && other
                    != number,
                Some(Some(comic)) => {
                    &&& kept_number(name.spec_bytes()) == Some(number)
                    &&& has_kept_title(name.spec_bytes())
                    &&& comic.num == number
                    &&& comic.title@ == kept_title(name.spec_bytes())
                    &&& comic.img@ == Seq::<char>::empty()
                    &&& comic.alt@ == Seq::<char>::empty()
                },
            },
    {
        broadcast use vstd::utf8::encode_utf8_valid_utf8;
        broadcast use vstd::utf8::encode_utf8_decode_utf8;

        let ghost bytes = name.spec_bytes();
        let raw = name.as_bytes();
        let len: usize = raw.len();
        if len < 4 {
            return None;
        }
        if len > 4 && continues_character(raw[4]) {
            return None;
        }
        proof {
            if len > 4 {
                vstd::utf8::is_char_boundary_iff_not_is_continuation_byte(bytes, 4);
            } else {
                vstd::utf8::is_char_boundary_start_end_of_seq(bytes);
            }
        }
        let (head, rest) = name.split_at(4);
        let found = match parse_u32(head) {
            Ok(found) => found,
            Err(_) => {
                return None;
            },
        };
        if found != number {
            return Some(None);
        }
        if len < 11 || continues_character(raw[7]) || continues_character(raw[len - 4]) {
            return None;
        }
        proof {
            vstd::utf8::valid_utf8_split(bytes, 4);
            vstd::utf8::is_char_boundary_iff_not_is_continuation_byte(rest.spec_bytes(), 3);
        }
        let (_, tail) = rest.split_at(3);
        proof {
            vstd::utf8::valid_utf8_split(rest.spec_bytes(), 3);
            vstd::utf8::is_char_boundary_iff_not_is_continuation_byte(
                tail.spec_bytes(),
                tail.spec_bytes().len() - 4,
            );
        }
        let (title, _) = tail.split_at(tail.len() - 4);
        proof {
            assert(title.spec_bytes() =~= bytes.subrange(7, bytes.len() - 4));
        }
        Some(
            Some(
                Xkcd { num: number, title: title.to_owned(), img: String::new(), alt: String::new() },
            ),
        )
    }
}

impl Default for Xkcd {
    /// A comic of which nothing is known.
    fn default() -> (comic: Xkcd)
        ensures
            comic.img@ == Seq::<char>::empty(),
            comic.title@ == Seq::<char>::empty(),
            comic.alt@ == Seq::<char>::empty(),
            comic.num == 0,
    {
        Xkcd { img: String::new(), title: String::new(), alt: String::new(), num: 0 }
    }
}

} // verus!
