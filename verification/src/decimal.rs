//! Numbers in base ten.
use vstd::prelude::*;

verus! {

/// The digit that stands for a number below ten.
pub open spec fn digit_char(digit: nat) -> char {
    if digit == 0 {
        '0'
    } else if digit == 1 {
        '1'
    } else if digit == 2 {
        '2'
    } else if digit == 3 {
        '3'
    } else if digit == 4 {
        '4'
    } else if digit == 5 {
        '5'
    } else if digit == 6 {
        '6'
    } else if digit == 7 {
        '7'
    } else if digit == 8 {
        '8'
    } else {
        '9'
    }
}

/// The digits of a number in base ten, without leading zeros.
pub open spec fn decimal_text(number: nat) -> Seq<char>
    decreases number,
{
    if number < 10 {
        seq![digit_char(number)]
    } else {
        decimal_text(number / 10).push(digit_char(number % 10))
    }
}

/// `text` with zeros before it, as many as it lacks to `width`.
pub open spec fn zero_padded(text: Seq<char>, width: nat) -> Seq<char> {
    if text.len() >= width {
        text
    } else {
        Seq::new((width - text.len()) as nat, |i: int| '0') + text
    }
}

/// The digit that stands for a number below ten.
fn digit_of(digit: u64) -> (c: char)
    requires
        digit < 10,
    ensures
        c == digit_char(digit as nat),
{
    if digit == 0 {
        '0'
    } else if digit == 1 {
        '1'
    } else if digit == 2 {
        '2'
    } else if digit == 3 {
        '3'
    } else if digit == 4 {
        '4'
    } else if digit == 5 {
        '5'
    } else if digit == 6 {
        '6'
    } else if digit == 7 {
        '7'
    } else if digit == 8 {
        '8'
    } else {
        '9'
    }
}

/// The digits of `number` in base ten, the last digit first.
fn digits_backwards(number: u64) -> (digits: Vec<char>)
    ensures
        digits@.reverse() == decimal_text(number as nat),
{
    let mut digits: Vec<char> = Vec::new();
    digits.push(digit_of(number % 10));
    let mut rest: u64 = number / 10;
    proof {
        assert(digits@.reverse() =~= seq![digit_char((number % 10) as nat)]);
        if number >= 10 {
            assert(decimal_text(number as nat) =~= decimal_text(rest as nat) + digits@.reverse());
        }
    }
    while rest > 0
        invariant
            rest > 0 ==> decimal_text(number as nat) == decimal_text(rest as nat)
                + digits@.reverse(),
            rest == 0 ==> decimal_text(number as nat) == digits@.reverse(),
        decreases rest,
    {
        let ghost before = digits@;
        let ghost whole = rest;
        digits.push(digit_of(rest % 10));
        rest = rest / 10;
        proof {
            assert(digits@.reverse() =~= seq![digit_char((whole % 10) as nat)] + before.reverse());
            if whole >= 10 {
                assert(decimal_text(whole as nat) == decimal_text((whole / 10) as nat).push(
                    digit_char((whole % 10) as nat),
                ));
                assert(decimal_text(number as nat) =~= decimal_text(rest as nat)
                    + digits@.reverse());
            } else {
                assert(decimal_text(whole as nat) == seq![digit_char(whole as nat)]);
                assert(decimal_text(number as nat) =~= digits@.reverse());
            }
        }
    }
    digits
}

/// Appends `number` in base ten to `text`, with zeros before it where it
/// has fewer than `width` digits.
pub fn push_padded(text: &mut String, number: u64, width: usize)
    ensures
        final(text)@ == old(text)@ + zero_padded(decimal_text(number as nat), width as nat),
{
    let digits = digits_backwards(number);
    let mut zeros: usize = digits.len();
    proof {
        assert(text@ =~= old(text)@ + Seq::new(0, |i: int| '0'));
    }
    while zeros < width
        invariant
            digits.len() <= zeros,
            zeros <= width || zeros == digits.len(),
            text@ == old(text)@ + Seq::new((zeros - digits.len()) as nat, |i: int| '0'),
        decreases width - zeros,
    {
        text.push('0');
        zeros += 1;
        proof {
            assert(text@ =~= old(text)@ + Seq::new((zeros - digits.len()) as nat, |i: int| '0'));
        }
    }
    let ghost padded = text@;
    let mut i: usize = digits.len();
    proof {
        assert(text@ =~= padded + digits@.reverse().take(0));
    }
    while i > 0
        invariant
            i <= digits.len(),
            text@ == padded + digits@.reverse().take(digits.len() - i),
        decreases i,
    {
        i -= 1;
        text.push(digits[i]);
        proof {
            assert(text@ =~= padded + digits@.reverse().take(digits.len() - i));
        }
    }
    proof {
        assert(digits@.reverse().take(digits.len() as int) =~= digits@.reverse());
        assert(text@ =~= old(text)@ + zero_padded(decimal_text(number as nat), width as nat));
    }
}

} // verus!
