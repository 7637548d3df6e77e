//! Reading a connection from a line of text.
//!
//! A line is a gate, the arrow ` -> `, and the name of the cable that the
//! gate feeds. A gate is one to three words:
//!
//! * `123` or `x`: a number, or the cable to copy;
//! * `NOT x`;
//! * `x AND y`, `x OR y`, `x LSHIFT 2`, `x RSHIFT 2`.
//!
//! Words after the third are not looked at.
use crate::logic::text::{
    chars_of, find_arrow, find_word, first_arrow, next_word, part_of, string_of,
};
use crate::logic::{
    And, AndModel, Assignment, AssignmentModel, Connection, ConnectionModel, GateModel, LogicGate,
};
use std::num::ParseIntError;
use vstd::prelude::*;
use vstd::string::StringExecFns;

verus! {

/// The error of `str::parse` for an integer. Nothing of it is visible here.
#[verifier::external_type_specification]
#[verifier::external_body]
pub struct ExParseIntError(ParseIntError);

/// Why a line is no connection.
#[derive(Debug, PartialEq, Eq)]
pub enum ConnectionParseError {
    InvalidFormat,
    InvalidGate,
    InvalidInput,
    InvalidInt(ParseIntError),
}

/// [`ConnectionParseError`] without what it carries.
pub enum ParseFailure {
    InvalidFormat,
    InvalidGate,
    InvalidInput,
    InvalidInt,
}

impl View for ConnectionParseError {
    type V = ParseFailure;

    open spec fn view(&self) -> ParseFailure {
        match self {
            ConnectionParseError::InvalidFormat => ParseFailure::InvalidFormat,
            ConnectionParseError::InvalidGate => ParseFailure::InvalidGate,
            ConnectionParseError::InvalidInput => ParseFailure::InvalidInput,
            ConnectionParseError::InvalidInt(_) => ParseFailure::InvalidInt,
        }
    }
}

/// Whether `c` is one of the digits `0` to `9`.
pub open spec fn is_digit(c: char) -> bool {
    '0' <= c <= '9'
}

/// The number that a sequence of digits stands for, in base ten.
pub open spec fn decimal(digits: Seq<char>) -> nat
    decreases digits.len(),
{
    if digits.len() == 0 {
        0
    } else {
        (10 * decimal(digits.drop_last()) + (digits.last() as u32 - '0' as u32)) as nat
    }
}

/// The number that `word` stands for where it is one that fits 16 bits: an
/// optional `+`, then at least one digit and nothing else.
pub open spec fn u16_of(word: Seq<char>) -> Option<u16> {
    let digits = if word.len() > 0 && word[0] == '+' {
        word.drop_first()
    } else {
        word
    };
    if digits.len() > 0 && (forall|i: int| 0 <= i < digits.len() ==> is_digit(#[trigger] digits[i]))
        && decimal(digits) <= u16::MAX {
        Some(decimal(digits) as u16)
    } else {
        None
    }
}

/// Reads `word` as a number of 16 bits with `str::parse`: a word of decimal
/// digits, with or without a `+` before them, gives its value if that fits;
/// every other word gives an error.
#[verifier::external_body]
fn parse_u16(word: &str) -> (parsed: Result<u16, ParseIntError>)
    ensures
        match parsed {
            Ok(value) => u16_of(word@) == Some(value),
            Err(_) => u16_of(word@) is None,
        },
{
    word.parse::<u16>()
}

/// The text that `ToString::to_string` gives for an error of `str::parse`.
#[verifier::external_body]
fn int_error_text(error: &ParseIntError) -> String {
    error.to_string()
}

/// What a single word stands for: the number, or else the cable.
pub open spec fn single_word_gate(word: Seq<char>) -> GateModel {
    match u16_of(word) {
        Some(value) => GateModel::Assignment(AssignmentModel::Direct(value)),
        None => GateModel::Assignment(AssignmentModel::Gate(word)),
    }
}

/// What three words stand for.
pub open spec fn three_word_gate(origin: Seq<char>, gate: Seq<char>, dest: Seq<char>) -> Result<
    GateModel,
    ParseFailure,
> {
    if gate == "AND"@ {
        if origin == "1"@ {
            Ok(GateModel::And(AndModel::True(dest)))
        } else {
            Ok(GateModel::And(AndModel::And(origin, dest)))
        }
    } else if gate == "OR"@ {
        Ok(GateModel::Or(origin, dest))
    } else if gate == "LSHIFT"@ {
        match u16_of(dest) {
            Some(shift) => Ok(GateModel::Lshift(origin, shift)),
            None => Err(ParseFailure::InvalidInt),
        }
    } else if gate == "RSHIFT"@ {
        match u16_of(dest) {
            Some(shift) => Ok(GateModel::Rshift(origin, shift)),
            None => Err(ParseFailure::InvalidInt),
        }
    } else {
        Err(ParseFailure::InvalidFormat)
    }
}

/// What gate `s` stands for, or why it stands for none.
pub open spec fn parse_gate(s: Seq<char>) -> Result<GateModel, ParseFailure> {
    match next_word(s, 0) {
        None => Err(ParseFailure::InvalidFormat),
        Some(first) => match next_word(s, first.1) {
            None => Ok(single_word_gate(s.subrange(first.0, first.1))),
            Some(second) => match next_word(s, second.1) {
                None => if s.subrange(first.0, first.1) == "NOT"@ {
                    Ok(GateModel::Not(s.subrange(second.0, second.1)))
                } else {
                    Err(ParseFailure::InvalidFormat)
                },
                Some(third) => three_word_gate(
                    s.subrange(first.0, first.1),
                    s.subrange(second.0, second.1),
                    s.subrange(third.0, third.1),
                ),
            },
        },
    }
}

/// The connection that the line `s` stands for, or why it stands for none.
/// The line has to hold the arrow exactly once; what follows the arrow is
/// the name of the cable, as it stands.
pub open spec fn parse_connection(s: Seq<char>) -> Result<ConnectionModel, ParseFailure> {
    let arrow = first_arrow(s, 0);
    if arrow == s.len() {
        Err(ParseFailure::InvalidFormat)
    } else if first_arrow(s, arrow + 4) != s.len() {
        Err(ParseFailure::InvalidFormat)
    } else {
        match parse_gate(s.subrange(0, arrow)) {
            Ok(gate) => Ok(ConnectionModel { gate, output: s.subrange(arrow + 4, s.len() as int) }),
            Err(failure) => Err(failure),
        }
    }
}

/// The outcome of reading a gate, as the contracts see it.
pub open spec fn gate_outcome(read: Result<LogicGate, ConnectionParseError>) -> Result<
    GateModel,
    ParseFailure,
> {
    match read {
        Ok(gate) => Ok(gate@),
        Err(error) => Err(error@),
    }
}

/// The outcome of reading a connection, as the contracts see it.
pub open spec fn connection_outcome(read: Result<Connection, ConnectionParseError>) -> Result<
    ConnectionModel,
    ParseFailure,
> {
    match read {
        Ok(connection) => Ok(connection@),
        Err(error) => Err(error@),
    }
}

impl ConnectionParseError {
    /// The error in words.
    pub fn message(&self) -> (text: String)
        ensures
            self@ is InvalidFormat ==> text@ == "Invalid format"@,
            self@ is InvalidGate ==> text@ == "Invalid gate"@,
            self@ is InvalidInput ==> text@ == "Invalid input"@,
    {
        match self {
            ConnectionParseError::InvalidFormat => String::from_str("Invalid format"),
            ConnectionParseError::InvalidGate => String::from_str("Invalid gate"),
            ConnectionParseError::InvalidInput => String::from_str("Invalid input"),
            ConnectionParseError::InvalidInt(error) => int_error_text(error),
        }
    }
}

/// Reads three words as a gate.
fn gate_of_three(origin: String, gate: String, dest: String) -> (read: Result<
    LogicGate,
    ConnectionParseError,
>)
    ensures
        gate_outcome(read) == three_word_gate(origin@, gate@, dest@),
{
    if gate == String::from_str("AND") {
        if origin == String::from_str("1") {
            Ok(LogicGate::And(And::True(dest)))
        } else {
            Ok(LogicGate::And(And::And(origin, dest)))
        }
    } else if gate == String::from_str("OR") {
        Ok(LogicGate::Or(origin, dest))
    } else if gate == String::from_str("LSHIFT") {
        match parse_u16(dest.as_str()) {
            Ok(shift) => Ok(LogicGate::Lshift(origin, shift)),
            Err(error) => Err(ConnectionParseError::InvalidInt(error)),
        }
    } else if gate == String::from_str("RSHIFT") {
        match parse_u16(dest.as_str()) {
            Ok(shift) => Ok(LogicGate::Rshift(origin, shift)),
            Err(error) => Err(ConnectionParseError::InvalidInt(error)),
        }
    } else {
        Err(ConnectionParseError::InvalidFormat)
    }
}

/// Reads the characters as a gate.
fn gate_of_chars(chars: &Vec<char>) -> (read: Result<LogicGate, ConnectionParseError>)
    ensures
        gate_outcome(read) == parse_gate(chars@),
{
    let first = match find_word(chars, 0) {
        Some(word) => word,
        None => {
            return Err(ConnectionParseError::InvalidFormat);
        },
    };
    let part0 = string_of(chars, first.0, first.1);
    let second = match find_word(chars, first.1) {
        Some(word) => word,
        None => {
            return Ok(
                match parse_u16(part0.as_str()) {
                    Ok(value) => LogicGate::Assignment(Assignment::Direct(value)),
                    Err(_) => LogicGate::Assignment(Assignment::Gate(part0)),
                },
            );
        },
    };
    let part1 = string_of(chars, second.0, second.1);
    match find_word(chars, second.1) {
        Some(third) => {
            let part2 = string_of(chars, third.0, third.1);
            gate_of_three(part0, part1, part2)
        },
        None => {
            if part0 == String::from_str("NOT") {
                Ok(LogicGate::Not(part1))
            } else {
                Err(ConnectionParseError::InvalidFormat)
            }
        },
    }
}

/// Reads the connection that the characters of a line stand for.
pub fn connection_of_chars(chars: &Vec<char>) -> (read: Result<Connection, ConnectionParseError>)
    ensures
        connection_outcome(read) == parse_connection(chars@),
{
    let len: usize = chars.len();
    let arrow: usize = find_arrow(chars, 0);
    if arrow == len {
        return Err(ConnectionParseError::InvalidFormat);
    }
    if find_arrow(chars, arrow + 4) != len {
        return Err(ConnectionParseError::InvalidFormat);
    }
    let output = string_of(chars, arrow + 4, len);
    let part0 = part_of(chars, 0, arrow);
    match gate_of_chars(&part0) {
        Ok(gate) => Ok(Connection::new(output.as_str(), gate)),
        Err(error) => Err(error),
    }
}

impl LogicGate {
    /// Reads a gate from its text.
    pub fn from_str(s: &str) -> (read: Result<LogicGate, ConnectionParseError>)
        ensures
            gate_outcome(read) == parse_gate(s@),
    {
        let chars = chars_of(s);
        gate_of_chars(&chars)
    }
}

impl Connection {
    /// Reads a connection from a line of text.
    pub fn from_str(s: &str) -> (read: Result<Connection, ConnectionParseError>)
        ensures
            connection_outcome(read) == parse_connection(s@),
    {
        let chars = chars_of(s);
        connection_of_chars(&chars)
    }
}

impl core::str::FromStr for LogicGate {
    type Err = ConnectionParseError;

    /// Reads a gate from its text, as the function of the same name on
    /// [`LogicGate`] does.
    fn from_str(s: &str) -> (read: Result<Self, Self::Err>)
        ensures
            gate_outcome(read) == parse_gate(s@),
    {
        LogicGate::from_str(s)
    }
}

impl core::str::FromStr for Connection {
    type Err = ConnectionParseError;

    /// Reads a connection from a line of text, as the function of the same
    /// name on [`Connection`] does.
    fn from_str(s: &str) -> (read: Result<Self, Self::Err>)
        ensures
            connection_outcome(read) == parse_connection(s@),
    {
        Connection::from_str(s)
    }
}

} // verus!
