//! Cutting a file into QR codes: what to do after each read, and how the
//! pictures are named.
use crate::decimal::{decimal_text, push_padded, zero_padded};
use vstd::prelude::*;
use vstd::string::StringExecFns;

verus! {

/// The most bytes that go into one code.
pub const CHUNK_SIZE: usize = 2048;

/// How a read from the file ended.
#[derive(Debug, Clone, Copy, PartialEq, Eq, Structural)]
pub enum ReadOutcome {
    /// That many bytes were read.
    Read(usize),
    /// The read was interrupted before it got anything.
    Interrupted,
    /// The read failed.
    Failed,
}

/// What to do after a read.
#[derive(Debug, Clone, Copy, PartialEq, Eq, Structural)]
pub enum Step {
    /// Encode that many bytes of the buffer.
    Encode(usize),
    /// Read once more.
    Retry,
    /// There is nothing more to encode.
    Stop,
}

/// What to do after a read: encode what was read, read again after an
/// interruption, and stop at the end of the file or after a failure.
pub fn after_read(outcome: ReadOutcome) -> (step: Step)
    ensures
        step == match outcome {
            ReadOutcome::Read(len) => if len == 0 {
                Step::Stop
            } else {
                Step::Encode(len)
            },
            ReadOutcome::Interrupted => Step::Retry,
            ReadOutcome::Failed => Step::Stop,
        },
{
    match outcome {
        ReadOutcome::Read(0) => Step::Stop,
        ReadOutcome::Read(len) => Step::Encode(len),
        ReadOutcome::Interrupted => Step::Retry,
        ReadOutcome::Failed => Step::Stop,
    }
}

/// The name of the picture of a part of the file `name`: the number of the
/// part in at least two digits, a hyphen, the name, and the ending of a
/// picture.
pub open spec fn part_name(number: nat, name: Seq<char>) -> Seq<char> {
    zero_padded(decimal_text(number), 2) + seq!['-'] + name + ".png"@
}

/// The name of the picture of part `index` of the file `name`; the parts
/// are counted from zero and numbered from one.
pub fn part_file_name(index: u64, name: &str) -> (file: String)
    requires
        index < u64::MAX,
    ensures
        file@ == part_name((index + 1) as nat, name@),
{
    let mut file = String::new();
    push_padded(&mut file, index + 1, 2);
    file.push('-');
    file.append(name);
    file.push('.');
    file.push('p');
    file.push('n');
    file.push('g');
    proof {
        reveal_strlit(".png");
        assert(file@ =~= part_name((index + 1) as nat, name@));
    }
    file
}

} // verus!
