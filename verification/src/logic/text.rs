//! Text as a sequence of characters: words, lines and the arrow that parts
//! a gate from its output.
use vstd::prelude::*;

verus! {

/// The characters that part words: those with the Unicode property
/// White_Space.
pub open spec fn is_space(c: char) -> bool {
    let n = c as u32;
    ||| 0x09 <= n <= 0x0D
    ||| n == 0x20
    ||| n == 0x85
    ||| n == 0xA0
    ||| n == 0x1680
    ||| 0x2000 <= n <= 0x200A
    ||| n == 0x2028
    ||| n == 0x2029
    ||| n == 0x202F
    ||| n == 0x205F
    ||| n == 0x3000
}

/// `char::is_whitespace` tells whether a character has the Unicode property
/// White_Space.
pub assume_specification[ char::is_whitespace ](c: char) -> (space: bool)
    ensures
        space == is_space(c),
;

/// `String::push` appends one character to the string.
pub assume_specification[ String::push ](text: &mut String, c: char)
    ensures
        final(text)@ == old(text)@.push(c),
;

/// The characters of `text`, in order.
pub fn chars_of(text: &str) -> (chars: Vec<char>)
    ensures
        chars@ == text@,
{
    let mut chars: Vec<char> = Vec::new();
    for c in it: text.chars()
        invariant
            chars@ == text@.take(it.index() as int),
            it.seq() == text@,
    {
        chars.push(c);
        proof {
            assert(chars@ =~= text@.take(it.index() + 1));
        }
    }
    proof {
        assert(chars@ =~= text@);
    }
    chars
}

/// The characters of `chars` from `from` up to `to`, as a string.
pub fn string_of(chars: &Vec<char>, from: usize, to: usize) -> (text: String)
    requires
        from <= to <= chars.len(),
    ensures
        text@ == chars@.subrange(from as int, to as int),
{
    let mut text = String::new();
    let mut i: usize = from;
    while i < to
        invariant
            from <= i <= to <= chars.len(),
            text@ == chars@.subrange(from as int, i as int),
        decreases to - i,
    {
        text.push(chars[i]);
        i += 1;
        proof {
            assert(text@ =~= chars@.subrange(from as int, i as int));
        }
    }
    text
}

/// The characters of `chars` from `from` up to `to`.
pub fn part_of(chars: &Vec<char>, from: usize, to: usize) -> (part: Vec<char>)
    requires
        from <= to <= chars.len(),
    ensures
        part@ == chars@.subrange(from as int, to as int),
{
    let mut part: Vec<char> = Vec::new();
    let mut i: usize = from;
    while i < to
        invariant
            from <= i <= to <= chars.len(),
            part@ == chars@.subrange(from as int, i as int),
        decreases to - i,
    {
        part.push(chars[i]);
        i += 1;
        proof {
            assert(part@ =~= chars@.subrange(from as int, i as int));
        }
    }
    part
}

/// The first position at or after `from` that holds no space, or the length
/// of `s` where only spaces follow.
pub open spec fn word_start(s: Seq<char>, from: int) -> int
    decreases s.len() - from,
{
    if 0 <= from < s.len() && is_space(s[from]) {
        word_start(s, from + 1)
    } else {
        from
    }
}

/// The first position at or after `from` that holds a space, or the length
/// of `s` where none follows.
pub open spec fn word_end(s: Seq<char>, from: int) -> int
    decreases s.len() - from,
{
    if 0 <= from < s.len() && !is_space(s[from]) {
        word_end(s, from + 1)
    } else {
        from
    }
}

/// Where the first word at or after `from` begins and ends, or `None` where
/// only spaces follow. A word is a longest run of characters that are no
/// spaces.
pub open spec fn next_word(s: Seq<char>, from: int) -> Option<(int, int)> {
    let start = word_start(s, from);
    if start >= s.len() {
        None
    } else {
        Some((start, word_end(s, start)))
    }
}

/// Finds the first word at or after `from`.
pub fn find_word(chars: &Vec<char>, from: usize) -> (found: Option<(usize, usize)>)
    requires
        from <= chars.len(),
    ensures
        match found {
            Some((start, end)) => {
                &&& next_word(chars@, from as int) == Some((start as int, end as int))
                &&& from <= start < end <= chars.len()
            },
            None => next_word(chars@, from as int) is None,
        },
{
    let mut start: usize = from;
    while start < chars.len() && chars[start].is_whitespace()
        invariant
            from <= start <= chars.len(),
            word_start(chars@, from as int) == word_start(chars@, start as int),
        decreases chars.len() - start,
    {
        start += 1;
    }
    if start >= chars.len() {
        return None;
    }
    let mut end: usize = start + 1;
    while end < chars.len() && !chars[end].is_whitespace()
        invariant
            start < end <= chars.len(),
            word_end(chars@, start as int) == word_end(chars@, end as int),
        decreases chars.len() - end,
    {
        end += 1;
    }
    Some((start, end))
}

/// Whether the arrow ` -> ` stands at position `at` of `s`.
pub open spec fn arrow_at(s: Seq<char>, at: int) -> bool {
    &&& 0 <= at
    &&& at + 4 <= s.len()
    &&& s[at] == ' '
    &&& s[at + 1] == '-'
    &&& s[at + 2] == '>'
    &&& s[at + 3] == ' '
}

/// The position of the first arrow at or after `from`, or the length of `s`
/// where there is none.
pub open spec fn first_arrow(s: Seq<char>, from: int) -> int
    decreases s.len() - from,
{
    if from < 0 || from + 4 > s.len() {
        s.len() as int
    } else if arrow_at(s, from) {
        from
    } else {
        first_arrow(s, from + 1)
    }
}

/// Finds the first arrow at or after `from`.
pub fn find_arrow(chars: &Vec<char>, from: usize) -> (at: usize)
    requires
        from <= chars.len(),
    ensures
        at == first_arrow(chars@, from as int),
        at == chars.len() || (from <= at && at + 4 <= chars.len()),
{
    let len: usize = chars.len();
    if len < 4 {
        return len;
    }
    let mut at: usize = from;
    while at <= len - 4
        invariant
            len == chars.len(),
            len >= 4,
            from <= at <= len,
            first_arrow(chars@, from as int) == first_arrow(chars@, at as int),
        decreases len - at,
    {
        if chars[at] == ' ' && chars[at + 1] == '-' && chars[at + 2] == '>' && chars[at + 3]
            == ' ' {
            return at;
        }
        at += 1;
    }
    len
}

/// The position of the first line feed at or after `from`, or the length of
/// `s` where there is none.
pub open spec fn line_end(s: Seq<char>, from: int) -> int
    decreases s.len() - from,
{
    if 0 <= from < s.len() && s[from] != '\n' {
        line_end(s, from + 1)
    } else {
        from
    }
}

/// The end of a line lies at or after its beginning, and within the text.
pub proof fn lemma_line_end_bounds(s: Seq<char>, from: int)
    requires
        0 <= from <= s.len(),
    ensures
        from <= line_end(s, from) <= s.len(),
    decreases s.len() - from,
{
    if from < s.len() && s[from] != '\n' {
        lemma_line_end_bounds(s, from + 1);
    }
}

/// Where the text of the line that begins at `from` ends: at its line feed,
/// or one before it where a carriage return stands there. A last line
/// without a line feed keeps its carriage return.
pub open spec fn line_text_end(s: Seq<char>, from: int) -> int {
    let end = line_end(s, from);
    if from < end < s.len() && s[end - 1] == '\r' {
        end - 1
    } else {
        end
    }
}

/// The lines of `s` from position `from` on, each without its line ending.
/// What follows the last line feed is a line only if it is not empty.
pub open spec fn lines_from(s: Seq<char>, from: int) -> Seq<Seq<char>>
    decreases s.len() - from,
    via lines_from_decreases
{
    if from < 0 || from >= s.len() {
        Seq::empty()
    } else {
        seq![s.subrange(from, line_text_end(s, from))] + (if line_end(s, from) < s.len() {
            lines_from(s, line_end(s, from) + 1)
        } else {
            Seq::empty()
        })
    }
}

#[via_fn]
proof fn lines_from_decreases(s: Seq<char>, from: int) {
    if 0 <= from < s.len() {
        lemma_line_end_bounds(s, from);
    }
}

/// The lines of `s`.
pub open spec fn lines_of(s: Seq<char>) -> Seq<Seq<char>> {
    lines_from(s, 0)
}

/// Finds the end of the line that begins at `from`: the position of its line
/// feed, or the length of the text.
pub fn find_line_end(chars: &Vec<char>, from: usize) -> (end: usize)
    requires
        from <= chars.len(),
    ensures
        end == line_end(chars@, from as int),
        from <= end <= chars.len(),
{
    let mut end: usize = from;
    while end < chars.len() && chars[end] != '\n'
        invariant
            from <= end <= chars.len(),
            line_end(chars@, from as int) == line_end(chars@, end as int),
        decreases chars.len() - end,
    {
        end += 1;
    }
    end
}

} // verus!
