//! Names and arguments for showing a comic on the lock screen.
pub mod comic;

use vstd::prelude::*;
use vstd::string::StringExecFns;

verus! {

/// Whether a character is a letter or a number, as `char::is_alphanumeric`
/// has it.
pub uninterp spec fn is_alphanumeric_char(c: char) -> bool;

/// `char::is_alphanumeric` tells whether a character is a letter or a
/// number.
pub assume_specification[ char::is_alphanumeric ](c: char) -> (alphanumeric: bool)
    ensures
        alphanumeric == is_alphanumeric_char(c),
;

/// Whether a character may stand in a file name: letters, numbers and the
/// space may.
pub open spec fn is_safe(c: char) -> bool {
    is_alphanumeric_char(c) || c == ' '
}

/// The characters of `text` that may stand in a file name, in their order.
pub open spec fn safe_chars(text: Seq<char>) -> Seq<char>
    decreases text.len(),
{
    if text.len() == 0 {
        Seq::empty()
    } else if is_safe(text.last()) {
        safe_chars(text.drop_last()).push(text.last())
    } else {
        safe_chars(text.drop_last())
    }
}

/// Whether the character `c` may stand in a file name, given whether it is
/// a letter or a number.
pub fn is_safe_char(c: char, alphanumeric: bool) -> (safe: bool)
    ensures
        safe == (alphanumeric || c == ' '),
{
    alphanumeric || c == ' '
}

/// `value` without the characters that may not stand in a file name.
pub fn safe_path(value: &str) -> (path: String)
    ensures
        path@ == safe_chars(value@),
{
    let mut path = String::new();
    for c in it: value.chars()
        invariant
            it.seq() == value@,
            path@ == safe_chars(value@.take(it.index() as int)),
    {
        proof {
            assert(value@.take(it.index() + 1).drop_last() =~= value@.take(it.index() as int));
        }
        if is_safe_char(c, c.is_alphanumeric()) {
            path.push(c);
        }
    }
    proof {
        assert(value@.take(value@.len() as int) =~= value@);
    }
    path
}

/// Whether `order` lists the places of the displays widest first, and
/// displays of one width in the order in which they were given. There is
/// one such list for any displays.
pub open spec fn is_widest_first(order: Seq<int>, outputs: Seq<(String, u32)>) -> bool {
    &&& order.len() == outputs.len()
    &&& forall|k: int| 0 <= k < order.len() ==> 0 <= #[trigger] order[k] < outputs.len()
    &&& forall|i: int, j: int|
        0 <= i < j < order.len() ==> {
            let first = outputs[#[trigger] order[i]];
            let second = outputs[#[trigger] order[j]];
            first.1 > second.1 || (first.1 == second.1 && order[i] < order[j])
        }
}

/// Whether `names` are the names of the displays, the widest first, and
/// displays of one width in the order in which they were given.
pub open spec fn are_names_by_width(names: Seq<String>, outputs: Seq<(String, u32)>) -> bool {
    exists|order: Seq<int>|
        {
            &&& is_widest_first(order, outputs)
            &&& names.len() == order.len()
            &&& forall|k: int| 0 <= k < names.len() ==> #[trigger] names[k] == outputs[order[k]].0
        }
}

/// The names of the displays, each given with its width, the widest first.
pub fn names_by_width(outputs: Vec<(String, u32)>) -> (names: Vec<String>)
    ensures
        are_names_by_width(names@, outputs@),
{
    let ghost given = outputs@;
    let mut sorted: Vec<(String, u32)> = Vec::new();
    let ghost mut order: Seq<int> = Seq::empty();
    for output in it: outputs
        invariant
            it.seq() == given,
            sorted.len() == it.index(),
            order.len() == it.index(),
            forall|k: int| 0 <= k < order.len() ==> 0 <= #[trigger] order[k] < it.index(),
            forall|k: int| 0 <= k < order.len() ==> #[trigger] sorted[k] == given[order[k]],
            forall|i: int, j: int|
                0 <= i < j < order.len() ==> {
                    let first = given[#[trigger] order[i]];
                    let second = given[#[trigger] order[j]];
                    first.1 > second.1 || (first.1 == second.1 && order[i] < order[j])
                },
    {
        let mut place: usize = 0;
        while place < sorted.len() && sorted[place].1 >= output.1
            invariant
                place <= sorted.len(),
                forall|k: int| 0 <= k < place ==> (#[trigger] sorted[k]).1 >= output.1,
            decreases sorted.len() - place,
        {
            place += 1;
        }
        let ghost before = order;
        let ghost kept = sorted@;
        let ghost at = place as int;
        let ghost new = it.index();
        sorted.insert(place, output);
        proof {
            order = order.insert(at, new);
            assert(output == given[new]);
            assert forall|k: int| 0 <= k < order.len() implies #[trigger] sorted[k]
                == given[order[k]] by {
                if k < at {
                    assert(sorted[k] == kept[k]);
                } else if k > at {
                    assert(sorted[k] == kept[k - 1]);
                }
            }
            assert forall|i: int, j: int| 0 <= i < j < order.len() implies {
                let first = given[#[trigger] order[i]];
                let second = given[#[trigger] order[j]];
                first.1 > second.1 || (first.1 == second.1 && order[i] < order[j])
            } by {
                if j < at {
                    assert(order[i] == before[i] && order[j] == before[j]);
                } else if j == at {
                    assert(order[i] == before[i]);
                    assert(kept[i] == given[before[i]]);
                    assert(kept[i].1 >= output.1);
                } else if i < at {
                    assert(order[i] == before[i] && order[j] == before[j - 1]);
                } else if i == at {
                    assert(order[j] == before[j - 1]);
                    assert(kept[at] == given[before[at]]);
                    assert(kept[at].1 < output.1);
                    if at < j - 1 {
                        assert(given[before[at]].1 >= given[before[j - 1]].1);
                    }
                } else {
                    assert(order[i] == before[i - 1] && order[j] == before[j - 1]);
                }
            }
        }
    }
    let mut names: Vec<String> = Vec::new();
    for output in it: sorted
        invariant
            names.len() == it.index(),
            forall|k: int| 0 <= k < names.len() ==> #[trigger] names[k] == it.seq()[k].0,
    {
        names.push(output.0);
    }
    proof {
        assert(is_widest_first(order, given));
    }
    names
}

/// The argument that shows `image` on `display`.
pub open spec fn image_on(display: Seq<char>, image: Seq<char>) -> Seq<char> {
    display + seq![':'] + image
}

/// Whether `args` show `file` on the first display and `background` on
/// every other one: for each display, in order, the flag `-i` and then the
/// display with its image.
pub open spec fn shows_on_displays(
    args: Seq<String>,
    displays: Seq<String>,
    file: Seq<char>,
    background: Seq<char>,
) -> bool {
    &&& args.len() == 2 * displays.len()
    &&& forall|i: int| 0 <= i < displays.len() ==> (#[trigger] args[2 * i])@ == "-i"@
    &&& forall|i: int|
        0 <= i < displays.len() ==> (#[trigger] args[2 * i + 1])@ == image_on(
            displays[i]@,
            if i == 0 {
                file
            } else {
                background
            },
        )
}

/// The arguments that tell the screen locker what to show where: `file` on
/// the first display, `background` on the others.
pub fn monitor_args(displays: &Vec<String>, file: &str, background: &str) -> (args: Vec<String>)
    requires
        displays.len() > 0,
    ensures
        shows_on_displays(args@, displays@, file@, background@),
{
    let mut args: Vec<String> = Vec::new();
    let mut i: usize = 0;
    while i < displays.len()
        invariant
            i <= displays.len(),
            args.len() == 2 * i,
            forall|k: int| 0 <= k < i ==> (#[trigger] args[2 * k])@ == "-i"@,
            forall|k: int|
                0 <= k < i ==> (#[trigger] args[2 * k + 1])@ == image_on(
                    displays[k]@,
                    if k == 0 {
                        file@
                    } else {
                        background@
                    },
                ),
        decreases displays.len() - i,
    {
        let mut shown = displays[i].clone();
        shown.push(':');
        if i == 0 {
            shown.append(file);
        } else {
            shown.append(background);
        }
        let ghost before = args@;
        args.push(String::from_str("-i"));
        args.push(shown);
        proof {
            assert forall|k: int| 0 <= k < i + 1 implies (#[trigger] args[2 * k])@ == "-i"@ by {
                if k < i {
                    assert(args[2 * k] == before[2 * k]);
                }
            }
            assert forall|k: int| 0 <= k < i + 1 implies (#[trigger] args[2 * k + 1])@
                == image_on(
                displays[k]@,
                if k == 0 {
                    file@
                } else {
                    background@
                },
            ) by {
                if k < i {
                    assert(args[2 * k + 1] == before[2 * k + 1]);
                } else {
                    assert(shown@ =~= image_on(
                        displays[k]@,
                        if k == 0 {
                            file@
                        } else {
                            background@
                        },
                    ));
                }
            }
        }
        i += 1;
    }
    args
}

} // verus!
