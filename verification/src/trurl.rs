//! Naming the parts of a URL, and reading and listing what to do with
//! them.
use vstd::prelude::*;
use vstd::string::StringExecFns;

verus! {

/// A part of a URL.
#[derive(Debug, Clone, Copy, PartialEq, Eq, Structural, Hash)]
pub enum Target {
    Fragment,
    Host,
    Password,
    Path,
    Port,
    Query,
    Scheme,
    User,
}

/// The name of a part.
pub open spec fn target_name(target: Target) -> Seq<char> {
    match target {
        Target::Fragment => "fragment"@,
        Target::Host => "host"@,
        Target::Password => "password"@,
        Target::Path => "path"@,
        Target::Port => "port"@,
        Target::Query => "query"@,
        Target::Scheme => "scheme"@,
        Target::User => "user"@,
    }
}

impl Target {
    /// The name of the part.
    pub fn name(&self) -> (name: &'static str)
        ensures
            name@ == target_name(*self),
    {
        match self {
            Target::Fragment => "fragment",
            Target::Host => "host",
            Target::Password => "password",
            Target::Path => "path",
            Target::Port => "port",
            Target::Query => "query",
            Target::Scheme => "scheme",
            Target::User => "user",
        }
    }
}

/// The position of the first `=` at or after `from`, or the length of `s`
/// where there is none.
pub open spec fn first_equals(s: Seq<char>, from: int) -> int
    decreases s.len() - from,
{
    if 0 <= from < s.len() && s[from] != '=' {
        first_equals(s, from + 1)
    } else {
        from
    }
}

/// What stands before and after the first `=` of `s`, or `None` where `s`
/// holds no `=`.
pub open spec fn assignment(s: Seq<char>) -> Option<(Seq<char>, Seq<char>)> {
    let at = first_equals(s, 0);
    if at >= s.len() {
        None
    } else {
        Some((s.subrange(0, at), s.subrange(at + 1, s.len() as int)))
    }
}

/// Parts `text` of the form `url_part=value` at its first `=`.
pub fn split_assignment(text: &str) -> (parts: Option<(String, String)>)
    ensures
        match parts {
            Some((target, value)) => assignment(text@) == Some((target@, value@)),
            None => assignment(text@) is None,
        },
{
    let mut target = String::new();
    let mut value = String::new();
    let mut found = false;
    for c in it: text.chars()
        invariant
            it.seq() == text@,
            !found ==> first_equals(text@, 0) == first_equals(text@, it.index() as int) && target@
                == text@.take(it.index() as int) && value@.len() == 0,
            found ==> 0 <= first_equals(text@, 0) < it.index() && target@ == text@.subrange(
                0,
                first_equals(text@, 0),
            ) && value@ == text@.subrange(first_equals(text@, 0) + 1, it.index() as int),
    {
        if found {
            value.push(c);
            proof {
                assert(value@ =~= text@.subrange(first_equals(text@, 0) + 1, it.index() + 1));
            }
        } else if c == '=' {
            found = true;
            proof {
                assert(text@[it.index() as int] == '=');
                assert(first_equals(text@, it.index() as int) == it.index());
                assert(value@ =~= text@.subrange(first_equals(text@, 0) + 1, it.index() + 1));
                assert(target@ =~= text@.subrange(0, first_equals(text@, 0)));
            }
        } else {
            target.push(c);
            proof {
                assert(target@ =~= text@.take(it.index() + 1));
            }
        }
    }
    if found {
        Some((target, value))
    } else {
        None
    }
}

/// What to set a part of a URL to.
#[derive(Debug)]
pub struct SetAction {
    pub target: Target,
    pub value: String,
}

impl Clone for SetAction {
    fn clone(&self) -> (copy: Self)
        ensures
            copy == *self,
    {
        SetAction { target: self.target, value: self.value.clone() }
    }
}

/// The entries that a listing of parts holds, in the order in which they
/// are put in: the name of each part that has a value that is not empty,
/// with that value.
pub open spec fn part_entries(fetched: Seq<(Target, Option<String>)>) -> Seq<
    (Seq<char>, Seq<char>),
>
    decreases fetched.len(),
{
    if fetched.len() == 0 {
        Seq::empty()
    } else {
        let before = part_entries(fetched.drop_last());
        match fetched.last().1 {
            Some(value) => if value@.len() == 0 {
                before
            } else {
                before.push((target_name(fetched.last().0), value@))
            },
            None => before,
        }
    }
}

/// The names and values of some entries.
pub open spec fn entry_views(entries: Seq<(String, String)>) -> Seq<(Seq<char>, Seq<char>)> {
    entries.map_values(|entry: (String, String)| (entry.0@, entry.1@))
}

/// Lists the URL and its parts: first the whole URL under the name `url`,
/// then each part that has a value that is not empty, under its name.
pub fn extract_entries(url: String, fetched: Vec<(Target, Option<String>)>) -> (entries: Vec<
    (String, String),
>)
    ensures
        entry_views(entries@) == seq![("url"@, url@)] + part_entries(fetched@),
{
    let ghost parts = fetched@;
    let mut entries: Vec<(String, String)> = Vec::new();
    entries.push((String::from_str("url"), url));
    proof {
        assert(parts.take(0) =~= Seq::<(Target, Option<String>)>::empty());
        assert(entry_views(entries@) =~= seq![("url"@, url@)] + part_entries(parts.take(0)));
    }
    for part in it: fetched
        invariant
            it.seq() == parts,
            entry_views(entries@) == seq![("url"@, url@)] + part_entries(
                parts.take(it.index() as int),
            ),
    {
        let ghost before = entries@;
        proof {
            assert(parts.take(it.index() + 1).drop_last() =~= parts.take(it.index() as int));
        }
        if let Some(value) = part.1 {
            if !value.as_str().is_empty() {
                entries.push((String::from_str(part.0.name()), value));
                proof {
                    assert(entry_views(entries@) =~= entry_views(before).push(
                        (target_name(part.0), value@),
                    ));
                    assert(entry_views(entries@) =~= seq![("url"@, url@)] + part_entries(
                        parts.take(it.index() + 1),
                    ));
                }
            }
        }
    }
    proof {
        assert(parts.take(parts.len() as int) =~= parts);
    }
    entries
}

} // verus!
