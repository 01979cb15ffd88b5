//! Questions about text that the rest of the library asks.
use vstd::prelude::*;

verus! {

/// Whether `s` begins with `prefix`.
pub open spec fn begins_with(s: Seq<char>, prefix: Seq<char>) -> bool {
    prefix.len() <= s.len() && s.subrange(0, prefix.len() as int) == prefix
}

/// Whether `part` occurs in `s` at position `at`.
pub open spec fn occurs_at(s: Seq<char>, part: Seq<char>, at: int) -> bool {
    0 <= at && at + part.len() <= s.len() && s.subrange(at, at + part.len()) == part
}

/// Whether `part` occurs somewhere in `s`.
pub open spec fn occurs_in(s: Seq<char>, part: Seq<char>) -> bool {
    exists|at: int| occurs_at(s, part, at)
}

/// The characters of each string, in order.
pub open spec fn texts(strings: Seq<String>) -> Seq<Seq<char>> {
    strings.map_values(|s: String| s@)
}

/// Whether `a` and `b` hold the same characters.
pub fn same_text(a: &str, b: &str) -> (same: bool)
    ensures
        same == (a@ == b@),
{
    a.to_owned() == b.to_owned()
}

/// The characters of `s`.
fn chars_of(s: &str) -> (chars: Vec<char>)
    ensures
        chars@ == s@,
{
    let mut chars: Vec<char> = Vec::new();
    for c in it: s.chars()
        invariant
            it.seq() == s@,
            chars@ == s@.take(it.index()),
    {
        chars.push(c);
    }
    chars
}

/// Whether `part` stands in `whole` at position `at`.
fn matches_at(whole: &Vec<char>, part: &Vec<char>, at: usize) -> (found: bool)
    requires
        at + part@.len() <= whole@.len(),
    ensures
        found == occurs_at(whole@, part@, at as int),
{
    let mut i: usize = 0;
    while i < part.len()
        invariant
            i <= part@.len(),
            at + part@.len() <= whole.len(),
            forall|k: int| 0 <= k < i ==> whole@[at + k] == #[trigger] part@[k],
        decreases part@.len() - i,
    {
        if whole[at + i] != part[i] {
            return false;
        }
        i = i + 1;
    }
    assert(whole@.subrange(at as int, at + part@.len()) =~= part@);
    true
}

/// Whether `s` begins with `prefix`.
pub fn starts_with(s: &str, prefix: &str) -> (found: bool)
    ensures
        found == begins_with(s@, prefix@),
{
    let whole: Vec<char> = chars_of(s);
    let part: Vec<char> = chars_of(prefix);
    part.len() <= whole.len() && matches_at(&whole, &part, 0)
}

/// Whether `part` occurs somewhere in `s`.
pub fn contains(s: &str, part: &str) -> (found: bool)
    ensures
        found == occurs_in(s@, part@),
{
    let whole: Vec<char> = chars_of(s);
    let wanted: Vec<char> = chars_of(part);
    let mut rest: usize = whole.len();
    while rest >= wanted.len()
        invariant
            whole@ == s@,
            wanted@ == part@,
            rest <= whole@.len(),
            forall|at: int| 0 <= at < whole@.len() - rest ==> !occurs_at(whole@, wanted@, at),
        decreases rest,
    {
        if matches_at(&whole, &wanted, whole.len() - rest) {
            return true;
        }
        if rest == 0 {
            return false;
        }
        rest = rest - 1;
    }
    false
}

/// Whether `wanted` is one of `strings`.
pub fn is_listed(strings: &Vec<String>, wanted: &str) -> (found: bool)
    ensures
        found == texts(strings@).contains(wanted@),
{
    let mut i: usize = 0;
    while i < strings.len()
        invariant
            i <= strings@.len(),
            forall|k: int| 0 <= k < i ==> texts(strings@)[k] != wanted@,
        decreases strings@.len() - i,
    {
        if same_text(strings[i].as_str(), wanted) {
            assert(texts(strings@)[i as int] == wanted@);
            return true;
        }
        i = i + 1;
    }
    false
}

/// To begin with a prefix is to be the prefix and something after it.
pub proof fn law_text_with_a_prefix_begins_with_it(
    s: Seq<char>,
    prefix: Seq<char>,
    rest: Seq<char>,
)
    ensures
        begins_with(prefix + rest, prefix),
        begins_with(s, prefix) ==> exists|after: Seq<char>| s == #[trigger] (prefix + after),
{
    assert((prefix + rest).subrange(0, prefix.len() as int) =~= prefix);
    if begins_with(s, prefix) {
        assert(s =~= prefix + s.skip(prefix.len() as int));
    }
}

/// A part occurs in a text wherever it stands in it, and where it occurs it stands.
pub proof fn law_a_part_occurs_wherever_it_stands(
    s: Seq<char>,
    before: Seq<char>,
    part: Seq<char>,
    after: Seq<char>,
)
    ensures
        occurs_in(before + part + after, part),
        occurs_in(s, part) ==> exists|head: Seq<char>, tail: Seq<char>|
            s == #[trigger] (head + part + tail),
{
    let whole = before + part + after;
    let at = before.len() as int;
    assert(whole.subrange(at, at + part.len()) =~= part);
    assert(occurs_at(whole, part, at));
    if occurs_in(s, part) {
        let at = choose|at: int| occurs_at(s, part, at);
        assert(s =~= s.take(at) + part + s.skip(at + part.len())) by {
            assert forall|k: int| 0 <= k < part.len() implies s[at + k] == part[k] by {
                assert(s.subrange(at, at + part.len())[k] == part[k]);
            }
        }
    }
}

/// Each string is shown by its characters, where it stands.
pub proof fn law_strings_are_shown_in_place(strings: Seq<String>)
    ensures
        texts(strings).len() == strings.len(),
        forall|i: int| 0 <= i < strings.len() ==> #[trigger] texts(strings)[i] == strings[i]@,
{
}

} // verus!
