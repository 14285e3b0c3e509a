//! Building blocks for text: character replacement, repetition, and the two
//! facts about `std` strings that the rest of the crate relies on.

use vstd::prelude::*;
use vstd::string::StringExecFns;

verus! {

/// `String::push` of the standard library: the character is appended at the
/// end of the string, and nothing else changes.
pub assume_specification[ String::push ](s: &mut String, c: char)
    ensures
        final(s)@ == old(s)@.push(c),
;

/// `eq` of the standard library on string slices, which is their `==`: two
/// slices are equal exactly when they hold the same characters.
pub assume_specification[ <str as PartialEq>::eq ](a: &str, b: &str) -> (r: bool)
    ensures
        r == (a@ == b@),
;

/// `s` with every character that occurs in `from` replaced by `to`.
pub open spec fn replace_any(s: Seq<char>, from: Seq<char>, to: char) -> Seq<char> {
    s.map_values(|c: char| if from.contains(c) { to } else { c })
}

/// The strings of a list, each as its characters.
pub open spec fn texts(strings: Seq<String>) -> Seq<Seq<char>> {
    strings.map_values(|s: String| s@)
}

/// `n` copies of `unit`, one after the other.
pub open spec fn repeat(unit: Seq<char>, n: nat) -> Seq<char>
    decreases n,
{
    if n == 0 {
        Seq::empty()
    } else {
        repeat(unit, (n - 1) as nat) + unit
    }
}

/// Whether `c` is one of the characters of `set`.
pub fn contains_char(set: &[char], c: char) -> (found: bool)
    ensures
        found == set@.contains(c),
{
    let mut i: usize = 0;
    while i < set.len()
        invariant
            i <= set.len(),
            forall|j: int| 0 <= j < i ==> set@[j] != c,
        decreases set.len() - i,
    {
        if set[i] == c {
            return true;
        }
        i += 1;
    }
    false
}

/// A copy of `s` in which every character of `from` has become `to`.
pub fn replace_chars(s: &str, from: &[char], to: char) -> (replaced: String)
    ensures
        replaced@ == replace_any(s@, from@, to),
{
    let mut replaced = String::new();
    for c in it: s.chars()
        invariant
            it.seq() == s@,
            replaced@ == replace_any(s@.take(it.index() as int), from@, to),
    {
        proof {
            assert(s@.take(it.index() + 1) =~= s@.take(it.index() as int).push(c));
        }
        if contains_char(from, c) {
            replaced.push(to);
        } else {
            replaced.push(c);
        }
    }
    proof {
        assert(s@.take(s@.len() as int) =~= s@);
    }
    replaced
}

/// `n` copies of `unit` in one string.
pub fn repeat_str(unit: &str, n: usize) -> (repeated: String)
    ensures
        repeated@ == repeat(unit@, n as nat),
{
    let mut repeated = String::new();
    let mut i: usize = 0;
    while i < n
        invariant
            i <= n,
            repeated@ == repeat(unit@, i as nat),
        decreases n - i,
    {
        repeated.append(unit);
        i += 1;
    }
    repeated
}

} // verus!
