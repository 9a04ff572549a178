//! Characters and substring containment.
//!
//! Device matching and name sanitization work character-wise; this module
//! turns strings into character vectors the verified logic can index, and
//! proves the substring-containment test that device matching is built on.

use vstd::prelude::*;

verus! {

broadcast use vstd::string::axiom_spec_iter;

/// The characters of `s`, as a vector the verified logic can index.
pub fn chars_of_str(s: &str) -> (v: Vec<char>)
    ensures
        v@ == s@,
{
    let mut v: Vec<char> = Vec::new();
    for c in it: s.chars()
        invariant
            it.seq() == s@,
            v@ == it.seq().take(it.index() as int),
    {
        v.push(c);
    }
    proof {
        assert(v@ =~= s@);
    }
    v
}

/// Relies on String's FromIterator<char> impl: collecting characters
/// concatenates exactly those characters, in order.
#[verifier::external_body]
pub fn string_of_chars(v: &Vec<char>) -> (s: String)
    ensures
        s@ == v@,
{
    v.iter().collect()
}

/// `needle` occurs contiguously somewhere inside `hay`.
pub open spec fn seq_contains(hay: Seq<char>, needle: Seq<char>) -> bool {
    exists|i: int|
        0 <= i && i + needle.len() <= hay.len() && #[trigger] hay.subrange(
            i,
            i + needle.len() as int,
        ) == needle
}

fn matches_at(hay: &Vec<char>, needle: &Vec<char>, at: usize) -> (b: bool)
    requires
        at + needle@.len() <= hay@.len(),
    ensures
        b == (hay@.subrange(at as int, at + needle@.len()) == needle@),
{
    let mut k: usize = 0;
    while k < needle.len()
        invariant
            0 <= k <= needle@.len(),
            at + needle@.len() <= hay@.len(),
            forall|j: int| 0 <= j < k ==> hay@[at + j] == needle@[j],
        decreases needle@.len() - k,
    {
        proof {
            assert(hay.len() == hay@.len());
            assert(at + k < hay@.len());
        }
        if hay[at + k] != needle[k] {
            proof {
                assert(hay@.subrange(at as int, at + needle@.len())[k as int] != needle@[k as int]);
            }
            return false;
        }
        k = k + 1;
    }
    proof {
        assert(hay@.subrange(at as int, at + needle@.len()) =~= needle@);
    }
    true
}

/// Containment test behind `seq_contains`: a straight scan of every
/// possible start position.
pub fn chars_contain(hay: &Vec<char>, needle: &Vec<char>) -> (b: bool)
    ensures
        b == seq_contains(hay@, needle@),
{
    if needle.len() > hay.len() {
        return false;
    }
    let bound: usize = hay.len() - needle.len();
    let mut i: usize = 0;
    loop
        invariant
            needle@.len() <= hay@.len(),
            bound == hay@.len() - needle@.len(),
            0 <= i <= bound,
            forall|j: int|
                0 <= j < i ==> #[trigger] hay@.subrange(j, j + needle@.len()) != needle@,
        ensures
            forall|j: int|
                0 <= j <= bound ==> #[trigger] hay@.subrange(j, j + needle@.len()) != needle@,
        decreases bound - i,
    {
        if matches_at(hay, needle, i) {
            return true;
        }
        if i == bound {
            break;
        }
        i = i + 1;
    }
    false
}

/// The loose, bidirectional device-name match: the device's name contains
/// the query, or the query contains the device's name.
pub open spec fn spec_names_match(device: Seq<char>, query: Seq<char>) -> bool {
    seq_contains(device, query) || seq_contains(query, device)
}

/// Decide whether a device's friendly name matches a caller-supplied query.
pub fn names_match(device: &str, query: &str) -> (b: bool)
    ensures
        b == spec_names_match(device@, query@),
{
    let d = chars_of_str(device);
    let q = chars_of_str(query);
    if chars_contain(&d, &q) {
        true
    } else {
        chars_contain(&q, &d)
    }
}

} // verus!
