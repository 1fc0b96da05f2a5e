//! Moving, borrowing and slicing strings.
use vstd::prelude::*;
use vstd::utf8::encode_utf8;

verus! {

/// `w` is the part of `s` before its first space (all of `s` when it has none).
pub open spec fn is_first_word(s: Seq<char>, w: Seq<char>) -> bool {
    &&& w.len() <= s.len()
    &&& w == s.subrange(0, w.len() as int)
    &&& !w.contains(' ')
    &&& w.len() < s.len() ==> s[w.len() as int] == ' '
}

/// The text of `s` up to its first space.
pub fn first_word(s: &str) -> (r: &str)
    ensures
        is_first_word(s@, r@),
{
    let n = s.unicode_len();
    let mut i: usize = 0;
    while i < n
        invariant
            n == s@.len(),
            i <= n,
            forall|k: int| 0 <= k < i ==> s@[k] != ' ',
        ensures
            i <= n,
            forall|k: int| 0 <= k < i ==> s@[k] != ' ',
            i < n ==> s@[i as int] == ' ',
        decreases n - i,
    {
        if s.get_char(i) == ' ' {
            break;
        }
        i = i + 1;
    }
    let r = s.substring_char(0, i);
    proof {
        assert forall|k: int| 0 <= k < r@.len() implies r@[k] != ' ' by {
            assert(r@[k] == s@[k]);
        }
    }
    r
}

pub fn no_dangle() -> (r: String)
    ensures
        r@ == "hello"@,
{
    String::from_str("hello")
}

pub fn gives_ownership() -> (r: String)
    ensures
        r@ == "hello"@,
{
    String::from_str("hello")
}

pub fn takes_and_gives_back(a_string: String) -> (r: String)
    ensures
        r@ == a_string@,
{
    a_string
}

/// Appends ", world".
pub fn change2(some_string: &mut String)
    ensures
        final(some_string)@ == old(some_string)@ + ", world"@,
{
    some_string.append(", world");
}

/// Hands `s` back together with its length in bytes.
pub fn calculate_length(s: String) -> (r: (String, usize))
    ensures
        r.0@ == s@,
        r.1 == encode_utf8(s@).len() as usize,
{
    let length = s.as_str().len();
    (s, length)
}

/// Length of `s` in bytes.
pub fn calculate_length2(s: &String) -> (r: usize)
    ensures
        r == encode_utf8(s@).len() as usize,
{
    s.as_str().len()
}

} // verus!
