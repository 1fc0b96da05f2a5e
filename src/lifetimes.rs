//! Functions and types that hand out parts of borrowed text.
use vstd::prelude::*;
use vstd::utf8::encode_utf8;

verus! {

/// The longer of two texts by byte length; `y` when they are equally long.
pub fn longest<'a>(x: &'a str, y: &'a str) -> (r: &'a str)
    ensures
        r@ == (if encode_utf8(x@).len() as usize > encode_utf8(y@).len() as usize {
            x@
        } else {
            y@
        }),
{
    if x.len() > y.len() {
        x
    } else {
        y
    }
}

/// Always the first text.
pub fn longest1<'a>(x: &'a str, y: &str) -> (r: &'a str)
    ensures
        r@ == x@,
{
    x
}

/// An excerpt borrowed from a longer text.
pub struct ImportantExcept<'a> {
    pub part: &'a str,
}

impl<'a> ImportantExcept<'a> {
    pub fn level(&self) -> (r: i32)
        ensures
            r == 3,
    {
        3
    }

    /// The excerpt itself, whatever the announcement.
    pub fn announce_and_return_part(&self, announcement: &str) -> (r: &'a str)
        ensures
            r@ == self.part@,
    {
        self.part
    }
}

} // verus!
