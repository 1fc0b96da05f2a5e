//! Associated types, name clashes between traits, function values, newtypes and
//! borrowed parsing contexts.
use vstd::prelude::*;
use vstd::utf8::encode_utf8;

verus! {

/// An iterator whose implementor names the type of the items.
pub trait MyIterator {
    type Item;

    fn next(&mut self) -> Option<Self::Item>;
}

/// Counts from 1 to 5.
pub struct Counter {
    count: u32,
}

impl Counter {
    pub closed spec fn spec_count(&self) -> u32 {
        self.count
    }

    pub fn new() -> (r: Counter)
        ensures
            r.spec_count() == 0,
    {
        Counter { count: 0 }
    }
}

impl MyIterator for Counter {
    type Item = u32;

    /// The next number up to 5, then nothing.
    fn next(&mut self) -> (r: Option<u32>)
        ensures
            old(self).spec_count() < 5 ==> final(self).spec_count() == old(self).spec_count() + 1
                && r == Some(final(self).spec_count()),
            old(self).spec_count() >= 5 ==> final(self).spec_count() == old(self).spec_count()
                && r is None,
    {
        if self.count < 5 {
            self.count = self.count + 1;
            return Some(self.count);
        }
        None
    }
}

#[derive(Clone, Copy, Debug, PartialEq, Eq, Structural)]
pub struct Point {
    pub x: i32,
    pub y: i32,
}

impl core::ops::Add for Point {
    type Output = Point;

    /// Adds coordinate by coordinate.
    fn add(self, other: Point) -> (r: Point)
        ensures
            r.x == self.x + other.x,
            r.y == self.y + other.y,
    {
        Point { x: self.x + other.x, y: self.y + other.y }
    }
}

impl vstd::std_specs::ops::AddSpecImpl for Point {
    open spec fn obeys_add_spec() -> bool {
        true
    }

    /// Both sums fit in an `i32`.
    open spec fn add_req(self, other: Point) -> bool {
        i32::MIN <= self.x + other.x <= i32::MAX && i32::MIN <= self.y + other.y <= i32::MAX
    }

    open spec fn add_spec(self, other: Point) -> Point {
        Point { x: (self.x + other.x) as i32, y: (self.y + other.y) as i32 }
    }
}

/// A length in millimetres.
#[derive(Clone, Copy, Debug, PartialEq, Eq, Structural)]
pub struct Millimeters(pub u32);

/// A length in metres.
#[derive(Clone, Copy, Debug, PartialEq, Eq, Structural)]
pub struct Meters(pub u32);

impl core::ops::Add<Meters> for Millimeters {
    type Output = Millimeters;

    fn add(self, other: Meters) -> (r: Millimeters)
        ensures
            r.0 == self.0 + other.0 * 1000,
    {
        Millimeters(self.0 + other.0 * 1000)
    }
}

impl vstd::std_specs::ops::AddSpecImpl<Meters> for Millimeters {
    open spec fn obeys_add_spec() -> bool {
        true
    }

    /// The total fits in a `u32`.
    open spec fn add_req(self, other: Meters) -> bool {
        self.0 + other.0 * 1000 <= u32::MAX
    }

    open spec fn add_spec(self, other: Meters) -> Millimeters {
        Millimeters((self.0 + other.0 * 1000) as u32)
    }
}

pub trait Animal {
    fn baby_name() -> String;
}

pub struct Dog;

impl Dog {
    pub fn baby_name() -> (r: String)
        ensures
            r@ == "Spot"@,
    {
        String::from_str("Spot")
    }
}

impl Animal for Dog {
    fn baby_name() -> (r: String)
        ensures
            r@ == "puppy"@,
    {
        String::from_str("puppy")
    }
}

/// The sum of two calls of `f` on `arg`.
pub fn do_twice<F: Fn(i32) -> i32>(f: F, arg: i32) -> (r: i32)
    requires
        call_requires(f, (arg,)),
        forall|a: i32, b: i32|
            call_ensures(f, (arg,), a) && call_ensures(f, (arg,), b) ==> i32::MIN <= a + b
                <= i32::MAX,
    ensures
        exists|a: i32, b: i32|
            call_ensures(f, (arg,), a) && call_ensures(f, (arg,), b) && r == a + b,
{
    let a = f(arg);
    let b = f(arg);
    a + b
}

/// A list of texts that reads as `[a, b, c]`.
pub struct Wrapper(pub Vec<String>);

/// The texts of `parts` separated by `", "`.
pub open spec fn joined(parts: Seq<Seq<char>>) -> Seq<char>
    decreases parts.len(),
{
    if parts.len() == 0 {
        Seq::empty()
    } else if parts.len() == 1 {
        parts[0]
    } else {
        joined(parts.drop_last()) + ", "@ + parts.last()
    }
}

impl Wrapper {
    /// `"[" + the entries joined by ", " + "]"`.
    pub fn to_string(&self) -> (r: String)
        ensures
            r@ == "["@ + joined(self.0@.map_values(|s: String| s@)) + "]"@,
    {
        let ghost parts = self.0@.map_values(|s: String| s@);
        let mut r = String::from_str("[");
        let mut i: usize = 0;
        while i < self.0.len()
            invariant
                parts == self.0@.map_values(|s: String| s@),
                i <= self.0@.len(),
                r@ == "["@ + joined(parts.subrange(0, i as int)),
            decreases self.0@.len() - i,
        {
            proof {
                assert(parts.subrange(0, i + 1).drop_last() =~= parts.subrange(0, i as int));
            }
            if i > 0 {
                r.append(", ");
            }
            r.append(self.0[i].as_str());
            proof {
                if i == 0 {
                    assert(joined(parts.subrange(0, 0)) =~= Seq::<char>::empty());
                }
                assert(r@ =~= "["@ + joined(parts.subrange(0, i + 1)));
            }
            i = i + 1;
        }
        proof {
            assert(parts.subrange(0, self.0@.len() as int) =~= parts);
        }
        r.append("]");
        r
    }
}

/// Text that a [`Parser`] reads.
pub struct Context<'s>(pub &'s str);

/// Reads a borrowed [`Context`].
pub struct Parser<'c, 's> {
    pub context: &'c Context<'s>,
}

impl<'c, 's> Parser<'c, 's> {
    /// Always fails, with everything after the first character as the error.
    pub fn parse(&self) -> (r: Result<(), &'s str>)
        requires
            self.context.0@.len() > 0,
            self.context.0@[0] < '\u{80}',
        ensures
            r matches Err(e) && e@ == self.context.0@.drop_first(),
    {
        let s = self.context.0;
        let e = s.substring_char(1, s.unicode_len());
        proof {
            assert(e@ =~= s@.drop_first());
        }
        Err(e)
    }
}

/// Parses `context` once.
pub fn parse_context(context: Context) -> (r: Result<(), &str>)
    requires
        context.0@.len() > 0,
        context.0@[0] < '\u{80}',
    ensures
        r matches Err(e) && e@ == context.0@.drop_first(),
{
    Parser { context: &context }.parse()
}

/// A borrowed text in a tuple struct.
pub struct StrWrap<'a>(pub &'a str);

pub fn foo(string: &str) -> (r: StrWrap<'_>)
    ensures
        r.0@ == string@,
{
    StrWrap(string)
}

/// `n` copies of `c`.
pub open spec fn repeated(c: char, n: nat) -> Seq<char> {
    Seq::new(n, |i: int| c)
}

fn repeat_char(c: &str, n: usize) -> (r: String)
    requires
        c@.len() == 1,
    ensures
        r@ == repeated(c@[0], n as nat),
{
    let mut r = String::new();
    let mut i: usize = 0;
    while i < n
        invariant
            c@.len() == 1,
            i <= n,
            r@ == repeated(c@[0], i as nat),
        decreases n - i,
    {
        r.append(c);
        i = i + 1;
        assert(r@ =~= repeated(c@[0], i as nat));
    }
    r
}

/// The five lines that frame `text` in a border of stars, one space from the text;
/// the border is as wide as the text's length in bytes plus four.
pub fn outline(text: &str) -> (r: Vec<String>)
    requires
        encode_utf8(text@).len() + 4 <= usize::MAX,
    ensures
        ({
            let len = encode_utf8(text@).len();
            let border = repeated('*', len + 4);
            let blank = seq!['*'] + repeated(' ', len + 2) + seq!['*'];
            &&& r@.len() == 5
            &&& r@[0]@ == border
            &&& r@[1]@ == blank
            &&& r@[2]@ == "* "@ + text@ + " *"@
            &&& r@[3]@ == blank
            &&& r@[4]@ == border
        }),
{
    let len = text.len();
    proof {
        reveal_strlit("*");
        reveal_strlit(" ");
    }
    let border = repeat_char("*", len + 4);
    let mut blank = String::from_str("*");
    let spaces = repeat_char(" ", len + 2);
    blank.append(spaces.as_str());
    blank.append("*");
    let mut middle = String::from_str("* ");
    middle.append(text);
    middle.append(" *");
    let mut r: Vec<String> = Vec::new();
    r.push(border.clone());
    r.push(blank.clone());
    r.push(middle);
    r.push(blank);
    r.push(border);
    proof {
        assert(r@[1]@ =~= seq!['*'] + repeated(' ', (encode_utf8(text@).len() + 2) as nat) + seq!['*']);
    }
    r
}

} // verus!
