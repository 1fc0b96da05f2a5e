//! The number-guessing game: a secret between 1 and 100 and a verdict for each
//! guess typed in.
use rand::Rng;
use vstd::prelude::*;

verus! {

/// Relies on `rand::thread_rng` and `Rng::gen_range`: a number in `[low, high)`;
/// `gen_range` panics when `low >= high`.
#[verifier::external_body]
fn random_in_range(low: u32, high: u32) -> (r: u32)
    requires
        low < high,
    ensures
        low <= r < high,
{
    rand::thread_rng().gen_range(low, high)
}

/// A text with its leading and trailing whitespace removed, as the standard library
/// computes it.
pub uninterp spec fn trimmed(s: Seq<char>) -> Seq<char>;

/// Relies on `str::trim`: the result depends on the characters alone.
#[verifier::external_body]
fn trim(s: &str) -> (r: &str)
    ensures
        r@ == trimmed(s@),
{
    s.trim()
}

pub open spec fn is_digit(c: char) -> bool {
    '0' <= c <= '9'
}

/// The number written by the decimal digits `d`.
pub open spec fn digits_value(d: Seq<char>) -> int
    decreases d.len(),
{
    if d.len() == 0 {
        0
    } else {
        digits_value(d.drop_last()) * 10 + (d.last() as int - '0' as int)
    }
}

/// The digits of an unsigned number: the text without one leading `+`.
pub open spec fn unsigned_digits(s: Seq<char>) -> Seq<char> {
    if s.len() > 0 && s[0] == '+' {
        s.drop_first()
    } else {
        s
    }
}

/// The `u32` that `s` writes in decimal, as the standard library reads one: an
/// optional `+`, then one or more digits, with a value that fits.
pub open spec fn decimal_value(s: Seq<char>) -> Option<u32> {
    let d = unsigned_digits(s);
    if d.len() > 0 && (forall|i: int| 0 <= i < d.len() ==> is_digit(d[i])) && digits_value(d)
        <= u32::MAX {
        Some(digits_value(d) as u32)
    } else {
        None
    }
}

/// How a guess compares to the secret.
#[derive(Clone, Copy, Debug, PartialEq, Eq, Structural)]
pub enum Verdict {
    TooSmall,
    TooBig,
    Win,
}

/// Reads a `u32` written in decimal.
pub fn parse_decimal(s: &str) -> (r: Option<u32>)
    ensures
        r == decimal_value(s@),
{
    let n = s.unicode_len();
    let start: usize = if n > 0 && s.get_char(0) == '+' {
        1
    } else {
        0
    };
    let ghost d = unsigned_digits(s@);
    proof {
        assert(d =~= s@.subrange(start as int, n as int));
    }
    if start == n {
        return None;
    }
    let mut value: u64 = 0;
    let mut overflow = false;
    let mut i: usize = start;
    while i < n
        invariant
            n == s@.len(),
            start <= i <= n,
            d == s@.subrange(start as int, n as int),
            d == unsigned_digits(s@),
            forall|k: int| start <= k < i ==> is_digit(s@[k]),
            !overflow ==> value == digits_value(s@.subrange(start as int, i as int)),
            overflow ==> digits_value(s@.subrange(start as int, i as int)) > u32::MAX,
            value <= u32::MAX,
        decreases n - i,
    {
        let c = s.get_char(i);
        if c < '0' || c > '9' {
            proof {
                assert(d[i - start] == c);
                assert(!is_digit(d[i - start]));
            }
            return None;
        }
        let digit = (c as u32 - '0' as u32) as u64;
        proof {
            let p = s@.subrange(start as int, i + 1);
            assert(p.drop_last() =~= s@.subrange(start as int, i as int));
            assert(p.last() == c);
            assert(digits_value(p) >= 0) by {
                lemma_digits_nonnegative(p);
            }
        }
        if !overflow {
            let next = value * 10 + digit;
            if next > u32::MAX as u64 {
                overflow = true;
            } else {
                value = next;
            }
        }
        i = i + 1;
    }
    proof {
        assert(s@.subrange(start as int, n as int) =~= d);
    }
    if overflow {
        None
    } else {
        Some(value as u32)
    }
}

proof fn lemma_digits_nonnegative(d: Seq<char>)
    requires
        forall|i: int| 0 <= i < d.len() ==> is_digit(d[i]),
    ensures
        digits_value(d) >= 0,
    decreases d.len(),
{
    if d.len() > 0 {
        lemma_digits_nonnegative(d.drop_last());
    }
}

/// Reads a guess from a line of input: the trimmed line, read as a `u32`.
pub fn parse_guess(line: &str) -> (r: Option<u32>)
    ensures
        r == decimal_value(trimmed(line@)),
{
    parse_decimal(trim(line))
}

/// The verdict on `guess` when the secret is `secret`.
pub fn judge(guess: u32, secret: u32) -> (r: Verdict)
    ensures
        guess < secret ==> r == Verdict::TooSmall,
        guess > secret ==> r == Verdict::TooBig,
        guess == secret ==> r == Verdict::Win,
{
    if guess < secret {
        Verdict::TooSmall
    } else if guess > secret {
        Verdict::TooBig
    } else {
        Verdict::Win
    }
}

/// A round of the game.
pub struct Game {
    secret: u32,
}

impl Game {
    pub closed spec fn spec_secret(&self) -> u32 {
        self.secret
    }

    /// A round with a fresh secret between 1 and 100.
    pub fn new() -> (r: Game)
        ensures
            1 <= r.spec_secret() <= 100,
    {
        Game { secret: random_in_range(1, 101) }
    }

    /// A round with the given secret.
    pub fn with_secret(secret: u32) -> (r: Game)
        ensures
            r.spec_secret() == secret,
    {
        Game { secret }
    }

    /// The verdict on `guess`.
    pub fn check(&self, guess: u32) -> (r: Verdict)
        ensures
            guess < self.spec_secret() ==> r == Verdict::TooSmall,
            guess > self.spec_secret() ==> r == Verdict::TooBig,
            guess == self.spec_secret() ==> r == Verdict::Win,
    {
        judge(guess, self.secret)
    }
}

} // verus!
