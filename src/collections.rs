//! Statistics of a list of numbers, and Pig Latin.
use vstd::prelude::*;

verus! {

/// Relies on `slice::sort`: the same elements, in ascending order.
#[verifier::external_body]
fn sort_ascending(v: &mut Vec<u32>)
    ensures
        final(v)@.to_multiset() == old(v)@.to_multiset(),
        forall|i: int, j: int| 0 <= i < j < final(v)@.len() ==> final(v)@[i] <= final(v)@[j],
{
    v.sort();
}

pub open spec fn sum_of(s: Seq<u32>) -> int
    decreases s.len(),
{
    if s.len() == 0 {
        0
    } else {
        sum_of(s.drop_last()) + s.last()
    }
}

pub open spec fn is_sorted(s: Seq<u32>) -> bool {
    forall|i: int, j: int| 0 <= i < j < s.len() ==> s[i] <= s[j]
}

/// The middle element of a sorted list, or the mean (rounded down) of the two
/// middle ones when the length is even.
pub open spec fn median_of(s: Seq<u32>) -> int {
    if s.len() % 2 == 0 {
        (s[(s.len() - 1) / 2] + s[(s.len() / 2) as int]) / 2
    } else {
        s[(s.len() / 2) as int] as int
    }
}

/// How many times `x` occurs among the first `n` elements of `s`.
pub open spec fn occurrences(s: Seq<u32>, x: u32, n: int) -> nat
    decreases n,
{
    if n <= 0 {
        0
    } else {
        occurrences(s, x, n - 1) + (if s[n - 1] == x { 1nat } else { 0nat })
    }
}

proof fn lemma_sum_bounded(s: Seq<u32>)
    ensures
        0 <= sum_of(s) <= s.len() * u32::MAX,
    decreases s.len(),
{
    if s.len() > 0 {
        lemma_sum_bounded(s.drop_last());
    }
}

fn count_of(numbers: &Vec<u32>, x: u32) -> (r: u64)
    requires
        numbers@.len() <= u32::MAX,
    ensures
        r == occurrences(numbers@, x, numbers@.len() as int),
{
    let mut c: u64 = 0;
    let mut k: usize = 0;
    while k < numbers.len()
        invariant
            k <= numbers@.len() <= u32::MAX,
            c == occurrences(numbers@, x, k as int),
            c <= k,
        decreases numbers@.len() - k,
    {
        if numbers[k] == x {
            c = c + 1;
        }
        k = k + 1;
    }
    c
}

/// Mean (rounded down), median and a most frequent value of `numbers`; all three
/// are 0 for an empty list.
pub fn number_exercise(numbers: &Vec<u32>) -> (r: (u32, u32, u32))
    requires
        numbers@.len() < u32::MAX,
    ensures
        numbers@.len() == 0 ==> r == (0u32, 0u32, 0u32),
        numbers@.len() > 0 ==> {
            &&& r.0 == sum_of(numbers@) / (numbers@.len() as int)
            &&& exists|s: Seq<u32>|
                is_sorted(s) && s.to_multiset() == numbers@.to_multiset() && r.1 == median_of(s)
            &&& numbers@.contains(r.2)
            &&& forall|i: int|
                0 <= i < numbers@.len() ==> occurrences(numbers@, numbers@[i], numbers@.len() as int)
                    <= occurrences(numbers@, r.2, numbers@.len() as int)
        },
{
    let n = numbers.len();
    if n == 0 {
        return (0, 0, 0);
    }
    let mut num: Vec<u32> = Vec::new();
    let mut k: usize = 0;
    while k < n
        invariant
            n == numbers@.len(),
            k <= n,
            num@ == numbers@.subrange(0, k as int),
        decreases n - k,
    {
        num.push(numbers[k]);
        k = k + 1;
        assert(num@ =~= numbers@.subrange(0, k as int));
    }
    assert(num@ =~= numbers@);
    sort_ascending(&mut num);
    proof {
        assert(num@.len() == n) by {
            num@.to_multiset_ensures();
            numbers@.to_multiset_ensures();
        }
    }
    let median: u32 = if n % 2 == 0 {
        ((num[(n - 1) / 2] as u64 + num[n / 2] as u64) / 2) as u32
    } else {
        num[n / 2]
    };

    let mut sum: u64 = 0;
    k = 0;
    while k < n
        invariant
            n == numbers@.len() < u32::MAX,
            k <= n,
            sum == sum_of(numbers@.subrange(0, k as int)),
        decreases n - k,
    {
        proof {
            let p = numbers@.subrange(0, k + 1);
            assert(p.drop_last() =~= numbers@.subrange(0, k as int));
            lemma_sum_bounded(p);
            assert(p.len() * u32::MAX <= u32::MAX * u32::MAX) by (nonlinear_arith)
                requires p.len() <= u32::MAX;
        }
        sum = sum + numbers[k] as u64;
        k = k + 1;
    }
    assert(numbers@.subrange(0, n as int) =~= numbers@);
    proof {
        lemma_sum_bounded(numbers@);
        assert(sum_of(numbers@) / (n as int) <= u32::MAX) by (nonlinear_arith)
            requires sum_of(numbers@) <= n * u32::MAX, n > 0;
    }
    let mean = (sum / n as u64) as u32;

    let mut mode = numbers[0];
    let mut max_count = count_of(numbers, mode);
    let mut best: usize = 0;
    k = 1;
    while k < n
        invariant
            n == numbers@.len() < u32::MAX,
            1 <= k <= n,
            best < k,
            numbers@[best as int] == mode,
            max_count == occurrences(numbers@, mode, n as int),
            forall|i: int|
                0 <= i < k ==> occurrences(numbers@, numbers@[i], n as int) <= max_count,
        decreases n - k,
    {
        let c = count_of(numbers, numbers[k]);
        if c > max_count {
            max_count = c;
            mode = numbers[k];
            best = k;
        }
        k = k + 1;
    }
    assert(numbers@[best as int] == mode);
    assert(median == median_of(num@));
    assert(is_sorted(num@) && num@.to_multiset() == numbers@.to_multiset());
    assert(mean == sum_of(numbers@) / (n as int));
    (mean, median, mode)
}

/// A lower-case vowel.
pub open spec fn is_vowel(c: char) -> bool {
    c == 'a' || c == 'e' || c == 'i' || c == 'o' || c == 'u'
}

/// `s` in Pig Latin: a word that starts with a vowel gets `-hay`; any other word
/// moves its first letter to the end as `-<letter>-ay`; the empty word stays empty.
pub open spec fn pig_latin(s: Seq<char>) -> Seq<char> {
    if s.len() == 0 {
        s
    } else if is_vowel(s[0]) {
        s + "-hay"@
    } else {
        s.drop_first() + "-"@ + seq![s[0]] + "-ay"@
    }
}

pub fn string_to_pig_latin(s: &String) -> (r: String)
    ensures
        r@ == pig_latin(s@),
{
    let text = s.as_str();
    let n = text.unicode_len();
    if n == 0 {
        return s.clone();
    }
    let first = text.get_char(0);
    if first == 'a' || first == 'e' || first == 'i' || first == 'o' || first == 'u' {
        let mut r = String::from_str(text);
        r.append("-hay");
        return r;
    }
    let mut r = String::from_str(text.substring_char(1, n));
    r.append("-");
    r.append(text.substring_char(0, 1));
    r.append("-ay");
    proof {
        assert(text@.subrange(1, n as int) =~= s@.drop_first());
        assert(text@.subrange(0, 1) =~= seq![s@[0]]);
    }
    r
}

} // verus!
