//! Searching text for the lines that contain a query, with or without regard to case.
use vstd::prelude::*;

verus! {

/// Message of the error for a missing query.
pub const MISSING_QUERY: &'static str = "Didn't get a query string";

/// Message of the error for a missing file name.
pub const MISSING_FILENAME: &'static str = "Didn't get a file name";

/// The lower-case form of a text, as the standard library computes it.
pub uninterp spec fn lower_of(s: Seq<char>) -> Seq<char>;

/// Relies on `str::to_lowercase`: the result depends on the characters alone, and
/// an empty text stays empty.
#[verifier::external_body]
fn lowercase(s: &str) -> (r: String)
    ensures
        r@ == lower_of(s@),
        s@.len() == 0 ==> r@.len() == 0,
{
    s.to_lowercase()
}

/// `needle` occurs somewhere in `hay` (the empty needle occurs everywhere).
pub open spec fn contains_seq(hay: Seq<char>, needle: Seq<char>) -> bool {
    exists|i: int|
        0 <= i && i + needle.len() <= hay.len() && #[trigger] hay.subrange(i, i + needle.len())
            == needle
}

/// A line without the carriage return that preceded its line feed.
pub open spec fn strip_cr(l: Seq<char>) -> Seq<char> {
    if l.len() > 0 && l.last() == '\r' {
        l.drop_last()
    } else {
        l
    }
}

/// Reading `s` from the left: the lines already ended by a line feed, and the text
/// of the line still open.
pub open spec fn scan_lines(s: Seq<char>) -> (Seq<Seq<char>>, Seq<char>)
    decreases s.len(),
{
    if s.len() == 0 {
        (Seq::empty(), Seq::empty())
    } else {
        let (done, cur) = scan_lines(s.drop_last());
        if s.last() == '\n' {
            (done.push(strip_cr(cur)), Seq::empty())
        } else {
            (done, cur.push(s.last()))
        }
    }
}

/// The lines of `s`: split at each `\n` (a `\r` just before it is dropped); a final
/// line feed does not open an empty last line.
pub open spec fn lines(s: Seq<char>) -> Seq<Seq<char>> {
    let (done, cur) = scan_lines(s);
    if cur.len() == 0 {
        done
    } else {
        done.push(cur)
    }
}

/// Whether `line` matches `query`: it contains it, or, when `fold` is set, its
/// lower-case form contains the lower-case form of the query.
pub open spec fn line_matches(line: Seq<char>, query: Seq<char>, fold: bool) -> bool {
    if fold {
        contains_seq(lower_of(line), lower_of(query))
    } else {
        contains_seq(line, query)
    }
}

/// The lines of `ls` that match `query`, in order.
pub open spec fn matching(ls: Seq<Seq<char>>, query: Seq<char>, fold: bool) -> Seq<Seq<char>>
    decreases ls.len(),
{
    if ls.len() == 0 {
        ls
    } else {
        let rest = matching(ls.drop_last(), query, fold);
        if line_matches(ls.last(), query, fold) {
            rest.push(ls.last())
        } else {
            rest
        }
    }
}

fn to_chars(s: &str) -> (r: Vec<char>)
    ensures
        r@ == s@,
{
    let n = s.unicode_len();
    let mut r: Vec<char> = Vec::new();
    let mut i: usize = 0;
    while i < n
        invariant
            n == s@.len(),
            i <= n,
            r@ == s@.subrange(0, i as int),
        decreases n - i,
    {
        r.push(s.get_char(i));
        i = i + 1;
        assert(r@ =~= s@.subrange(0, i as int));
    }
    assert(r@ =~= s@);
    r
}

/// Whether `needle` occurs in `hay[lo..hi]`.
fn contains_in(hay: &Vec<char>, lo: usize, hi: usize, needle: &Vec<char>) -> (r: bool)
    requires
        lo <= hi <= hay@.len(),
    ensures
        r == contains_seq(hay@.subrange(lo as int, hi as int), needle@),
{
    let ghost h = hay@.subrange(lo as int, hi as int);
    let m = needle.len();
    if m > hi - lo {
        return false;
    }
    let last = hi - lo - m;
    let mut i: usize = 0;
    while i <= last
        invariant
            h == hay@.subrange(lo as int, hi as int),
            lo <= hi <= hay@.len(),
            m == needle@.len(),
            last == h.len() - m,
            forall|k: int| 0 <= k < i ==> #[trigger] h.subrange(k, k + m) != needle@,
        decreases last + 1 - i,
    {
        let mut j: usize = 0;
        let mut same = true;
        while j < m
            invariant
                h == hay@.subrange(lo as int, hi as int),
                lo <= hi <= hay@.len(),
                m == needle@.len(),
                i <= last,
                last == h.len() - m,
                j <= m,
                same == forall|t: int| 0 <= t < j ==> h[i + t] == needle@[t],
            decreases m - j,
        {
            if hay[lo + i + j] != needle[j] {
                same = false;
            }
            j = j + 1;
        }
        if same {
            assert(h.subrange(i as int, i + m) =~= needle@);
            return true;
        }
        assert(h.subrange(i as int, i + m) != needle@) by {
            let t = choose|t: int| 0 <= t < m && h[i + t] != needle@[t];
            assert(h.subrange(i as int, i + m)[t] == h[i + t]);
        }
        i = i + 1;
    }
    false
}

/// Whether `needle` occurs in `haystack`.
pub fn contains_text(haystack: &str, needle: &str) -> (r: bool)
    ensures
        r == contains_seq(haystack@, needle@),
{
    let h = to_chars(haystack);
    let n = to_chars(needle);
    proof {
        assert(h@.subrange(0, h@.len() as int) =~= h@);
    }
    contains_in(&h, 0, h.len(), &n)
}

proof fn lemma_matching_push(ls: Seq<Seq<char>>, l: Seq<char>, query: Seq<char>, fold: bool)
    ensures
        matching(ls.push(l), query, fold) == (if line_matches(l, query, fold) {
            matching(ls, query, fold).push(l)
        } else {
            matching(ls, query, fold)
        }),
{
    assert(ls.push(l).drop_last() =~= ls);
}

/// Whether the line `line` matches `query`; `folded_query` is the lower-case form of
/// `query`, used when `fold` is set.
fn check_line(line: &str, query: &str, folded_query: &str, fold: bool) -> (r: bool)
    requires
        folded_query@ == lower_of(query@),
    ensures
        r == line_matches(line@, query@, fold),
{
    if fold {
        let folded_line = lowercase(line);
        contains_text(folded_line.as_str(), folded_query)
    } else {
        contains_text(line, query)
    }
}

/// The lines of `contents` that match `query`, in order, each borrowed from `contents`.
fn matching_lines<'a>(query: &str, contents: &'a str, fold: bool) -> (r: Vec<&'a str>)
    ensures
        r@.map_values(|l: &'a str| l@) == matching(lines(contents@), query@, fold),
{
    let folded = lowercase(query);
    let cs = to_chars(contents);
    let n = cs.len();
    let mut result: Vec<&'a str> = Vec::new();
    let mut start: usize = 0;
    let mut i: usize = 0;
    let ghost mut done: Seq<Seq<char>> = Seq::empty();
    assert(cs@.subrange(0, 0) =~= Seq::<char>::empty());
    while i < n
        invariant
            cs@ == contents@,
            n == cs@.len(),
            folded@ == lower_of(query@),
            start <= i <= n,
            scan_lines(cs@.subrange(0, i as int)) == (done, cs@.subrange(start as int, i as int)),
            result@.map_values(|l: &'a str| l@) == matching(done, query@, fold),
        decreases n - i,
    {
        proof {
            assert(cs@.subrange(0, i + 1).drop_last() =~= cs@.subrange(0, i as int));
        }
        if cs[i] == '\n' {
            let end = if i > start && cs[i - 1] == '\r' {
                i - 1
            } else {
                i
            };
            let line = contents.substring_char(start, end);
            proof {
                let cur = cs@.subrange(start as int, i as int);
                assert(line@ =~= strip_cr(cur));
                lemma_matching_push(done, line@, query@, fold);
            }
            if check_line(line, query, folded.as_str(), fold) {
                result.push(line);
            }
            proof {
                done = done.push(line@);
                assert(result@.map_values(|l: &'a str| l@) =~= matching(done, query@, fold));
            }
            start = i + 1;
        } else {
            proof {
                assert(cs@.subrange(start as int, i + 1) =~= cs@.subrange(
                    start as int,
                    i as int,
                ).push(cs@[i as int]));
            }
        }
        i = i + 1;
    }
    proof {
        assert(cs@.subrange(0, n as int) =~= cs@);
    }
    if start < n {
        let line = contents.substring_char(start, n);
        proof {
            lemma_matching_push(done, line@, query@, fold);
        }
        if check_line(line, query, folded.as_str(), fold) {
            result.push(line);
        }
        proof {
            assert(result@.map_values(|l: &'a str| l@) =~= matching(done.push(line@), query@, fold));
        }
    }
    result
}

/// The lines of `contents` that contain `query`, in order.
pub fn search<'a>(query: &str, contents: &'a str) -> (r: Vec<&'a str>)
    ensures
        r@.map_values(|l: &'a str| l@) == matching(lines(contents@), query@, false),
{
    matching_lines(query, contents, false)
}

/// The lines of `contents` that contain `query` once both are in lower case, in order.
pub fn search_case_insensitive<'a>(query: &str, contents: &'a str) -> (r: Vec<&'a str>)
    ensures
        r@.map_values(|l: &'a str| l@) == matching(lines(contents@), query@, true),
{
    matching_lines(query, contents, true)
}

/// What to search for, where, and whether case matters.
pub struct Config {
    pub query: String,
    pub filename: String,
    pub case_sensitive: bool,
}

impl Config {
    /// Reads the query and the file name from the command-line arguments `args`,
    /// whose first entry is the program's name; `case_sensitive` is taken as given.
    pub fn new(args: &Vec<String>, case_sensitive: bool) -> (r: Result<Config, &'static str>)
        ensures
            args@.len() < 2 ==> (r matches Err(e) && e@ == MISSING_QUERY@),
            args@.len() == 2 ==> (r matches Err(e) && e@ == MISSING_FILENAME@),
            args@.len() > 2 ==> (r matches Ok(c) && c.query@ == args@[1]@ && c.filename@
                == args@[2]@ && c.case_sensitive == case_sensitive),
    {
        if args.len() < 2 {
            return Err(MISSING_QUERY);
        }
        let query = args[1].clone();
        if args.len() < 3 {
            return Err(MISSING_FILENAME);
        }
        let filename = args[2].clone();
        Ok(Config { query, filename, case_sensitive })
    }
}

/// The lines of `contents` that match the configured query, with or without regard
/// to case as configured.
pub fn run<'a>(config: &Config, contents: &'a str) -> (r: Vec<&'a str>)
    ensures
        r@.map_values(|l: &'a str| l@) == matching(
            lines(contents@),
            config.query@,
            !config.case_sensitive,
        ),
{
    if config.case_sensitive {
        search(config.query.as_str(), contents)
    } else {
        search_case_insensitive(config.query.as_str(), contents)
    }
}

} // verus!
