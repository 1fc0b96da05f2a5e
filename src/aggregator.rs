//! Summaries of news articles and tweets.
use vstd::prelude::*;

verus! {

/// `"(Read more from <author>...)"`.
pub fn read_more_from(author: &str) -> (r: String)
    ensures
        r@ == "(Read more from "@ + author@ + "...)"@,
{
    let mut r = String::from_str("(Read more from ");
    r.append(author);
    r.append("...)");
    r
}

/// `"@<name>"`.
pub fn handle(name: &str) -> (r: String)
    ensures
        r@ == "@"@ + name@,
{
    let mut r = String::from_str("@");
    r.append(name);
    r
}

/// Something that can be summarised in a line.
pub trait Summary {
    /// The name that the summary credits.
    spec fn credited(&self) -> Seq<char>;

    fn summarize_author(&self) -> (r: String)
        ensures
            r@ == "@"@ + self.credited(),
    ;

    /// By default, an invitation to read more from the author.
    fn summarize(&self) -> String {
        let author = self.summarize_author();
        read_more_from(author.as_str())
    }

    fn read_more(&self) -> (r: String)
        ensures
            r@ == "Read more..."@,
    {
        String::from_str("Read more...")
    }
}

pub struct NewArticle {
    pub headline: String,
    pub location: String,
    pub author: String,
    pub content: String,
}

impl Summary for NewArticle {
    open spec fn credited(&self) -> Seq<char> {
        self.author@
    }

    fn summarize_author(&self) -> (r: String) {
        handle(self.author.as_str())
    }

    /// `"<headline>, by <author> (<location>)"`.
    fn summarize(&self) -> (r: String)
        ensures
            r@ == self.headline@ + ", by "@ + self.author@ + " ("@ + self.location@ + ")"@,
    {
        let mut r = self.headline.clone();
        r.append(", by ");
        r.append(self.author.as_str());
        r.append(" (");
        r.append(self.location.as_str());
        r.append(")");
        r
    }
}

pub struct Tweet {
    pub username: String,
    pub content: String,
    pub reply: bool,
    pub retweet: bool,
}

impl Summary for Tweet {
    open spec fn credited(&self) -> Seq<char> {
        self.username@
    }

    fn summarize_author(&self) -> (r: String) {
        let r = handle(self.username.as_str());
        assert(self.credited() == self.username@);
        r
    }
}

/// A sample tweet, by `horse_ebooks`.
pub fn return_summarizable() -> (r: impl Summary)
    ensures
        r.credited() == "horse_ebooks"@,
{
    Tweet {
        username: String::from_str("horse_ebooks"),
        content: String::from_str("of course, as you probably already know, people"),
        reply: false,
        retweet: false,
    }
}

} // verus!
