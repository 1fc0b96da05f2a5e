//! A blog post whose stages are separate types: a draft takes text, a post under
//! review can only be approved, and only an approved post shows its content.
use vstd::prelude::*;

verus! {

/// A published post.
pub struct MyPost {
    content: String,
}

/// A post being written.
pub struct DraftPost {
    content: String,
}

/// A post waiting for approval.
pub struct PendingReviewPost {
    content: String,
}

impl MyPost {
    pub closed spec fn text(&self) -> Seq<char> {
        self.content@
    }

    /// Starts a new, empty draft.
    pub fn new() -> (r: DraftPost)
        ensures
            r.text() == Seq::<char>::empty(),
    {
        DraftPost { content: String::new() }
    }

    pub fn content(&self) -> (r: &str)
        ensures
            r@ == self.text(),
    {
        self.content.as_str()
    }
}

impl DraftPost {
    pub closed spec fn text(&self) -> Seq<char> {
        self.content@
    }

    /// Appends `text` to the draft.
    pub fn add_text(&mut self, text: &str)
        ensures
            final(self).text() == old(self).text() + text@,
    {
        self.content.append(text);
    }

    pub fn request_review(self) -> (r: PendingReviewPost)
        ensures
            r.text() == self.text(),
    {
        PendingReviewPost { content: self.content }
    }
}

impl PendingReviewPost {
    pub closed spec fn text(&self) -> Seq<char> {
        self.content@
    }

    pub fn approve(self) -> (r: MyPost)
        ensures
            r.text() == self.text(),
    {
        MyPost { content: self.content }
    }
}

} // verus!
