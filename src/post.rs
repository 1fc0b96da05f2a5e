//! A blog post that moves through draft, review and publication. Text can be added
//! only to a draft, a review needs two approvals, a rejection sends the post back
//! to draft, and the content shows only once the post is published.
use vstd::prelude::*;

verus! {

/// The stage of a [`Post`].
#[derive(Clone, Copy, Debug, PartialEq, Eq, Structural)]
pub enum PostState {
    Draft,
    /// Under review, with the number of approvals so far (0 or 1).
    PendingReview { approvals: u8 },
    Published,
}

impl PostState {
    pub open spec fn after_request_review(self) -> PostState {
        match self {
            PostState::Draft => PostState::PendingReview { approvals: 0 },
            _ => self,
        }
    }

    pub open spec fn after_approve(self) -> PostState {
        match self {
            PostState::PendingReview { approvals } => if approvals >= 1 {
                PostState::Published
            } else {
                PostState::PendingReview { approvals: 1 }
            },
            _ => self,
        }
    }

    pub open spec fn after_reject(self) -> PostState {
        match self {
            PostState::PendingReview { .. } => PostState::Draft,
            _ => self,
        }
    }

    /// A draft goes to review; a post under review or published stays as it is.
    pub fn request_review(self) -> (r: PostState)
        ensures
            r == self.after_request_review(),
    {
        match self {
            PostState::Draft => PostState::PendingReview { approvals: 0 },
            _ => self,
        }
    }

    /// The second approval of a review publishes the post; a draft or a published
    /// post stays as it is.
    pub fn approve(self) -> (r: PostState)
        ensures
            r == self.after_approve(),
    {
        match self {
            PostState::PendingReview { approvals } => {
                if approvals >= 1 {
                    PostState::Published
                } else {
                    PostState::PendingReview { approvals: 1 }
                }
            },
            _ => self,
        }
    }

    /// A rejected review goes back to draft; a draft or a published post stays.
    pub fn reject(self) -> (r: PostState)
        ensures
            r == self.after_reject(),
    {
        match self {
            PostState::PendingReview { .. } => PostState::Draft,
            _ => self,
        }
    }
}

pub struct Post {
    state: PostState,
    content: String,
}

impl Post {
    pub closed spec fn stage(&self) -> PostState {
        self.state
    }

    pub closed spec fn text(&self) -> Seq<char> {
        self.content@
    }

    /// An empty draft.
    pub fn new() -> (r: Post)
        ensures
            r.stage() == PostState::Draft,
            r.text() == Seq::<char>::empty(),
    {
        Post { state: PostState::Draft, content: String::new() }
    }

    /// Appends `text` while the post is a draft; at any other stage nothing changes.
    pub fn add_text(&mut self, text: &str)
        ensures
            final(self).stage() == old(self).stage(),
            final(self).text() == if old(self).stage() is Draft {
                old(self).text() + text@
            } else {
                old(self).text()
            },
    {
        if matches!(self.state, PostState::Draft) {
            self.content.append(text);
        }
    }

    /// The text of a published post; empty at every other stage.
    pub fn content(&self) -> (r: &str)
        ensures
            r@ == if self.stage() is Published {
                self.text()
            } else {
                Seq::<char>::empty()
            },
    {
        match self.state {
            PostState::Published => self.content.as_str(),
            _ => {
                proof {
                    reveal_strlit("");
                }
                ""
            },
        }
    }

    pub fn request_review(&mut self)
        ensures
            final(self).stage() == old(self).stage().after_request_review(),
            final(self).text() == old(self).text(),
    {
        self.state = self.state.request_review();
    }

    pub fn approve(&mut self)
        ensures
            final(self).stage() == old(self).stage().after_approve(),
            final(self).text() == old(self).text(),
    {
        self.state = self.state.approve();
    }

    pub fn reject(&mut self)
        ensures
            final(self).stage() == old(self).stage().after_reject(),
            final(self).text() == old(self).text(),
    {
        self.state = self.state.reject();
    }
}

} // verus!
