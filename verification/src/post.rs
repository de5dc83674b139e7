use vstd::prelude::*;

verus! {

/// The closed set of content categories a post can belong to.
#[derive(Clone, Copy, Debug, PartialEq, Eq, Structural)]
pub enum Category {
    General,
    News,
    Sports,
    Music,
    Technology,
}

/// Why an operation on the post store was refused. Any of these aborts the
/// whole call with no state change.
#[derive(Clone, Copy, Debug, PartialEq, Eq, Structural)]
pub enum PostError {
    /// The referenced post is absent from the store.
    NotFound,
    /// The caller is not the post's author for an author-scoped operation.
    Unauthorized,
    /// The ledger declined the token transfer funding the call.
    InsufficientBalance,
}

/// Tokens charged for creating a post.
pub const CREATE_COST: u64 = 5;

/// Tokens charged for a like, a dislike, or a time withdrawal.
pub const REACT_COST: u64 = 1;

/// Time budget a freshly created post starts with.
pub const INITIAL_TIME: i64 = 5;

/// A post record. `time` is the post's spendable relevance budget; it may go
/// negative through withdrawals, but a dislike that leaves it at or below
/// zero removes the post from the store.
#[derive(Debug)]
pub struct Post {
    /// Identifier, unique across the store.
    pub id: u64,
    pub category: Category,
    pub heading: String,
    pub content: String,
    /// Content hash of the post's image.
    pub image: u64,
    /// Account identifier of the author.
    pub author: u64,
    pub likes: u64,
    pub dislikes: u64,
    pub time: i64,
}

impl Clone for Post {
    fn clone(&self) -> (res: Self)
        ensures
            res == *self,
    {
        Post {
            id: self.id,
            category: self.category,
            heading: self.heading.clone(),
            content: self.content.clone(),
            image: self.image,
            author: self.author,
            likes: self.likes,
            dislikes: self.dislikes,
            time: self.time,
        }
    }
}

/// The effect of a like on a post: one more like, one more unit of time.
pub open spec fn like_update(p: Post) -> Post {
    Post { likes: (p.likes + 1) as u64, time: (p.time + 1) as i64, ..p }
}

/// The effect of a dislike on a post's record: one more dislike, one unit of
/// time less. Whether the post then survives is the store's decision.
pub open spec fn dislike_update(p: Post) -> Post {
    Post { dislikes: (p.dislikes + 1) as u64, time: (p.time - 1) as i64, ..p }
}

/// The effect of the author withdrawing one unit of time.
pub open spec fn withdraw_update(p: Post) -> Post {
    Post { time: (p.time - 1) as i64, ..p }
}

} // verus!
