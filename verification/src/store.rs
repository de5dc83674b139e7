use vstd::prelude::*;
use crate::ledger::{charged, Ledger};
use crate::post::{
    dislike_update, like_update, withdraw_update, Category, Post, PostError, CREATE_COST,
    INITIAL_TIME, REACT_COST,
};

verus! {

/// Some post in `s` carries identifier `id`.
pub open spec fn has_post(s: Seq<Post>, id: u64) -> bool {
    exists|i: int| 0 <= i < s.len() && s[i].id == id
}

/// The position of the post with identifier `id`; meaningful when the
/// identifiers of `s` are unique.
pub open spec fn post_index(s: Seq<Post>, id: u64) -> int {
    choose|i: int| 0 <= i < s.len() && s[i].id == id
}

/// The post of `s` with identifier `id`.
pub open spec fn post_at(s: Seq<Post>, id: u64) -> Post {
    s[post_index(s, id)]
}

/// No two posts of `s` share an identifier.
pub open spec fn unique_post_ids(s: Seq<Post>) -> bool {
    forall|i: int, j: int| 0 <= i < j < s.len() ==> s[i].id != s[j].id
}

/// Under unique identifiers, a post with `id` at position `i` is the post
/// `post_index` points at.
pub proof fn lemma_post_index_unique(s: Seq<Post>, i: int, id: u64)
    requires
        unique_post_ids(s),
        0 <= i < s.len(),
        s[i].id == id,
    ensures
        has_post(s, id),
        post_index(s, id) == i,
        post_at(s, id) == s[i],
{
    assert(has_post(s, id));
    let j = post_index(s, id);
    assert(0 <= j < s.len() && s[j].id == id);
    if i < j {
        assert(s[i].id != s[j].id);
    } else if j < i {
        assert(s[j].id != s[i].id);
    }
}

/// The side mapping from an image reference to its minted collectible
/// identifier.
#[derive(Clone, Copy, Debug, PartialEq, Eq, Structural)]
pub struct NftLink {
    /// Content hash of the image.
    pub image: u64,
    /// Identifier of the collectible minted for it.
    pub collectible: u64,
}

/// Some linkage entry of `s` is keyed by `image`.
pub open spec fn has_image(s: Seq<NftLink>, image: u64) -> bool {
    exists|i: int| 0 <= i < s.len() && s[i].image == image
}

/// The position of the entry keyed by `image`; meaningful when image keys
/// are unique.
pub open spec fn image_index(s: Seq<NftLink>, image: u64) -> int {
    choose|i: int| 0 <= i < s.len() && s[i].image == image
}

/// The linkage after registering `image -> cid`, overwriting any earlier
/// entry for the same image.
pub open spec fn nft_upsert(s: Seq<NftLink>, image: u64, cid: u64) -> Seq<NftLink> {
    if has_image(s, image) {
        s.update(image_index(s, image), NftLink { image, collectible: cid })
    } else {
        s.push(NftLink { image, collectible: cid })
    }
}

/// Under unique image keys, an entry for `image` at position `i` is the one
/// `image_index` points at.
pub proof fn lemma_image_index_unique(s: Seq<NftLink>, i: int, image: u64)
    requires
        forall|a: int, b: int| 0 <= a < b < s.len() ==> s[a].image != s[b].image,
        0 <= i < s.len(),
        s[i].image == image,
    ensures
        has_image(s, image),
        image_index(s, image) == i,
{
    assert(has_image(s, image));
    let j = image_index(s, image);
    assert(0 <= j < s.len() && s[j].image == image);
    if i < j {
        assert(s[i].image != s[j].image);
    } else if j < i {
        assert(s[j].image != s[i].image);
    }
}

/// The full contract state: the post store, the collectible linkage, the
/// identifier counter they draw from, and the contract's own ledger account,
/// which receives every charged token.
#[derive(Debug)]
pub struct State {
    /// Ledger account that collects the token cost of every mutating call.
    pub account: u64,
    /// Next fresh identifier; every identifier handed out so far is below it.
    pub next_id: u64,
    /// The post store.
    pub posts: Vec<Post>,
    /// The image-to-collectible linkage.
    pub nfts: Vec<NftLink>,
}

impl State {
    /// Well-formedness: post identifiers are unique and below the counter,
    /// image keys are unique, and collectible identifiers are unique and
    /// below the counter.
    pub open spec fn wf(self) -> bool {
        &&& unique_post_ids(self.posts@)
        &&& forall|i: int| 0 <= i < self.posts@.len() ==> self.posts@[i].id < self.next_id
        &&& forall|i: int, j: int|
            0 <= i < j < self.nfts@.len() ==> self.nfts@[i].image != self.nfts@[j].image
        &&& forall|i: int, j: int|
            0 <= i < j < self.nfts@.len() ==> self.nfts@[i].collectible
                != self.nfts@[j].collectible
        &&& forall|i: int| 0 <= i < self.nfts@.len() ==> self.nfts@[i].collectible < self.next_id
    }

    /// Everything but the post store is the same in both states.
    pub open spec fn same_but_posts(pre: State, post: State) -> bool {
        post.account == pre.account && post.next_id == pre.next_id && post.nfts@ == pre.nfts@
    }

    /// An empty state for a contract whose own ledger account is `account`.
    pub fn new(account: u64) -> (r: State)
        ensures
            r.wf(),
            r.account == account,
            r.next_id == 0,
            r.posts@.len() == 0,
            r.nfts@.len() == 0,
    {
        State { account, next_id: 0, posts: Vec::new(), nfts: Vec::new() }
    }

    /// The position of the post with identifier `post_id`, if it exists.
    pub(crate) fn find_post(&self, post_id: u64) -> (r: Option<usize>)
        ensures
            match r {
                Some(i) => i < self.posts@.len() && self.posts@[i as int].id == post_id,
                None => !has_post(self.posts@, post_id),
            },
    {
        let n = self.posts.len();
        let mut i: usize = 0;
        while i < n
            invariant
                i <= n,
                n == self.posts@.len(),
                forall|k: int| 0 <= k < i ==> self.posts@[k].id != post_id,
            decreases n - i,
        {
            if self.posts[i].id == post_id {
                return Some(i);
            }
            i = i + 1;
        }
        None
    }

    /// The position of the linkage entry keyed by `image`, if there is one.
    fn find_image(&self, image: u64) -> (r: Option<usize>)
        ensures
            match r {
                Some(i) => i < self.nfts@.len() && self.nfts@[i as int].image == image,
                None => !has_image(self.nfts@, image),
            },
    {
        let n = self.nfts.len();
        let mut i: usize = 0;
        while i < n
            invariant
                i <= n,
                n == self.nfts@.len(),
                forall|k: int| 0 <= k < i ==> self.nfts@[k].image != image,
            decreases n - i,
        {
            if self.nfts[i].image == image {
                return Some(i);
            }
            i = i + 1;
        }
        None
    }

    /// Whether the store holds a post with identifier `post_id`.
    pub fn contains_post(&self, post_id: u64) -> (r: bool)
        ensures
            r == has_post(self.posts@, post_id),
    {
        self.find_post(post_id).is_some()
    }

    /// The post with identifier `post_id`, or `NotFound`.
    pub fn get_post(&self, post_id: u64) -> (r: Result<&Post, PostError>)
        requires
            self.wf(),
        ensures
            r matches Ok(p) ==> has_post(self.posts@, post_id) && *p == post_at(
                self.posts@,
                post_id,
            ),
            r matches Err(e) ==> e == PostError::NotFound && !has_post(self.posts@, post_id),
    {
        match self.find_post(post_id) {
            Some(i) => {
                proof {
                    lemma_post_index_unique(self.posts@, i as int, post_id);
                }
                Ok(&self.posts[i])
            },
            None => Err(PostError::NotFound),
        }
    }

    /// Create a post: charge the author `CREATE_COST` tokens, insert a fresh
    /// post with `INITIAL_TIME` time, and register a freshly minted
    /// collectible for its image, overwriting any earlier linkage for the
    /// same image. Returns the new post's identifier; on
    /// `InsufficientBalance` nothing changes.
    pub fn create_post(
        &mut self,
        ledger: &mut Ledger,
        caller: u64,
        category: Category,
        heading: String,
        content: String,
        image: u64,
    ) -> (r: Result<u64, PostError>)
        requires
            old(self).wf(),
            old(ledger).wf(),
            old(self).next_id + 2 <= u64::MAX,
            caller != old(self).account ==> old(ledger).balance_spec(old(self).account)
                + CREATE_COST <= u64::MAX,
        ensures
            final(self).wf(),
            final(ledger).wf(),
            final(self).account == old(self).account,
            r is Err <==> old(ledger).balance_spec(caller) < CREATE_COST as int,
            r is Err ==> r == Err::<u64, PostError>(PostError::InsufficientBalance) && *final(self)
                == *old(self) && *final(ledger) == *old(ledger),
            r is Ok ==> r == Ok::<u64, PostError>(old(self).next_id) && !has_post(
                old(self).posts@,
                old(self).next_id,
            ) && final(self).posts@ == old(self).posts@.push(
                (Post {
                    id: old(self).next_id,
                    category,
                    heading,
                    content,
                    image,
                    author: caller,
                    likes: 0,
                    dislikes: 0,
                    time: INITIAL_TIME,
                }),
            ) && has_post(final(self).posts@, old(self).next_id) && post_at(
                final(self).posts@,
                old(self).next_id,
            ) == (Post {
                id: old(self).next_id,
                category,
                heading,
                content,
                image,
                author: caller,
                likes: 0,
                dislikes: 0,
                time: INITIAL_TIME,
            }) && final(self).nfts@ == nft_upsert(
                old(self).nfts@,
                image,
                (old(self).next_id + 1) as u64,
            ) && final(self).next_id == old(self).next_id + 2 && charged(
                *old(ledger),
                *final(ledger),
                caller,
                old(self).account,
                CREATE_COST,
            ),
    {
        match ledger.transfer(caller, self.account, CREATE_COST) {
            Err(_) => Err(PostError::InsufficientBalance),
            Ok(()) => {
                let ghost pre = *self;
                let id = self.next_id;
                let cid = id + 1;
                self.next_id = id + 2;
                let new_post = Post {
                    id,
                    category,
                    heading,
                    content,
                    image,
                    author: caller,
                    likes: 0,
                    dislikes: 0,
                    time: INITIAL_TIME,
                };
                self.posts.push(new_post);
                proof {
                    assert forall|k: int| 0 <= k < pre.posts@.len() implies pre.posts@[k].id
                        != id by {
                        assert(pre.posts@[k].id < pre.next_id);
                    }
                    assert(!has_post(pre.posts@, id));
                }
                match self.find_image(image) {
                    Some(i) => {
                        proof {
                            lemma_image_index_unique(self.nfts@, i as int, image);
                        }
                        let slot = &mut self.nfts[i];
                        slot.collectible = cid;
                        proof {
                            assert(self.nfts@ =~= nft_upsert(pre.nfts@, image, cid));
                        }
                    },
                    None => {
                        self.nfts.push(NftLink { image, collectible: cid });
                        proof {
                            assert(self.nfts@ =~= nft_upsert(pre.nfts@, image, cid));
                        }
                    },
                }
                proof {
                    assert(self.wf());
                    lemma_post_index_unique(
                        self.posts@,
                        pre.posts@.len() as int,
                        id,
                    );
                }
                Ok(id)
            },
        }
    }

    /// Like a post: charge the caller `REACT_COST` tokens and raise the
    /// post's likes and time by one. A like never removes the post. On any
    /// error nothing changes.
    pub fn like_post(&mut self, ledger: &mut Ledger, caller: u64, post_id: u64) -> (r: Result<
        (),
        PostError,
    >)
        requires
            old(self).wf(),
            old(ledger).wf(),
            has_post(old(self).posts@, post_id) ==> post_at(old(self).posts@, post_id).likes
                < u64::MAX && post_at(old(self).posts@, post_id).time < i64::MAX,
            caller != old(self).account ==> old(ledger).balance_spec(old(self).account) + REACT_COST
                <= u64::MAX,
        ensures
            final(self).wf(),
            final(ledger).wf(),
            r == Err::<(), PostError>(PostError::NotFound) <==> !has_post(
                old(self).posts@,
                post_id,
            ),
            r == Err::<(), PostError>(PostError::InsufficientBalance) <==> has_post(
                old(self).posts@,
                post_id,
            ) && old(ledger).balance_spec(caller) < REACT_COST as int,
            r is Ok <==> has_post(old(self).posts@, post_id) && old(ledger).balance_spec(caller)
                >= REACT_COST as int,
            r is Err ==> *final(self) == *old(self) && *final(ledger) == *old(ledger),
            r is Ok ==> final(self).posts@ == old(self).posts@.update(
                post_index(old(self).posts@, post_id),
                like_update(post_at(old(self).posts@, post_id)),
            ) && has_post(final(self).posts@, post_id) && post_at(final(self).posts@, post_id)
                == like_update(post_at(old(self).posts@, post_id)) && State::same_but_posts(
                *old(self),
                *final(self),
            ) && charged(*old(ledger), *final(ledger), caller, old(self).account, REACT_COST),
    {
        let idx = match self.find_post(post_id) {
            Some(i) => i,
            None => {
                return Err(PostError::NotFound);
            },
        };
        proof {
            lemma_post_index_unique(self.posts@, idx as int, post_id);
        }
        match ledger.transfer(caller, self.account, REACT_COST) {
            Err(_) => Err(PostError::InsufficientBalance),
            Ok(()) => {
                let ghost pre = *self;
                let slot = &mut self.posts[idx];
                slot.likes = slot.likes + 1;
                slot.time = slot.time + 1;
                proof {
                    assert(self.posts@ =~= pre.posts@.update(
                        idx as int,
                        like_update(post_at(pre.posts@, post_id)),
                    ));
                    assert forall|k: int| 0 <= k < self.posts@.len() implies self.posts@[k].id
                        == pre.posts@[k].id by {}
                    assert(self.wf());
                    lemma_post_index_unique(self.posts@, idx as int, post_id);
                }
                Ok(())
            },
        }
    }

    /// Dislike a post: charge the caller `REACT_COST` tokens, raise the
    /// post's dislikes by one and lower its time by one; if the resulting
    /// time is at or below zero the post is removed in the same step. On any
    /// error nothing changes.
    pub fn dislike_post(&mut self, ledger: &mut Ledger, caller: u64, post_id: u64) -> (r: Result<
        (),
        PostError,
    >)
        requires
            old(self).wf(),
            old(ledger).wf(),
            has_post(old(self).posts@, post_id) ==> post_at(old(self).posts@, post_id).dislikes
                < u64::MAX && post_at(old(self).posts@, post_id).time > i64::MIN,
            caller != old(self).account ==> old(ledger).balance_spec(old(self).account) + REACT_COST
                <= u64::MAX,
        ensures
            final(self).wf(),
            final(ledger).wf(),
            r == Err::<(), PostError>(PostError::NotFound) <==> !has_post(
                old(self).posts@,
                post_id,
            ),
            r == Err::<(), PostError>(PostError::InsufficientBalance) <==> has_post(
                old(self).posts@,
                post_id,
            ) && old(ledger).balance_spec(caller) < REACT_COST as int,
            r is Ok <==> has_post(old(self).posts@, post_id) && old(ledger).balance_spec(caller)
                >= REACT_COST as int,
            r is Err ==> *final(self) == *old(self) && *final(ledger) == *old(ledger),
            r is Ok ==> ({
                let updated = dislike_update(post_at(old(self).posts@, post_id));
                &&& has_post(final(self).posts@, post_id) <==> updated.time > 0
                &&& updated.time > 0 ==> final(self).posts@ == old(self).posts@.update(
                    post_index(old(self).posts@, post_id),
                    updated,
                ) && post_at(final(self).posts@, post_id) == updated
                &&& updated.time <= 0 ==> final(self).posts@ == old(self).posts@.remove(
                    post_index(old(self).posts@, post_id),
                )
                &&& State::same_but_posts(*old(self), *final(self))
                &&& charged(*old(ledger), *final(ledger), caller, old(self).account, REACT_COST)
            }),
    {
        let idx = match self.find_post(post_id) {
            Some(i) => i,
            None => {
                return Err(PostError::NotFound);
            },
        };
        proof {
            lemma_post_index_unique(self.posts@, idx as int, post_id);
        }
        match ledger.transfer(caller, self.account, REACT_COST) {
            Err(_) => Err(PostError::InsufficientBalance),
            Ok(()) => {
                let ghost pre = *self;
                let slot = &mut self.posts[idx];
                slot.dislikes = slot.dislikes + 1;
                slot.time = slot.time - 1;
                let remaining = slot.time;
                proof {
                    assert(self.posts@ =~= pre.posts@.update(
                        idx as int,
                        dislike_update(post_at(pre.posts@, post_id)),
                    ));
                }
                if remaining <= 0 {
                    let ghost mid = self.posts@;
                    self.posts.remove(idx);
                    proof {
                        assert(self.posts@ =~= pre.posts@.remove(idx as int));
                        assert forall|k: int| 0 <= k < self.posts@.len() implies self.posts@[k].id
                            != post_id by {
                            if k < idx as int {
                                assert(self.posts@[k] == pre.posts@[k]);
                                assert(pre.posts@[k].id != pre.posts@[idx as int].id);
                            } else {
                                assert(self.posts@[k] == pre.posts@[k + 1]);
                                assert(pre.posts@[idx as int].id != pre.posts@[k + 1].id);
                            }
                        }
                        assert(!has_post(self.posts@, post_id));
                        assert forall|a: int, b: int|
                            0 <= a < b < self.posts@.len() implies self.posts@[a].id
                            != self.posts@[b].id by {
                            let a2 = if a < idx as int {
                                a
                            } else {
                                a + 1
                            };
                            let b2 = if b < idx as int {
                                b
                            } else {
                                b + 1
                            };
                            assert(self.posts@[a] == pre.posts@[a2]);
                            assert(self.posts@[b] == pre.posts@[b2]);
                            assert(pre.posts@[a2].id != pre.posts@[b2].id);
                        }
                        assert forall|k: int| 0 <= k < self.posts@.len() implies self.posts@[k].id
                            < self.next_id by {
                            let k2 = if k < idx as int {
                                k
                            } else {
                                k + 1
                            };
                            assert(self.posts@[k] == pre.posts@[k2]);
                        }
                        assert(self.wf());
                    }
                } else {
                    proof {
                        assert forall|k: int| 0 <= k < self.posts@.len() implies self.posts@[k].id
                            == pre.posts@[k].id by {}
                        assert(self.wf());
                        lemma_post_index_unique(self.posts@, idx as int, post_id);
                    }
                }
                Ok(())
            },
        }
    }

    /// Withdraw one unit of time from a post the caller authored, charging
    /// the caller `REACT_COST` tokens. Withdrawal never removes the post,
    /// even when its time drops to or below zero. On any error nothing
    /// changes.
    pub fn withdraw_time_by_user_and_post(
        &mut self,
        ledger: &mut Ledger,
        caller: u64,
        post_id: u64,
    ) -> (r: Result<(), PostError>)
        requires
            old(self).wf(),
            old(ledger).wf(),
            has_post(old(self).posts@, post_id) ==> post_at(old(self).posts@, post_id).time
                > i64::MIN,
            caller != old(self).account ==> old(ledger).balance_spec(old(self).account) + REACT_COST
                <= u64::MAX,
        ensures
            final(self).wf(),
            final(ledger).wf(),
            r == Err::<(), PostError>(PostError::NotFound) <==> !has_post(
                old(self).posts@,
                post_id,
            ),
            r == Err::<(), PostError>(PostError::Unauthorized) <==> has_post(
                old(self).posts@,
                post_id,
            ) && post_at(old(self).posts@, post_id).author != caller,
            r == Err::<(), PostError>(PostError::InsufficientBalance) <==> has_post(
                old(self).posts@,
                post_id,
            ) && post_at(old(self).posts@, post_id).author == caller && old(ledger).balance_spec(
                caller,
            ) < REACT_COST as int,
            r is Ok <==> has_post(old(self).posts@, post_id) && post_at(
                old(self).posts@,
                post_id,
            ).author == caller && old(ledger).balance_spec(caller) >= REACT_COST as int,
            r is Err ==> *final(self) == *old(self) && *final(ledger) == *old(ledger),
            r is Ok ==> final(self).posts@ == old(self).posts@.update(
                post_index(old(self).posts@, post_id),
                withdraw_update(post_at(old(self).posts@, post_id)),
            ) && has_post(final(self).posts@, post_id) && post_at(final(self).posts@, post_id)
                == withdraw_update(post_at(old(self).posts@, post_id)) && State::same_but_posts(
                *old(self),
                *final(self),
            ) && charged(*old(ledger), *final(ledger), caller, old(self).account, REACT_COST),
    {
        let idx = match self.find_post(post_id) {
            Some(i) => i,
            None => {
                return Err(PostError::NotFound);
            },
        };
        proof {
            lemma_post_index_unique(self.posts@, idx as int, post_id);
        }
        if self.posts[idx].author != caller {
            return Err(PostError::Unauthorized);
        }
        match ledger.transfer(caller, self.account, REACT_COST) {
            Err(_) => Err(PostError::InsufficientBalance),
            Ok(()) => {
                let ghost pre = *self;
                let slot = &mut self.posts[idx];
                slot.time = slot.time - 1;
                proof {
                    assert(self.posts@ =~= pre.posts@.update(
                        idx as int,
                        withdraw_update(post_at(pre.posts@, post_id)),
                    ));
                    assert forall|k: int| 0 <= k < self.posts@.len() implies self.posts@[k].id
                        == pre.posts@[k].id by {}
                    assert(self.wf());
                    lemma_post_index_unique(self.posts@, idx as int, post_id);
                }
                Ok(())
            },
        }
    }
}

} // verus!
