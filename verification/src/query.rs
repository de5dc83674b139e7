use vstd::prelude::*;
use crate::post::{Category, Post, PostError};
use crate::store::{has_post, lemma_post_index_unique, post_at, State};

verus! {

/// Whether a post satisfies a selector: an optional author and an optional
/// category, each matching every post when absent.
pub open spec fn sel_matches(p: Post, user: Option<u64>, category: Option<Category>) -> bool {
    (match user {
        Some(u) => p.author == u,
        None => true,
    }) && (match category {
        Some(c) => p.category == c,
        None => true,
    })
}

/// The subsequence of `s` whose posts satisfy the selector, in store order.
pub open spec fn filter_sel(s: Seq<Post>, user: Option<u64>, category: Option<Category>) -> Seq<
    Post,
>
    decreases s.len(),
{
    if s.len() == 0 {
        Seq::empty()
    } else {
        let rest = filter_sel(s.drop_last(), user, category);
        if sel_matches(s.last(), user, category) {
            rest.push(s.last())
        } else {
            rest
        }
    }
}

/// The sum of the like counters over `s`.
pub open spec fn sum_likes_spec(s: Seq<Post>) -> int
    decreases s.len(),
{
    if s.len() == 0 {
        0
    } else {
        sum_likes_spec(s.drop_last()) + s.last().likes
    }
}

/// The sum of the dislike counters over `s`.
pub open spec fn sum_dislikes_spec(s: Seq<Post>) -> int
    decreases s.len(),
{
    if s.len() == 0 {
        0
    } else {
        sum_dislikes_spec(s.drop_last()) + s.last().dislikes
    }
}

/// The sum of the time budgets over `s`.
pub open spec fn sum_time_spec(s: Seq<Post>) -> int
    decreases s.len(),
{
    if s.len() == 0 {
        0
    } else {
        sum_time_spec(s.drop_last()) + s.last().time
    }
}

/// The largest time budget over `s`; zero for an empty `s`, so callers ask
/// for it only on non-empty sequences.
pub open spec fn max_time_spec(s: Seq<Post>) -> int
    decreases s.len(),
{
    if s.len() == 0 {
        0
    } else if s.len() == 1 {
        s.last().time as int
    } else {
        let m = max_time_spec(s.drop_last());
        if s.last().time > m {
            s.last().time as int
        } else {
            m
        }
    }
}

/// Extending the filtered prefix by one post appends it when it matches and
/// changes nothing when it does not.
proof fn lemma_filter_take_step(s: Seq<Post>, user: Option<u64>, category: Option<Category>, i: int)
    requires
        0 <= i < s.len(),
    ensures
        filter_sel(s.take(i + 1), user, category) == if sel_matches(s[i], user, category) {
            filter_sel(s.take(i), user, category).push(s[i])
        } else {
            filter_sel(s.take(i), user, category)
        },
{
    let t = s.take(i + 1);
    assert(t.drop_last() =~= s.take(i));
    assert(t.last() == s[i]);
}

/// Filtering with an empty selector keeps every post.
pub proof fn lemma_filter_none_id(s: Seq<Post>)
    ensures
        filter_sel(s, None, None) == s,
    decreases s.len(),
{
    if s.len() == 0 {
        assert(filter_sel(s, None, None) =~= s);
    } else {
        lemma_filter_none_id(s.drop_last());
        assert(filter_sel(s, None, None) =~= s.drop_last().push(s.last()));
        assert(s.drop_last().push(s.last()) =~= s);
    }
}

/// Whether a post satisfies the selector.
fn matches_sel(p: &Post, user: Option<u64>, category: Option<Category>) -> (r: bool)
    ensures
        r == sel_matches(*p, user, category),
{
    let user_ok = match user {
        Some(u) => p.author == u,
        None => true,
    };
    let category_ok = match category {
        Some(c) => p.category == c,
        None => true,
    };
    user_ok && category_ok
}

/// The posts satisfying the selector, in store order.
fn filter_posts(posts: &Vec<Post>, user: Option<u64>, category: Option<Category>) -> (r: Vec<Post>)
    ensures
        r@ == filter_sel(posts@, user, category),
{
    let n = posts.len();
    let mut r: Vec<Post> = Vec::new();
    let mut i: usize = 0;
    while i < n
        invariant
            i <= n,
            n == posts@.len(),
            r@ == filter_sel(posts@.take(i as int), user, category),
        decreases n - i,
    {
        let p = &posts[i];
        if matches_sel(p, user, category) {
            r.push(p.clone());
        }
        proof {
            lemma_filter_take_step(posts@, user, category, i as int);
        }
        i = i + 1;
    }
    proof {
        assert(posts@.take(n as int) =~= posts@);
    }
    r
}

/// The number of posts satisfying the selector.
fn count_posts(posts: &Vec<Post>, user: Option<u64>, category: Option<Category>) -> (r: usize)
    ensures
        r == filter_sel(posts@, user, category).len(),
{
    let n = posts.len();
    let mut count: usize = 0;
    let mut i: usize = 0;
    while i < n
        invariant
            i <= n,
            n == posts@.len(),
            count <= i,
            count == filter_sel(posts@.take(i as int), user, category).len(),
        decreases n - i,
    {
        if matches_sel(&posts[i], user, category) {
            count = count + 1;
        }
        proof {
            lemma_filter_take_step(posts@, user, category, i as int);
        }
        i = i + 1;
    }
    proof {
        assert(posts@.take(n as int) =~= posts@);
    }
    count
}

/// The sum of likes over the posts satisfying the selector.
fn sum_likes_posts(posts: &Vec<Post>, user: Option<u64>, category: Option<Category>) -> (r: u128)
    ensures
        r as int == sum_likes_spec(filter_sel(posts@, user, category)),
{
    let n = posts.len();
    let mut total: u128 = 0;
    let mut i: usize = 0;
    while i < n
        invariant
            i <= n,
            n == posts@.len(),
            total as int <= (i as int) * (u64::MAX as int),
            total as int == sum_likes_spec(filter_sel(posts@.take(i as int), user, category)),
        decreases n - i,
    {
        proof {
            lemma_filter_take_step(posts@, user, category, i as int);
        }
        let p = &posts[i];
        if matches_sel(p, user, category) {
            proof {
                let f = filter_sel(posts@.take(i as int), user, category);
                assert(f.push(posts@[i as int]).drop_last() =~= f);
            }
            total = total + (p.likes as u128);
        }
        i = i + 1;
    }
    proof {
        assert(posts@.take(n as int) =~= posts@);
    }
    total
}

/// The sum of dislikes over the posts satisfying the selector.
fn sum_dislikes_posts(posts: &Vec<Post>, user: Option<u64>, category: Option<Category>) -> (r: u128)
    ensures
        r as int == sum_dislikes_spec(filter_sel(posts@, user, category)),
{
    let n = posts.len();
    let mut total: u128 = 0;
    let mut i: usize = 0;
    while i < n
        invariant
            i <= n,
            n == posts@.len(),
            total as int <= (i as int) * (u64::MAX as int),
            total as int == sum_dislikes_spec(filter_sel(posts@.take(i as int), user, category)),
        decreases n - i,
    {
        proof {
            lemma_filter_take_step(posts@, user, category, i as int);
        }
        let p = &posts[i];
        if matches_sel(p, user, category) {
            proof {
                let f = filter_sel(posts@.take(i as int), user, category);
                assert(f.push(posts@[i as int]).drop_last() =~= f);
            }
            total = total + (p.dislikes as u128);
        }
        i = i + 1;
    }
    proof {
        assert(posts@.take(n as int) =~= posts@);
    }
    total
}

/// The sum of time budgets over the posts satisfying the selector.
fn sum_time_posts(posts: &Vec<Post>, user: Option<u64>, category: Option<Category>) -> (r: i128)
    ensures
        r as int == sum_time_spec(filter_sel(posts@, user, category)),
{
    let n = posts.len();
    let mut total: i128 = 0;
    let mut i: usize = 0;
    while i < n
        invariant
            i <= n,
            n == posts@.len(),
            (i as int) * (i64::MIN as int) <= total as int,
            total as int <= (i as int) * (i64::MAX as int),
            total as int == sum_time_spec(filter_sel(posts@.take(i as int), user, category)),
        decreases n - i,
    {
        proof {
            lemma_filter_take_step(posts@, user, category, i as int);
        }
        let p = &posts[i];
        if matches_sel(p, user, category) {
            proof {
                let f = filter_sel(posts@.take(i as int), user, category);
                assert(f.push(posts@[i as int]).drop_last() =~= f);
            }
            total = total + (p.time as i128);
        }
        i = i + 1;
    }
    proof {
        assert(posts@.take(n as int) =~= posts@);
    }
    total
}

/// The largest time budget over the posts satisfying the selector, or `None`
/// when no post does.
fn max_time_posts(posts: &Vec<Post>, user: Option<u64>, category: Option<Category>) -> (r: Option<
    i64,
>)
    ensures
        r is None <==> filter_sel(posts@, user, category).len() == 0,
        r matches Some(t) ==> t as int == max_time_spec(filter_sel(posts@, user, category)),
{
    let n = posts.len();
    let mut best: Option<i64> = None;
    let mut i: usize = 0;
    while i < n
        invariant
            i <= n,
            n == posts@.len(),
            best is None <==> filter_sel(posts@.take(i as int), user, category).len() == 0,
            best matches Some(t) ==> t as int == max_time_spec(
                filter_sel(posts@.take(i as int), user, category),
            ),
        decreases n - i,
    {
        proof {
            lemma_filter_take_step(posts@, user, category, i as int);
        }
        let p = &posts[i];
        if matches_sel(p, user, category) {
            proof {
                let f = filter_sel(posts@.take(i as int), user, category);
                assert(f.push(posts@[i as int]).drop_last() =~= f);
            }
            best = match best {
                None => Some(p.time),
                Some(t) => if p.time > t {
                    Some(p.time)
                } else {
                    Some(t)
                },
            };
        }
        i = i + 1;
    }
    proof {
        assert(posts@.take(n as int) =~= posts@);
    }
    best
}

impl State {
    /// Every post of the store, in store order.
    pub fn get_all_posts(&self) -> (r: Vec<Post>)
        ensures
            r@ == self.posts@,
    {
        let r = filter_posts(&self.posts, None, None);
        proof {
            lemma_filter_none_id(self.posts@);
        }
        r
    }

    /// The posts in `category`, in store order.
    pub fn get_posts_by_category(&self, category: Category) -> (r: Vec<Post>)
        ensures
            r@ == filter_sel(self.posts@, None, Some(category)),
    {
        filter_posts(&self.posts, None, Some(category))
    }

    /// The posts authored by `user`, in store order.
    pub fn get_posts_by_user(&self, user: u64) -> (r: Vec<Post>)
        ensures
            r@ == filter_sel(self.posts@, Some(user), None),
    {
        filter_posts(&self.posts, Some(user), None)
    }

    /// The posts authored by `user` in `category`, in store order.
    pub fn get_posts_by_user_and_category(&self, user: u64, category: Category) -> (r: Vec<Post>)
        ensures
            r@ == filter_sel(self.posts@, Some(user), Some(category)),
    {
        filter_posts(&self.posts, Some(user), Some(category))
    }

    /// The largest time budget over `user`'s posts, or `None` when the user
    /// has no posts.
    pub fn get_highest_post_time(&self, user: u64) -> (r: Option<i64>)
        ensures
            r is None <==> filter_sel(self.posts@, Some(user), None).len() == 0,
            r matches Some(t) ==> t as int == max_time_spec(
                filter_sel(self.posts@, Some(user), None),
            ),
    {
        max_time_posts(&self.posts, Some(user), None)
    }

    /// The largest time budget over `user`'s posts in `category`, or `None`
    /// when there are none.
    pub fn get_highest_post_time_by_category(&self, user: u64, category: Category) -> (r: Option<
        i64,
    >)
        ensures
            r is None <==> filter_sel(self.posts@, Some(user), Some(category)).len() == 0,
            r matches Some(t) ==> t as int == max_time_spec(
                filter_sel(self.posts@, Some(user), Some(category)),
            ),
    {
        max_time_posts(&self.posts, Some(user), Some(category))
    }

    /// How many posts `user` authored.
    pub fn get_number_of_posts_by_user(&self, user: u64) -> (r: usize)
        ensures
            r == filter_sel(self.posts@, Some(user), None).len(),
    {
        count_posts(&self.posts, Some(user), None)
    }

    /// How many posts `user` authored in `category`.
    pub fn get_number_of_posts_by_user_and_category(&self, user: u64, category: Category) -> (r:
        usize)
        ensures
            r == filter_sel(self.posts@, Some(user), Some(category)).len(),
    {
        count_posts(&self.posts, Some(user), Some(category))
    }

    /// The sum of likes over `user`'s posts.
    pub fn get_total_likes_by_user(&self, user: u64) -> (r: u128)
        ensures
            r as int == sum_likes_spec(filter_sel(self.posts@, Some(user), None)),
    {
        sum_likes_posts(&self.posts, Some(user), None)
    }

    /// The sum of dislikes over `user`'s posts.
    pub fn get_total_dislikes_by_user(&self, user: u64) -> (r: u128)
        ensures
            r as int == sum_dislikes_spec(filter_sel(self.posts@, Some(user), None)),
    {
        sum_dislikes_posts(&self.posts, Some(user), None)
    }

    /// The sum of time budgets over `user`'s posts.
    pub fn get_total_time_by_user(&self, user: u64) -> (r: i128)
        ensures
            r as int == sum_time_spec(filter_sel(self.posts@, Some(user), None)),
    {
        sum_time_posts(&self.posts, Some(user), None)
    }

    /// The sum of likes over `user`'s posts in `category`.
    pub fn get_total_likes_by_user_and_category(&self, user: u64, category: Category) -> (r: u128)
        ensures
            r as int == sum_likes_spec(filter_sel(self.posts@, Some(user), Some(category))),
    {
        sum_likes_posts(&self.posts, Some(user), Some(category))
    }

    /// The sum of dislikes over `user`'s posts in `category`.
    pub fn get_total_dislikes_by_user_and_category(&self, user: u64, category: Category) -> (r:
        u128)
        ensures
            r as int == sum_dislikes_spec(filter_sel(self.posts@, Some(user), Some(category))),
    {
        sum_dislikes_posts(&self.posts, Some(user), Some(category))
    }

    /// The sum of time budgets over `user`'s posts in `category`.
    pub fn get_total_time_by_user_and_category(&self, user: u64, category: Category) -> (r: i128)
        ensures
            r as int == sum_time_spec(filter_sel(self.posts@, Some(user), Some(category))),
    {
        sum_time_posts(&self.posts, Some(user), Some(category))
    }

    /// The likes of the single post `post_id`, which must exist and be
    /// authored by `user`.
    pub fn get_total_likes_by_user_and_post(&self, user: u64, post_id: u64) -> (r: Result<
        u64,
        PostError,
    >)
        requires
            self.wf(),
        ensures
            r == Err::<u64, PostError>(PostError::NotFound) <==> !has_post(self.posts@, post_id),
            r == Err::<u64, PostError>(PostError::Unauthorized) <==> has_post(self.posts@, post_id)
                && post_at(self.posts@, post_id).author != user,
            r is Ok <==> has_post(self.posts@, post_id) && post_at(self.posts@, post_id).author
                == user,
            r is Ok ==> r == Ok::<u64, PostError>(post_at(self.posts@, post_id).likes),
    {
        let idx = match self.find_post(post_id) {
            Some(i) => i,
            None => {
                return Err(PostError::NotFound);
            },
        };
        proof {
            lemma_post_index_unique(self.posts@, idx as int, post_id);
        }
        if self.posts[idx].author != user {
            return Err(PostError::Unauthorized);
        }
        Ok(self.posts[idx].likes)
    }

    /// The dislikes of the single post `post_id`, which must exist and be
    /// authored by `user`.
    pub fn get_total_dislikes_by_user_and_post(&self, user: u64, post_id: u64) -> (r: Result<
        u64,
        PostError,
    >)
        requires
            self.wf(),
        ensures
            r == Err::<u64, PostError>(PostError::NotFound) <==> !has_post(self.posts@, post_id),
            r == Err::<u64, PostError>(PostError::Unauthorized) <==> has_post(self.posts@, post_id)
                && post_at(self.posts@, post_id).author != user,
            r is Ok <==> has_post(self.posts@, post_id) && post_at(self.posts@, post_id).author
                == user,
            r is Ok ==> r == Ok::<u64, PostError>(post_at(self.posts@, post_id).dislikes),
    {
        let idx = match self.find_post(post_id) {
            Some(i) => i,
            None => {
                return Err(PostError::NotFound);
            },
        };
        proof {
            lemma_post_index_unique(self.posts@, idx as int, post_id);
        }
        if self.posts[idx].author != user {
            return Err(PostError::Unauthorized);
        }
        Ok(self.posts[idx].dislikes)
    }

    /// The time budget of the single post `post_id`, which must exist and be
    /// authored by `user`.
    pub fn get_total_time_by_user_and_post(&self, user: u64, post_id: u64) -> (r: Result<
        i64,
        PostError,
    >)
        requires
            self.wf(),
        ensures
            r == Err::<i64, PostError>(PostError::NotFound) <==> !has_post(self.posts@, post_id),
            r == Err::<i64, PostError>(PostError::Unauthorized) <==> has_post(self.posts@, post_id)
                && post_at(self.posts@, post_id).author != user,
            r is Ok <==> has_post(self.posts@, post_id) && post_at(self.posts@, post_id).author
                == user,
            r is Ok ==> r == Ok::<i64, PostError>(post_at(self.posts@, post_id).time),
    {
        let idx = match self.find_post(post_id) {
            Some(i) => i,
            None => {
                return Err(PostError::NotFound);
            },
        };
        proof {
            lemma_post_index_unique(self.posts@, idx as int, post_id);
        }
        if self.posts[idx].author != user {
            return Err(PostError::Unauthorized);
        }
        Ok(self.posts[idx].time)
    }
}

} // verus!
