use vstd::prelude::*;
use crate::post::{dislike_update, like_update, Post};
use crate::query::{filter_sel, sum_dislikes_spec, sum_likes_spec, sum_time_spec};

verus! {

/// The likes total of a sequence of posts is the fold of their like
/// counters, one per post.
pub proof fn lemma_sum_likes_is_fold(q: Seq<Post>)
    ensures
        sum_likes_spec(q) == q.fold_left(0int, (|acc: int, p: Post| acc + p.likes)),
    decreases q.len(),
{
    if q.len() > 0 {
        lemma_sum_likes_is_fold(q.drop_last());
    }
}

/// The dislikes total of a sequence of posts is the fold of their dislike
/// counters, one per post.
pub proof fn lemma_sum_dislikes_is_fold(q: Seq<Post>)
    ensures
        sum_dislikes_spec(q) == q.fold_left(0int, (|acc: int, p: Post| acc + p.dislikes)),
    decreases q.len(),
{
    if q.len() > 0 {
        lemma_sum_dislikes_is_fold(q.drop_last());
    }
}

/// The time total of a sequence of posts is the fold of their time budgets,
/// one per post.
pub proof fn lemma_sum_time_is_fold(q: Seq<Post>)
    ensures
        sum_time_spec(q) == q.fold_left(0int, (|acc: int, p: Post| acc + p.time)),
    decreases q.len(),
{
    if q.len() > 0 {
        lemma_sum_time_is_fold(q.drop_last());
    }
}

/// Law: the per-user totals are the sums over exactly the posts the per-user
/// filter returns. `State::get_total_likes_by_user` promises the left-hand
/// aggregate and `State::get_posts_by_user` returns the filtered posts the
/// right-hand fold walks, so the two queries always agree; likewise for
/// dislikes and time.
pub proof fn lemma_user_totals_sum_user_posts(s: Seq<Post>, user: u64)
    ensures
        ({
            let q = filter_sel(s, Some(user), None);
            &&& sum_likes_spec(q) == q.fold_left(0int, (|acc: int, p: Post| acc + p.likes))
            &&& sum_dislikes_spec(q) == q.fold_left(0int, (|acc: int, p: Post| acc + p.dislikes))
            &&& sum_time_spec(q) == q.fold_left(0int, (|acc: int, p: Post| acc + p.time))
        }),
{
    let q = filter_sel(s, Some(user), None);
    lemma_sum_likes_is_fold(q);
    lemma_sum_dislikes_is_fold(q);
    lemma_sum_time_is_fold(q);
}

/// How many of the reactions in `evs` are likes; `true` stands for a like,
/// `false` for a dislike.
pub open spec fn count_likes(evs: Seq<bool>) -> int
    decreases evs.len(),
{
    if evs.len() == 0 {
        0
    } else {
        count_likes(evs.drop_last()) + if evs.last() {
            1int
        } else {
            0int
        }
    }
}

/// The post record after the reactions of `evs`, applied in order. This folds
/// exactly the per-call updates that `State::like_post` and
/// `State::dislike_post` guarantee for a surviving post.
pub open spec fn apply_reactions(p: Post, evs: Seq<bool>) -> Post
    decreases evs.len(),
{
    if evs.len() == 0 {
        p
    } else {
        let q = apply_reactions(p, evs.drop_last());
        if evs.last() {
            like_update(q)
        } else {
            dislike_update(q)
        }
    }
}

/// The number of likes among the reactions lies between zero and the number
/// of reactions.
pub proof fn lemma_count_likes_bounds(evs: Seq<bool>)
    ensures
        0 <= count_likes(evs) <= evs.len(),
    decreases evs.len(),
{
    if evs.len() > 0 {
        lemma_count_likes_bounds(evs.drop_last());
    }
}

/// Law: after a sequence of N likes and M dislikes, in any order and with
/// the post surviving each of them, the like counter has grown by N, the
/// dislike counter by M, the time budget by N - M, and every other field is
/// unchanged. The bounds in the requires keep each counter within its
/// machine type along the way.
pub proof fn lemma_reaction_tally(p: Post, evs: Seq<bool>)
    requires
        p.likes + count_likes(evs) <= u64::MAX,
        p.dislikes + (evs.len() - count_likes(evs)) <= u64::MAX,
        p.time + count_likes(evs) <= i64::MAX,
        p.time - (evs.len() - count_likes(evs)) >= i64::MIN,
    ensures
        ({
            let n = count_likes(evs);
            let m = evs.len() - n;
            let q = apply_reactions(p, evs);
            &&& q.likes == p.likes + n
            &&& q.dislikes == p.dislikes + m
            &&& q.time == p.time + n - m
            &&& q.id == p.id
            &&& q.author == p.author
            &&& q.category == p.category
            &&& q.heading == p.heading
            &&& q.content == p.content
            &&& q.image == p.image
        }),
    decreases evs.len(),
{
    lemma_count_likes_bounds(evs);
    if evs.len() > 0 {
        let rest = evs.drop_last();
        lemma_count_likes_bounds(rest);
        lemma_reaction_tally(p, rest);
    }
}

} // verus!
