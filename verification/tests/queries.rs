// Tests of the read-only query layer: filters, counts, sums, and maxima
// computed over a snapshot of the post store.

use timepost::ledger::Ledger;
use timepost::post::{Category, PostError};
use timepost::store::State;

const CONTRACT: u64 = 1000;
const ALICE: u64 = 1;
const BOB: u64 = 2;
const CAROL: u64 = 3;

// Builds a store with four posts:
//   Alice: News (2 likes), News (1 dislike), Music (1 like)
//   Bob:   Music (3 likes)
//   Carol: none
fn sample() -> (State, Ledger, Vec<u64>) {
    let mut state = State::new(CONTRACT);
    let mut ledger = Ledger::new();
    ledger.credit(ALICE, 100);
    ledger.credit(BOB, 100);
    let plan = [
        (ALICE, Category::News),
        (ALICE, Category::News),
        (ALICE, Category::Music),
        (BOB, Category::Music),
    ];
    let mut ids = Vec::new();
    for (author, category) in plan {
        let id = state
            .create_post(
                &mut ledger,
                author,
                category,
                String::from("h"),
                String::from("c"),
                id_seed(&ids),
            )
            .unwrap();
        ids.push(id);
    }
    for _ in 0..2 {
        state.like_post(&mut ledger, BOB, ids[0]).unwrap();
    }
    state.dislike_post(&mut ledger, BOB, ids[1]).unwrap();
    state.like_post(&mut ledger, BOB, ids[2]).unwrap();
    for _ in 0..3 {
        state.like_post(&mut ledger, ALICE, ids[3]).unwrap();
    }
    (state, ledger, ids)
}

fn id_seed(ids: &Vec<u64>) -> u64 {
    10_000 + ids.len() as u64
}

#[test]
fn get_all_posts_returns_every_post() {
    let (state, _, ids) = sample();
    let all = state.get_all_posts();
    assert_eq!(all.len(), 4);
    for (i, id) in ids.iter().enumerate() {
        assert_eq!(all[i].id, *id);
    }
}

#[test]
fn filter_by_category() {
    let (state, _, _) = sample();
    let news = state.get_posts_by_category(Category::News);
    assert_eq!(news.len(), 2);
    assert!(news.iter().all(|p| p.category == Category::News));
    let sports = state.get_posts_by_category(Category::Sports);
    assert_eq!(sports.len(), 0);
}

#[test]
fn filter_by_user() {
    let (state, _, _) = sample();
    let alices = state.get_posts_by_user(ALICE);
    assert_eq!(alices.len(), 3);
    assert!(alices.iter().all(|p| p.author == ALICE));
    assert_eq!(state.get_posts_by_user(CAROL).len(), 0);
}

#[test]
fn filter_by_user_and_category() {
    let (state, _, _) = sample();
    let alice_news = state.get_posts_by_user_and_category(ALICE, Category::News);
    assert_eq!(alice_news.len(), 2);
    assert!(alice_news
        .iter()
        .all(|p| p.author == ALICE && p.category == Category::News));
    assert_eq!(
        state
            .get_posts_by_user_and_category(BOB, Category::News)
            .len(),
        0
    );
}

#[test]
fn counts_by_user() {
    let (state, _, _) = sample();
    assert_eq!(state.get_number_of_posts_by_user(ALICE), 3);
    assert_eq!(state.get_number_of_posts_by_user(BOB), 1);
    assert_eq!(state.get_number_of_posts_by_user(CAROL), 0);
    assert_eq!(
        state.get_number_of_posts_by_user_and_category(ALICE, Category::Music),
        1
    );
}

#[test]
fn totals_by_user() {
    let (state, _, _) = sample();
    // Alice: likes 2 + 0 + 1, dislikes 0 + 1 + 0, time 7 + 4 + 6.
    assert_eq!(state.get_total_likes_by_user(ALICE), 3);
    assert_eq!(state.get_total_dislikes_by_user(ALICE), 1);
    assert_eq!(state.get_total_time_by_user(ALICE), 17);
    assert_eq!(state.get_total_likes_by_user(BOB), 3);
    assert_eq!(state.get_total_time_by_user(CAROL), 0);
}

#[test]
fn totals_by_user_and_category() {
    let (state, _, _) = sample();
    assert_eq!(
        state.get_total_likes_by_user_and_category(ALICE, Category::News),
        2
    );
    assert_eq!(
        state.get_total_dislikes_by_user_and_category(ALICE, Category::News),
        1
    );
    assert_eq!(
        state.get_total_time_by_user_and_category(ALICE, Category::News),
        11
    );
    assert_eq!(
        state.get_total_likes_by_user_and_category(CAROL, Category::News),
        0
    );
}

#[test]
fn totals_equal_sums_over_filtered_posts() {
    // The aggregate queries agree with summing over the filtered posts.
    let (state, _, _) = sample();
    for user in [ALICE, BOB, CAROL] {
        let posts = state.get_posts_by_user(user);
        let likes: u128 = posts.iter().map(|p| p.likes as u128).sum();
        let dislikes: u128 = posts.iter().map(|p| p.dislikes as u128).sum();
        let time: i128 = posts.iter().map(|p| p.time as i128).sum();
        assert_eq!(state.get_total_likes_by_user(user), likes);
        assert_eq!(state.get_total_dislikes_by_user(user), dislikes);
        assert_eq!(state.get_total_time_by_user(user), time);
    }
}

#[test]
fn highest_time_none_without_posts() {
    // A user with no posts gets the explicit no-data outcome, not a fault.
    let (state, _, _) = sample();
    assert_eq!(state.get_highest_post_time(CAROL), None);
    assert_eq!(
        state.get_highest_post_time_by_category(ALICE, Category::Sports),
        None
    );
    let empty = State::new(CONTRACT);
    assert_eq!(empty.get_highest_post_time(ALICE), None);
}

#[test]
fn highest_time_picks_maximum() {
    let (state, _, _) = sample();
    // Alice's post times are 7, 4, and 6.
    assert_eq!(state.get_highest_post_time(ALICE), Some(7));
    assert_eq!(
        state.get_highest_post_time_by_category(ALICE, Category::Music),
        Some(6)
    );
    assert_eq!(state.get_highest_post_time(BOB), Some(8));
}

#[test]
fn single_post_totals_require_authorship() {
    let (state, _, ids) = sample();
    assert_eq!(state.get_total_likes_by_user_and_post(ALICE, ids[0]), Ok(2));
    assert_eq!(
        state.get_total_dislikes_by_user_and_post(ALICE, ids[1]),
        Ok(1)
    );
    assert_eq!(state.get_total_time_by_user_and_post(ALICE, ids[2]), Ok(6));
    assert_eq!(
        state.get_total_likes_by_user_and_post(BOB, ids[0]),
        Err(PostError::Unauthorized)
    );
    assert_eq!(
        state.get_total_time_by_user_and_post(ALICE, 424242),
        Err(PostError::NotFound)
    );
}

#[test]
fn get_post_not_found() {
    let state = State::new(CONTRACT);
    assert!(matches!(state.get_post(5), Err(PostError::NotFound)));
    assert!(!state.contains_post(5));
}
