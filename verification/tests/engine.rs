// Tests of the mutating operations: creation, engagement, expiry, and the
// token economy around them.

use timepost::ledger::Ledger;
use timepost::post::{Category, PostError};
use timepost::store::State;

const CONTRACT: u64 = 1000;
const ALICE: u64 = 1;
const BOB: u64 = 2;

fn setup(funds: &[(u64, u64)]) -> (State, Ledger) {
    let state = State::new(CONTRACT);
    let mut ledger = Ledger::new();
    for (account, amount) in funds {
        ledger.credit(*account, *amount);
    }
    (state, ledger)
}

fn make_post(state: &mut State, ledger: &mut Ledger, author: u64, image: u64) -> u64 {
    state
        .create_post(
            ledger,
            author,
            Category::General,
            String::from("heading"),
            String::from("content"),
            image,
        )
        .unwrap()
}

#[test]
fn create_post_initializes_record() {
    let (mut state, mut ledger) = setup(&[(ALICE, 10)]);
    let id = state
        .create_post(
            &mut ledger,
            ALICE,
            Category::News,
            String::from("hello"),
            String::from("world"),
            42,
        )
        .unwrap();
    let post = state.get_post(id).unwrap();
    assert_eq!(post.id, id);
    assert_eq!(post.category, Category::News);
    assert_eq!(post.heading, "hello");
    assert_eq!(post.content, "world");
    assert_eq!(post.image, 42);
    assert_eq!(post.author, ALICE);
    assert_eq!(post.likes, 0);
    assert_eq!(post.dislikes, 0);
    assert_eq!(post.time, 5);
    assert_eq!(ledger.balance_of(ALICE), 5);
    assert_eq!(ledger.balance_of(CONTRACT), 5);
}

#[test]
fn create_post_ids_are_fresh() {
    let (mut state, mut ledger) = setup(&[(ALICE, 20)]);
    let a = make_post(&mut state, &mut ledger, ALICE, 1);
    let b = make_post(&mut state, &mut ledger, ALICE, 2);
    assert_ne!(a, b);
    assert!(state.contains_post(a));
    assert!(state.contains_post(b));
}

#[test]
fn create_post_insufficient_balance_changes_nothing() {
    let (mut state, mut ledger) = setup(&[(ALICE, 4)]);
    let r = state.create_post(
        &mut ledger,
        ALICE,
        Category::General,
        String::from("h"),
        String::from("c"),
        7,
    );
    assert_eq!(r, Err(PostError::InsufficientBalance));
    assert_eq!(state.get_all_posts().len(), 0);
    assert_eq!(ledger.balance_of(ALICE), 4);
    assert_eq!(ledger.balance_of(CONTRACT), 0);
}

#[test]
fn like_post_updates_counters() {
    let (mut state, mut ledger) = setup(&[(ALICE, 10), (BOB, 3)]);
    let id = make_post(&mut state, &mut ledger, ALICE, 9);
    state.like_post(&mut ledger, BOB, id).unwrap();
    let post = state.get_post(id).unwrap();
    assert_eq!(post.likes, 1);
    assert_eq!(post.dislikes, 0);
    assert_eq!(post.time, 6);
    assert_eq!(ledger.balance_of(BOB), 2);
    assert_eq!(ledger.balance_of(CONTRACT), 6);
}

#[test]
fn like_post_not_found() {
    let (mut state, mut ledger) = setup(&[(BOB, 3)]);
    assert_eq!(
        state.like_post(&mut ledger, BOB, 77),
        Err(PostError::NotFound)
    );
    assert_eq!(ledger.balance_of(BOB), 3);
}

#[test]
fn like_post_insufficient_balance_changes_nothing() {
    let (mut state, mut ledger) = setup(&[(ALICE, 10)]);
    let id = make_post(&mut state, &mut ledger, ALICE, 9);
    let r = state.like_post(&mut ledger, BOB, id);
    assert_eq!(r, Err(PostError::InsufficientBalance));
    let post = state.get_post(id).unwrap();
    assert_eq!(post.likes, 0);
    assert_eq!(post.time, 5);
    assert_eq!(ledger.balance_of(BOB), 0);
    assert_eq!(ledger.balance_of(CONTRACT), 5);
}

#[test]
fn dislike_post_updates_counters() {
    let (mut state, mut ledger) = setup(&[(ALICE, 10), (BOB, 3)]);
    let id = make_post(&mut state, &mut ledger, ALICE, 9);
    state.dislike_post(&mut ledger, BOB, id).unwrap();
    let post = state.get_post(id).unwrap();
    assert_eq!(post.likes, 0);
    assert_eq!(post.dislikes, 1);
    assert_eq!(post.time, 4);
    assert_eq!(ledger.balance_of(BOB), 2);
}

#[test]
fn dislike_removes_post_exactly_at_zero_time() {
    let (mut state, mut ledger) = setup(&[(ALICE, 10), (BOB, 10)]);
    let id = make_post(&mut state, &mut ledger, ALICE, 9);
    for expected_time in [4, 3, 2, 1] {
        state.dislike_post(&mut ledger, BOB, id).unwrap();
        let post = state.get_post(id).unwrap();
        assert_eq!(post.time, expected_time);
    }
    // The fifth dislike drives time to zero and removes the post.
    state.dislike_post(&mut ledger, BOB, id).unwrap();
    assert!(!state.contains_post(id));
    assert!(matches!(state.get_post(id), Err(PostError::NotFound)));
}

#[test]
fn like_never_removes_post() {
    let (mut state, mut ledger) = setup(&[(ALICE, 10), (BOB, 10)]);
    let id = make_post(&mut state, &mut ledger, ALICE, 9);
    for _ in 0..10 {
        state.like_post(&mut ledger, BOB, id).unwrap();
    }
    assert!(state.contains_post(id));
    assert_eq!(state.get_post(id).unwrap().time, 15);
}

#[test]
fn reaction_tally_matches_counts() {
    // After 4 likes and 2 dislikes in mixed order, time is 5 + 4 - 2.
    let (mut state, mut ledger) = setup(&[(ALICE, 10), (BOB, 10)]);
    let id = make_post(&mut state, &mut ledger, ALICE, 9);
    for is_like in [true, false, true, true, false, true] {
        if is_like {
            state.like_post(&mut ledger, BOB, id).unwrap();
        } else {
            state.dislike_post(&mut ledger, BOB, id).unwrap();
        }
    }
    let post = state.get_post(id).unwrap();
    assert_eq!(post.likes, 4);
    assert_eq!(post.dislikes, 2);
    assert_eq!(post.time, 7);
}

#[test]
fn post_lifecycle_scenario() {
    // Create (cost 5, time 5), three likes (cost 1 each, time 8), then eight
    // dislikes: the time drops by one per call and reaches zero on the
    // eighth, which removes the post.
    let (mut state, mut ledger) = setup(&[(ALICE, 5), (BOB, 20)]);
    let id = make_post(&mut state, &mut ledger, ALICE, 3);
    assert_eq!(ledger.balance_of(ALICE), 0);
    assert_eq!(state.get_post(id).unwrap().time, 5);
    for _ in 0..3 {
        state.like_post(&mut ledger, BOB, id).unwrap();
    }
    assert_eq!(ledger.balance_of(BOB), 17);
    let post = state.get_post(id).unwrap();
    assert_eq!(post.time, 8);
    assert_eq!(post.likes, 3);
    for round in 1..=8i64 {
        state.dislike_post(&mut ledger, BOB, id).unwrap();
        if round < 8 {
            assert_eq!(state.get_post(id).unwrap().time, 8 - round);
        }
    }
    assert_eq!(ledger.balance_of(BOB), 9);
    assert!(!state.contains_post(id));
    assert!(matches!(state.get_post(id), Err(PostError::NotFound)));
    assert!(state.get_all_posts().iter().all(|p| p.id != id));
}

#[test]
fn withdraw_time_by_author() {
    let (mut state, mut ledger) = setup(&[(ALICE, 10)]);
    let id = make_post(&mut state, &mut ledger, ALICE, 9);
    state
        .withdraw_time_by_user_and_post(&mut ledger, ALICE, id)
        .unwrap();
    let post = state.get_post(id).unwrap();
    assert_eq!(post.time, 4);
    assert_eq!(ledger.balance_of(ALICE), 4);
}

#[test]
fn withdraw_by_non_author_unauthorized() {
    // An unauthorized withdrawal leaves time and balances unchanged.
    let (mut state, mut ledger) = setup(&[(ALICE, 10), (BOB, 10)]);
    let id = make_post(&mut state, &mut ledger, ALICE, 9);
    let r = state.withdraw_time_by_user_and_post(&mut ledger, BOB, id);
    assert_eq!(r, Err(PostError::Unauthorized));
    assert_eq!(state.get_post(id).unwrap().time, 5);
    assert_eq!(ledger.balance_of(BOB), 10);
    assert_eq!(ledger.balance_of(ALICE), 5);
    assert_eq!(ledger.balance_of(CONTRACT), 5);
}

#[test]
fn withdraw_not_found_and_insufficient_balance() {
    let (mut state, mut ledger) = setup(&[(ALICE, 5)]);
    let id = make_post(&mut state, &mut ledger, ALICE, 9);
    assert_eq!(
        state.withdraw_time_by_user_and_post(&mut ledger, ALICE, id + 1),
        Err(PostError::NotFound)
    );
    // Creation spent all of the author's tokens.
    assert_eq!(
        state.withdraw_time_by_user_and_post(&mut ledger, ALICE, id),
        Err(PostError::InsufficientBalance)
    );
    assert_eq!(state.get_post(id).unwrap().time, 5);
}

#[test]
fn withdraw_below_zero_keeps_post() {
    // Only dislikes remove a post: withdrawals may leave its time negative.
    let (mut state, mut ledger) = setup(&[(ALICE, 12)]);
    let id = make_post(&mut state, &mut ledger, ALICE, 9);
    for _ in 0..7 {
        state
            .withdraw_time_by_user_and_post(&mut ledger, ALICE, id)
            .unwrap();
    }
    assert!(state.contains_post(id));
    assert_eq!(state.get_post(id).unwrap().time, -2);
}

#[test]
fn charges_accumulate_on_contract_account() {
    let (mut state, mut ledger) = setup(&[(ALICE, 10), (BOB, 10)]);
    let id = make_post(&mut state, &mut ledger, ALICE, 9);
    state.like_post(&mut ledger, BOB, id).unwrap();
    state.dislike_post(&mut ledger, BOB, id).unwrap();
    state
        .withdraw_time_by_user_and_post(&mut ledger, ALICE, id)
        .unwrap();
    assert_eq!(ledger.balance_of(CONTRACT), 5 + 1 + 1 + 1);
    assert_eq!(ledger.balance_of(ALICE), 10 - 5 - 1);
    assert_eq!(ledger.balance_of(BOB), 10 - 1 - 1);
}

#[test]
fn nft_linkage_minted_per_creation() {
    let (mut state, mut ledger) = setup(&[(ALICE, 20)]);
    make_post(&mut state, &mut ledger, ALICE, 111);
    make_post(&mut state, &mut ledger, ALICE, 222);
    assert_eq!(state.nfts.len(), 2);
    assert_eq!(state.nfts[0].image, 111);
    assert_eq!(state.nfts[1].image, 222);
    assert_ne!(state.nfts[0].collectible, state.nfts[1].collectible);
}

#[test]
fn nft_linkage_overwritten_on_image_reuse() {
    let (mut state, mut ledger) = setup(&[(ALICE, 20)]);
    make_post(&mut state, &mut ledger, ALICE, 111);
    let first = state.nfts[0].collectible;
    make_post(&mut state, &mut ledger, ALICE, 111);
    assert_eq!(state.nfts.len(), 1);
    assert_eq!(state.nfts[0].image, 111);
    assert_ne!(state.nfts[0].collectible, first);
}
