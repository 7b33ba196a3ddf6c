//! End-to-end behavior of the four operation handlers.

use social_ledger::errors::ErrorCode;
use social_ledger::keys::{post_key, profile_key, RecordKey};
use social_ledger::ops::{
    create_post, create_profile, follow_user, like_post, PostLiked, UserFollowed,
};
use social_ledger::records::Record;
use social_ledger::store::RecordStore;

const ALICE: u64 = 1;
const BOB: u64 = 2;

fn profile_counters(store: &RecordStore, owner: u64) -> (u64, u64, u64) {
    match store.read(profile_key(owner)) {
        Some(Record::Profile(p)) => (p.post_count, p.follower_count, p.following_count),
        _ => panic!("no profile for {owner}"),
    }
}

#[test]
fn scenario_profile_post_like() {
    let mut store = RecordStore::new();

    let created = create_profile(&mut store, ALICE, b"alice_h".to_vec(), b"Alice".to_vec());
    assert_eq!(created, Ok(()));
    match store.read(profile_key(ALICE)) {
        Some(Record::Profile(p)) => {
            assert_eq!(p.owner, ALICE);
            assert_eq!(p.handle, b"alice_h".to_vec());
            assert_eq!(p.name, b"Alice".to_vec());
            assert_eq!(p.post_count, 0);
            assert_eq!(p.follower_count, 0);
            assert_eq!(p.following_count, 0);
        }
        _ => panic!("profile missing"),
    }

    let posted = create_post(&mut store, ALICE, b"hello world".to_vec(), 1_000);
    assert_eq!(posted, Ok(post_key(ALICE, 0)));
    let pk = posted.unwrap();
    match store.read(pk) {
        Some(Record::Post(p)) => {
            assert_eq!(p.author, ALICE);
            assert_eq!(p.content, b"hello world".to_vec());
            assert_eq!(p.timestamp, 1_000);
            assert_eq!(p.like_count, 0);
            assert_eq!(p.comment_count, 0);
        }
        _ => panic!("post missing"),
    }
    assert_eq!(profile_counters(&store, ALICE).0, 1);

    let liked = like_post(&mut store, pk, BOB, 1_050);
    assert_eq!(
        liked,
        Ok(PostLiked { post_key: pk, liker: BOB, timestamp: 1_050 })
    );
    match store.read(pk) {
        Some(Record::Post(p)) => assert_eq!(p.like_count, 1),
        _ => panic!("post missing"),
    }
}

#[test]
fn create_profile_twice_fails_with_already_exists() {
    let mut store = RecordStore::new();
    assert_eq!(
        create_profile(&mut store, ALICE, b"a".to_vec(), b"A".to_vec()),
        Ok(())
    );
    assert_eq!(
        create_profile(&mut store, ALICE, b"other".to_vec(), b"Other".to_vec()),
        Err(ErrorCode::AlreadyExists)
    );
    // the first profile is untouched
    match store.read(profile_key(ALICE)) {
        Some(Record::Profile(p)) => assert_eq!(p.handle, b"a".to_vec()),
        _ => panic!("profile missing"),
    }
}

#[test]
fn create_profile_rejects_long_handle_and_name() {
    let mut store = RecordStore::new();
    assert_eq!(
        create_profile(&mut store, ALICE, vec![b'h'; 16], b"A".to_vec()),
        Err(ErrorCode::ContentTooLong)
    );
    assert_eq!(
        create_profile(&mut store, ALICE, b"h".to_vec(), vec![b'n'; 51]),
        Err(ErrorCode::ContentTooLong)
    );
    assert!(store.read(profile_key(ALICE)).is_none());
    // both fields at their exact ceilings are accepted
    assert_eq!(
        create_profile(&mut store, ALICE, vec![b'h'; 15], vec![b'n'; 50]),
        Ok(())
    );
}

#[test]
fn create_post_accepts_ceiling_and_increments_count() {
    let mut store = RecordStore::new();
    create_profile(&mut store, ALICE, b"a".to_vec(), b"A".to_vec()).unwrap();
    let posted = create_post(&mut store, ALICE, vec![b'x'; 280], 7);
    assert_eq!(posted, Ok(post_key(ALICE, 0)));
    assert_eq!(profile_counters(&store, ALICE).0, 1);
    // the next post lands in the next slot
    let posted = create_post(&mut store, ALICE, b"second".to_vec(), 8);
    assert_eq!(posted, Ok(post_key(ALICE, 1)));
    assert_eq!(profile_counters(&store, ALICE).0, 2);
}

#[test]
fn create_post_rejects_281_bytes_and_creates_nothing() {
    let mut store = RecordStore::new();
    create_profile(&mut store, ALICE, b"a".to_vec(), b"A".to_vec()).unwrap();
    let posted = create_post(&mut store, ALICE, vec![b'x'; 281], 7);
    assert_eq!(posted, Err(ErrorCode::ContentTooLong));
    assert!(store.read(post_key(ALICE, 0)).is_none());
    assert_eq!(profile_counters(&store, ALICE).0, 0);
}

#[test]
fn create_post_without_profile_fails_with_not_found() {
    let mut store = RecordStore::new();
    assert_eq!(
        create_post(&mut store, ALICE, b"hi".to_vec(), 7),
        Err(ErrorCode::NotFound)
    );
    assert!(store.read(post_key(ALICE, 0)).is_none());
}

#[test]
fn repeated_likes_accumulate() {
    let mut store = RecordStore::new();
    create_profile(&mut store, ALICE, b"a".to_vec(), b"A".to_vec()).unwrap();
    let pk = create_post(&mut store, ALICE, b"popular".to_vec(), 7).unwrap();
    for i in 0..5u64 {
        let liked = like_post(&mut store, pk, BOB, 100 + i as i64);
        assert_eq!(
            liked,
            Ok(PostLiked { post_key: pk, liker: BOB, timestamp: 100 + i as i64 })
        );
    }
    match store.read(pk) {
        Some(Record::Post(p)) => assert_eq!(p.like_count, 5),
        _ => panic!("post missing"),
    }
}

#[test]
fn like_post_fails_with_not_found_for_missing_or_non_post_key() {
    let mut store = RecordStore::new();
    create_profile(&mut store, ALICE, b"a".to_vec(), b"A".to_vec()).unwrap();
    assert_eq!(
        like_post(&mut store, post_key(ALICE, 0), BOB, 7),
        Err(ErrorCode::NotFound)
    );
    // a profile key never names a post
    assert_eq!(
        like_post(&mut store, profile_key(ALICE), BOB, 7),
        Err(ErrorCode::NotFound)
    );
}

#[test]
fn follow_user_bumps_both_counters_and_twice_doubles_them() {
    let mut store = RecordStore::new();
    create_profile(&mut store, ALICE, b"a".to_vec(), b"A".to_vec()).unwrap();
    create_profile(&mut store, BOB, b"b".to_vec(), b"B".to_vec()).unwrap();

    let followed = follow_user(&mut store, ALICE, BOB, 7);
    assert_eq!(
        followed,
        Ok(UserFollowed { follower: ALICE, followee: BOB, timestamp: 7 })
    );
    assert_eq!(profile_counters(&store, ALICE), (0, 0, 1));
    assert_eq!(profile_counters(&store, BOB), (0, 1, 0));

    follow_user(&mut store, ALICE, BOB, 8).unwrap();
    assert_eq!(profile_counters(&store, ALICE), (0, 0, 2));
    assert_eq!(profile_counters(&store, BOB), (0, 2, 0));
}

#[test]
fn self_follow_bumps_both_counters_of_one_profile() {
    let mut store = RecordStore::new();
    create_profile(&mut store, ALICE, b"a".to_vec(), b"A".to_vec()).unwrap();
    follow_user(&mut store, ALICE, ALICE, 7).unwrap();
    assert_eq!(profile_counters(&store, ALICE), (0, 1, 1));
}

#[test]
fn follow_user_fails_with_not_found_when_either_profile_is_missing() {
    let mut store = RecordStore::new();
    create_profile(&mut store, ALICE, b"a".to_vec(), b"A".to_vec()).unwrap();
    assert_eq!(
        follow_user(&mut store, ALICE, BOB, 7),
        Err(ErrorCode::NotFound)
    );
    assert_eq!(
        follow_user(&mut store, BOB, ALICE, 7),
        Err(ErrorCode::NotFound)
    );
    assert_eq!(profile_counters(&store, ALICE), (0, 0, 0));
}

#[test]
fn derived_keys_are_deterministic_and_distinct() {
    assert_eq!(profile_key(ALICE), profile_key(ALICE));
    assert_ne!(profile_key(ALICE), profile_key(BOB));
    assert_eq!(post_key(ALICE, 0), post_key(ALICE, 0));
    assert_ne!(post_key(ALICE, 0), post_key(ALICE, 1));
    assert_ne!(post_key(ALICE, 0), post_key(BOB, 0));
    assert_ne!(profile_key(ALICE), post_key(ALICE, 0));
    assert!(matches!(profile_key(ALICE), RecordKey::Profile { owner } if owner == ALICE));
}
