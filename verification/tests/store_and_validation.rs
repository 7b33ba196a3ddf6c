//! The record store and the integrity validator, exercised directly.

use social_ledger::errors::ErrorCode;
use social_ledger::keys::{post_key, profile_key};
use social_ledger::records::{Post, Profile, Record};
use social_ledger::store::RecordStore;
use social_ledger::validate::{authorize, validate_length};

fn profile_record(owner: u64) -> Record {
    Record::Profile(Profile {
        owner,
        handle: b"h".to_vec(),
        name: b"n".to_vec(),
        post_count: 0,
        follower_count: 0,
        following_count: 0,
    })
}

fn post_record(author: u64, content: &[u8]) -> Record {
    Record::Post(Post {
        author,
        timestamp: 0,
        content: content.to_vec(),
        like_count: 0,
        comment_count: 0,
    })
}

#[test]
fn create_if_absent_fails_on_populated_key() {
    let mut store = RecordStore::new();
    assert_eq!(store.create_if_absent(profile_key(1), profile_record(1)), Ok(()));
    assert_eq!(
        store.create_if_absent(profile_key(1), profile_record(1)),
        Err(ErrorCode::AlreadyExists)
    );
    assert!(store.contains(profile_key(1)));
}

#[test]
fn read_finds_only_populated_keys() {
    let mut store = RecordStore::new();
    assert!(store.read(profile_key(1)).is_none());
    store.create_if_absent(profile_key(1), profile_record(1)).unwrap();
    store.create_if_absent(post_key(1, 0), post_record(1, b"hi")).unwrap();
    match store.read(post_key(1, 0)) {
        Some(Record::Post(p)) => assert_eq!(p.content, b"hi".to_vec()),
        _ => panic!("post missing"),
    }
    assert!(store.read(post_key(1, 1)).is_none());
    assert!(!store.contains(post_key(2, 0)));
}

#[test]
fn update_replaces_only_populated_keys() {
    let mut store = RecordStore::new();
    assert_eq!(
        store.update(post_key(1, 0), post_record(1, b"new")),
        Err(ErrorCode::NotFound)
    );
    store.create_if_absent(post_key(1, 0), post_record(1, b"old")).unwrap();
    assert_eq!(store.update(post_key(1, 0), post_record(1, b"new")), Ok(()));
    match store.read(post_key(1, 0)) {
        Some(Record::Post(p)) => assert_eq!(p.content, b"new".to_vec()),
        _ => panic!("post missing"),
    }
}

#[test]
fn authorize_matches_owner_and_author() {
    assert_eq!(authorize(&profile_record(7), 7), Ok(()));
    assert_eq!(authorize(&profile_record(7), 8), Err(ErrorCode::Unauthorized));
    assert_eq!(authorize(&post_record(3, b"x"), 3), Ok(()));
    assert_eq!(authorize(&post_record(3, b"x"), 4), Err(ErrorCode::Unauthorized));
}

#[test]
fn validate_length_checks_byte_ceilings() {
    assert_eq!(validate_length(&Vec::new(), 0), Ok(()));
    assert_eq!(validate_length(&vec![0u8; 280], 280), Ok(()));
    assert_eq!(
        validate_length(&vec![0u8; 281], 280),
        Err(ErrorCode::ContentTooLong)
    );
    assert_eq!(validate_length(&vec![0u8; 1], 0), Err(ErrorCode::ContentTooLong));
}
