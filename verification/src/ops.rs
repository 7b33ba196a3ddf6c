//! The four operation handlers, composed from key derivation, validation
//! and the record store.
//!
//! Each handler is specified against a transition function on the store's
//! mathematical map: one spec function gives the result the caller receives,
//! a second gives the store's state after the call. Any precondition failure
//! aborts the whole operation with no partial mutation visible.
//!
//! Notifications are modeled as return values: a successful like or follow
//! hands the caller the event to publish, rather than calling a sink inline.

use vstd::prelude::*;

use crate::errors::ErrorCode;
use crate::keys::{post_key, profile_key, spec_post_key, spec_profile_key, Identity, RecordKey};
use crate::records::{
    Post, PostData, Profile, ProfileData, Record, RecordData, CONTENT_MAX_BYTES, HANDLE_MAX_BYTES,
    NAME_MAX_BYTES,
};
use crate::store::RecordStore;
use crate::validate::{authorize, validate_length};

verus! {

/// Notification that a post was liked.
#[derive(Clone, Copy, Debug, PartialEq, Eq, Structural)]
pub struct PostLiked {
    pub post_key: RecordKey,
    pub liker: Identity,
    pub timestamp: i64,
}

/// Notification that one identity followed another.
#[derive(Clone, Copy, Debug, PartialEq, Eq, Structural)]
pub struct UserFollowed {
    pub follower: Identity,
    pub followee: Identity,
    pub timestamp: i64,
}

/// The profile record stored for `owner`.
pub open spec fn profile_at(m: Map<RecordKey, RecordData>, owner: Identity) -> ProfileData
    recommends
        m.contains_key(spec_profile_key(owner)),
        m[spec_profile_key(owner)] is Profile,
{
    m[spec_profile_key(owner)]->Profile_0
}

/// The post record stored under `key`.
pub open spec fn post_at(m: Map<RecordKey, RecordData>, key: RecordKey) -> PostData
    recommends
        m.contains_key(key),
        m[key] is Post,
{
    m[key]->Post_0
}

/// The record stored under a key is of the kind the key names, its owner
/// field matches the key's components, and its variable-length fields are
/// within their ceilings.
pub open spec fn record_matches_key(key: RecordKey, record: RecordData) -> bool {
    match key {
        RecordKey::Profile { owner } => {
            &&& record is Profile
            &&& record->Profile_0.owner == owner
            &&& record->Profile_0.handle.len() <= HANDLE_MAX_BYTES
            &&& record->Profile_0.name.len() <= NAME_MAX_BYTES
        },
        RecordKey::Post { author, index: _ } => {
            &&& record is Post
            &&& record->Post_0.author == author
            &&& record->Post_0.content.len() <= CONTENT_MAX_BYTES
        },
    }
}

/// Referential integrity of the whole store: every record matches its key,
/// and each profile's post count equals the number of post records its owner
/// has — posts occupy exactly the slots below the owner's post count.
pub open spec fn wf(m: Map<RecordKey, RecordData>) -> bool {
    &&& forall|key: RecordKey| #[trigger] m.contains_key(key) ==> record_matches_key(key, m[key])
    &&& forall|author: Identity, index: u64| #[trigger] m.contains_key(spec_post_key(author, index))
        ==> m.contains_key(spec_profile_key(author)) && index < profile_at(m, author).post_count
    &&& forall|author: Identity, index: u64|
        m.contains_key(spec_profile_key(author)) && index < profile_at(m, author).post_count
            ==> #[trigger] m.contains_key(spec_post_key(author, index))
}

/// The profile record a successful profile creation stores.
pub open spec fn new_profile_data(owner: Identity, handle: Seq<u8>, name: Seq<u8>) -> RecordData {
    RecordData::Profile(
        ProfileData {
            owner,
            handle,
            name,
            post_count: 0,
            follower_count: 0,
            following_count: 0,
        },
    )
}

/// What creating a profile returns: the handle and name must be within
/// their ceilings and the owner must not already have a profile.
pub open spec fn create_profile_result(
    m: Map<RecordKey, RecordData>,
    owner: Identity,
    handle: Seq<u8>,
    name: Seq<u8>,
) -> Result<(), ErrorCode> {
    if handle.len() > HANDLE_MAX_BYTES {
        Err(ErrorCode::ContentTooLong)
    } else if name.len() > NAME_MAX_BYTES {
        Err(ErrorCode::ContentTooLong)
    } else if m.contains_key(spec_profile_key(owner)) {
        Err(ErrorCode::AlreadyExists)
    } else {
        Ok(())
    }
}

/// The store after creating a profile: on success the owner's profile key
/// holds a fresh profile with all counters zero, otherwise nothing changes.
pub open spec fn create_profile_state(
    m: Map<RecordKey, RecordData>,
    owner: Identity,
    handle: Seq<u8>,
    name: Seq<u8>,
) -> Map<RecordKey, RecordData> {
    if create_profile_result(m, owner, handle, name) is Ok {
        m.insert(spec_profile_key(owner), new_profile_data(owner, handle, name))
    } else {
        m
    }
}

/// Inserting a fresh profile preserves referential integrity.
proof fn lemma_wf_after_create_profile(
    m: Map<RecordKey, RecordData>,
    owner: Identity,
    handle: Seq<u8>,
    name: Seq<u8>,
)
    requires
        wf(m),
        handle.len() <= HANDLE_MAX_BYTES,
        name.len() <= NAME_MAX_BYTES,
        !m.contains_key(spec_profile_key(owner)),
    ensures
        wf(m.insert(spec_profile_key(owner), new_profile_data(owner, handle, name))),
{
    let k0 = spec_profile_key(owner);
    let m2 = m.insert(k0, new_profile_data(owner, handle, name));
    assert forall|key: RecordKey| #[trigger] m2.contains_key(key) implies record_matches_key(
        key,
        m2[key],
    ) by {
        if key != k0 {
            assert(m.contains_key(key));
        }
    }
    assert forall|author: Identity, index: u64| #[trigger] m2.contains_key(
        spec_post_key(author, index),
    ) implies m2.contains_key(spec_profile_key(author)) && index < profile_at(
        m2,
        author,
    ).post_count by {
        assert(m.contains_key(spec_post_key(author, index)));
        assert(m.contains_key(spec_profile_key(author)));
        assert(author != owner);
        assert(profile_at(m2, author) == profile_at(m, author));
    }
    assert forall|author: Identity, index: u64|
        m2.contains_key(spec_profile_key(author)) && index < profile_at(
            m2,
            author,
        ).post_count implies #[trigger] m2.contains_key(spec_post_key(author, index)) by {
        if author != owner {
            assert(m.contains_key(spec_profile_key(author)));
            assert(profile_at(m2, author) == profile_at(m, author));
            assert(m.contains_key(spec_post_key(author, index)));
        }
    }
}

/// Creates the one profile `owner` may hold, with all counters zero.
///
/// Fails with `ContentTooLong` if the handle or name exceeds its ceiling,
/// and with `AlreadyExists` if the owner already has a profile.
pub fn create_profile(
    store: &mut RecordStore,
    owner: Identity,
    handle: Vec<u8>,
    name: Vec<u8>,
) -> (r: Result<(), ErrorCode>)
    requires
        old(store).inv(),
    ensures
        final(store).inv(),
        r == create_profile_result(old(store)@, owner, handle@, name@),
        final(store)@ == create_profile_state(old(store)@, owner, handle@, name@),
        wf(old(store)@) ==> wf(final(store)@),
{
    let ghost m0 = store@;
    let ghost h = handle@;
    let ghost nm = name@;
    match validate_length(&handle, HANDLE_MAX_BYTES) {
        Err(e) => {
            return Err(e);
        },
        Ok(()) => {},
    }
    match validate_length(&name, NAME_MAX_BYTES) {
        Err(e) => {
            return Err(e);
        },
        Ok(()) => {},
    }
    let profile = Profile {
        owner,
        handle,
        name,
        post_count: 0,
        follower_count: 0,
        following_count: 0,
    };
    let key = profile_key(owner);
    match store.create_if_absent(key, Record::Profile(profile)) {
        Err(e) => Err(e),
        Ok(()) => {
            proof {
                if wf(m0) {
                    lemma_wf_after_create_profile(m0, owner, h, nm);
                }
            }
            Ok(())
        },
    }
}

/// The post record a successful post creation stores.
pub open spec fn new_post_data(author: Identity, content: Seq<u8>, now: i64) -> RecordData {
    RecordData::Post(
        PostData { author, timestamp: now, content, like_count: 0, comment_count: 0 },
    )
}

/// `p` with its post count incremented by one.
pub open spec fn bumped_post_count(p: ProfileData) -> RecordData {
    RecordData::Profile(
        ProfileData {
            owner: p.owner,
            handle: p.handle,
            name: p.name,
            post_count: (p.post_count + 1) as u64,
            follower_count: p.follower_count,
            following_count: p.following_count,
        },
    )
}

/// What creating a post returns: the content must be within its ceiling,
/// a profile must exist for the author, and the author must own it; on
/// success the caller receives the created post's derived key.
pub open spec fn create_post_result(
    m: Map<RecordKey, RecordData>,
    author: Identity,
    content: Seq<u8>,
    now: i64,
) -> Result<RecordKey, ErrorCode> {
    if content.len() > CONTENT_MAX_BYTES {
        Err(ErrorCode::ContentTooLong)
    } else if !m.contains_key(spec_profile_key(author)) {
        Err(ErrorCode::NotFound)
    } else if profile_at(m, author).owner != author {
        Err(ErrorCode::Unauthorized)
    } else {
        Ok(spec_post_key(author, profile_at(m, author).post_count))
    }
}

/// The store after creating a post: on success the derived post key holds a
/// fresh post and the author's profile has its post count incremented by
/// one; otherwise nothing changes.
pub open spec fn create_post_state(
    m: Map<RecordKey, RecordData>,
    author: Identity,
    content: Seq<u8>,
    now: i64,
) -> Map<RecordKey, RecordData> {
    if create_post_result(m, author, content, now) is Ok {
        let p = profile_at(m, author);
        m.insert(spec_post_key(author, p.post_count), new_post_data(author, content, now)).insert(
            spec_profile_key(author),
            bumped_post_count(p),
        )
    } else {
        m
    }
}

/// Creating a post in the author's next slot and bumping the author's post
/// count preserves referential integrity.
proof fn lemma_wf_after_create_post(
    m: Map<RecordKey, RecordData>,
    author: Identity,
    content: Seq<u8>,
    now: i64,
)
    requires
        wf(m),
        content.len() <= CONTENT_MAX_BYTES,
        m.contains_key(spec_profile_key(author)),
        profile_at(m, author).post_count < u64::MAX,
    ensures
        ({
            let p = profile_at(m, author);
            wf(
                m.insert(
                    spec_post_key(author, p.post_count),
                    new_post_data(author, content, now),
                ).insert(spec_profile_key(author), bumped_post_count(p)),
            )
        }),
{
    let p = profile_at(m, author);
    let pc = p.post_count;
    let pk = spec_profile_key(author);
    let nk = spec_post_key(author, pc);
    let m2 = m.insert(nk, new_post_data(author, content, now)).insert(pk, bumped_post_count(p));
    assert(p.owner == author);
    assert forall|key: RecordKey| #[trigger] m2.contains_key(key) implies record_matches_key(
        key,
        m2[key],
    ) by {
        if key != pk && key != nk {
            assert(m.contains_key(key));
            assert(m2[key] == m[key]);
        }
    }
    assert forall|a: Identity, i: u64| #[trigger] m2.contains_key(
        spec_post_key(a, i),
    ) implies m2.contains_key(spec_profile_key(a)) && i < profile_at(m2, a).post_count by {
        if a == author {
            assert(profile_at(m2, author).post_count == pc + 1);
            if spec_post_key(a, i) != nk {
                assert(m.contains_key(spec_post_key(a, i)));
                assert(i < pc);
            }
        } else {
            assert(spec_post_key(a, i) != nk);
            assert(m.contains_key(spec_post_key(a, i)));
            assert(m.contains_key(spec_profile_key(a)));
            assert(profile_at(m2, a) == profile_at(m, a));
        }
    }
    assert forall|a: Identity, i: u64|
        m2.contains_key(spec_profile_key(a)) && i < profile_at(
            m2,
            a,
        ).post_count implies #[trigger] m2.contains_key(spec_post_key(a, i)) by {
        if a == author {
            assert(profile_at(m2, author).post_count == pc + 1);
            if i < pc {
                assert(m.contains_key(spec_post_key(a, i)));
            } else {
                assert(i == pc);
            }
        } else {
            assert(m.contains_key(spec_profile_key(a)));
            assert(profile_at(m2, a) == profile_at(m, a));
            assert(m.contains_key(spec_post_key(a, i)));
        }
    }
}

/// Creates a post for `author`, keyed by the author's current post count,
/// and increments that count; `now` is the creation time read from the
/// caller's trusted clock.
///
/// Fails with `ContentTooLong` if the content exceeds its ceiling, with
/// `NotFound` if the author has no profile, and with `Unauthorized` if the
/// stored profile is not owned by the author (impossible in a well-formed
/// store).
pub fn create_post(store: &mut RecordStore, author: Identity, content: Vec<u8>, now: i64) -> (r:
    Result<RecordKey, ErrorCode>)
    requires
        old(store).inv(),
        wf(old(store)@),
        old(store)@.contains_key(spec_profile_key(author)) ==> profile_at(
            old(store)@,
            author,
        ).post_count < u64::MAX,
    ensures
        final(store).inv(),
        wf(final(store)@),
        r == create_post_result(old(store)@, author, content@, now),
        final(store)@ == create_post_state(old(store)@, author, content@, now),
{
    let ghost m0 = store@;
    let ghost c = content@;
    match validate_length(&content, CONTENT_MAX_BYTES) {
        Err(e) => {
            return Err(e);
        },
        Ok(()) => {},
    }
    let pk = profile_key(author);
    let index: u64 = match store.read(pk) {
        None => {
            return Err(ErrorCode::NotFound);
        },
        Some(rec) => {
            match authorize(rec, author) {
                Err(e) => {
                    return Err(e);
                },
                Ok(()) => {},
            }
            match rec {
                Record::Profile(p) => p.post_count,
                Record::Post(_) => {
                    proof {
                        assert(false);
                    }
                    return Err(ErrorCode::NotFound);
                },
            }
        },
    };
    let new_post = Record::Post(
        Post { author, timestamp: now, content, like_count: 0, comment_count: 0 },
    );
    let npk = post_key(author, index);
    proof {
        if m0.contains_key(spec_post_key(author, index)) {
            assert(index < profile_at(m0, author).post_count);
            assert(false);
        }
    }
    match store.create_if_absent(npk, new_post) {
        Ok(()) => {},
        Err(_) => {
            proof {
                assert(false);
            }
            return Err(ErrorCode::AlreadyExists);
        },
    }
    match store.take(pk) {
        Some(Record::Profile(mut p)) => {
            p.post_count = p.post_count + 1;
            store.put(pk, Record::Profile(p));
        },
        _ => {
            proof {
                assert(false);
            }
            return Err(ErrorCode::NotFound);
        },
    }
    proof {
        lemma_wf_after_create_post(m0, author, c, now);
        assert(store@ =~= create_post_state(m0, author, c, now));
    }
    Ok(npk)
}

/// `p` with its like count incremented by one.
pub open spec fn bumped_like_count(p: PostData) -> RecordData {
    RecordData::Post(
        PostData {
            author: p.author,
            timestamp: p.timestamp,
            content: p.content,
            like_count: (p.like_count + 1) as u64,
            comment_count: p.comment_count,
        },
    )
}

/// What liking a post returns: the post must exist; any identity may like
/// it, no ownership check applies. On success the caller receives the
/// notification to publish.
pub open spec fn like_post_result(
    m: Map<RecordKey, RecordData>,
    post: RecordKey,
    liker: Identity,
    now: i64,
) -> Result<PostLiked, ErrorCode> {
    if m.contains_key(post) && m[post] is Post {
        Ok(PostLiked { post_key: post, liker, timestamp: now })
    } else {
        Err(ErrorCode::NotFound)
    }
}

/// The store after liking a post: on success only that post's like count
/// changes, incremented by one; otherwise nothing changes.
pub open spec fn like_post_state(m: Map<RecordKey, RecordData>, post: RecordKey) -> Map<
    RecordKey,
    RecordData,
> {
    if m.contains_key(post) && m[post] is Post {
        m.insert(post, bumped_like_count(post_at(m, post)))
    } else {
        m
    }
}

/// Bumping a post's like count preserves referential integrity.
proof fn lemma_wf_after_like(m: Map<RecordKey, RecordData>, post: RecordKey)
    requires
        wf(m),
        m.contains_key(post),
        m[post] is Post,
        post_at(m, post).like_count < u64::MAX,
    ensures
        wf(m.insert(post, bumped_like_count(post_at(m, post)))),
{
    let m2 = m.insert(post, bumped_like_count(post_at(m, post)));
    assert(record_matches_key(post, m[post]));
    assert(post is Post);
    assert forall|key: RecordKey| #[trigger] m2.contains_key(key) implies record_matches_key(
        key,
        m2[key],
    ) by {
        if key != post {
            assert(m.contains_key(key));
            assert(m2[key] == m[key]);
        }
    }
    assert forall|a: Identity, i: u64| #[trigger] m2.contains_key(
        spec_post_key(a, i),
    ) implies m2.contains_key(spec_profile_key(a)) && i < profile_at(m2, a).post_count by {
        assert(m.contains_key(spec_post_key(a, i)));
        assert(profile_at(m2, a) == profile_at(m, a));
    }
    assert forall|a: Identity, i: u64|
        m2.contains_key(spec_profile_key(a)) && i < profile_at(
            m2,
            a,
        ).post_count implies #[trigger] m2.contains_key(spec_post_key(a, i)) by {
        assert(m.contains_key(spec_profile_key(a)));
        assert(profile_at(m2, a) == profile_at(m, a));
        assert(m.contains_key(spec_post_key(a, i)));
    }
}

/// Increments the like count of the post stored under `post`; any identity
/// may like any post. On success, returns the `PostLiked` notification to
/// publish, stamped with `now` from the caller's trusted clock.
///
/// Fails with `NotFound` if no post is stored under `post`.
pub fn like_post(store: &mut RecordStore, post: RecordKey, liker: Identity, now: i64) -> (r:
    Result<PostLiked, ErrorCode>)
    requires
        old(store).inv(),
        wf(old(store)@),
        old(store)@.contains_key(post) && old(store)@[post] is Post ==> post_at(
            old(store)@,
            post,
        ).like_count < u64::MAX,
    ensures
        final(store).inv(),
        wf(final(store)@),
        r == like_post_result(old(store)@, post, liker, now),
        final(store)@ == like_post_state(old(store)@, post),
{
    let ghost m0 = store@;
    let found_post = match store.read(post) {
        Some(rec) => match rec {
            Record::Post(_) => true,
            Record::Profile(_) => false,
        },
        None => false,
    };
    if !found_post {
        return Err(ErrorCode::NotFound);
    }
    match store.take(post) {
        Some(Record::Post(mut p)) => {
            p.like_count = p.like_count + 1;
            store.put(post, Record::Post(p));
            proof {
                lemma_wf_after_like(m0, post);
                assert(store@ =~= like_post_state(m0, post));
            }
            Ok(PostLiked { post_key: post, liker, timestamp: now })
        },
        _ => {
            proof {
                assert(false);
            }
            Err(ErrorCode::NotFound)
        },
    }
}

/// `p` with its following count incremented by one.
pub open spec fn bumped_following(p: ProfileData) -> RecordData {
    RecordData::Profile(
        ProfileData {
            owner: p.owner,
            handle: p.handle,
            name: p.name,
            post_count: p.post_count,
            follower_count: p.follower_count,
            following_count: (p.following_count + 1) as u64,
        },
    )
}

/// `p` with its follower count incremented by one.
pub open spec fn bumped_follower(p: ProfileData) -> RecordData {
    RecordData::Profile(
        ProfileData {
            owner: p.owner,
            handle: p.handle,
            name: p.name,
            post_count: p.post_count,
            follower_count: (p.follower_count + 1) as u64,
            following_count: p.following_count,
        },
    )
}

/// What following returns: both profiles must exist. No de-duplication and
/// no self-follow check applies: repeated follows count again, and an
/// identity may follow itself. On success the caller receives the
/// notification to publish.
pub open spec fn follow_user_result(
    m: Map<RecordKey, RecordData>,
    follower: Identity,
    followee: Identity,
    now: i64,
) -> Result<UserFollowed, ErrorCode> {
    if !m.contains_key(spec_profile_key(follower)) {
        Err(ErrorCode::NotFound)
    } else if !m.contains_key(spec_profile_key(followee)) {
        Err(ErrorCode::NotFound)
    } else {
        Ok(UserFollowed { follower, followee, timestamp: now })
    }
}

/// The store after a follow: on success the follower's following count and
/// then the followee's follower count are each incremented by one — the two
/// writes compose, so a self-follow bumps both counters of the one profile;
/// otherwise nothing changes.
pub open spec fn follow_user_state(
    m: Map<RecordKey, RecordData>,
    follower: Identity,
    followee: Identity,
) -> Map<RecordKey, RecordData> {
    if m.contains_key(spec_profile_key(follower)) && m.contains_key(spec_profile_key(followee)) {
        let m1 = m.insert(spec_profile_key(follower), bumped_following(profile_at(m, follower)));
        m1.insert(spec_profile_key(followee), bumped_follower(profile_at(m1, followee)))
    } else {
        m
    }
}

/// Bumping the paired follow counters preserves referential integrity.
proof fn lemma_wf_after_follow(m: Map<RecordKey, RecordData>, follower: Identity, followee: Identity)
    requires
        wf(m),
        m.contains_key(spec_profile_key(follower)),
        m.contains_key(spec_profile_key(followee)),
        profile_at(m, follower).following_count < u64::MAX,
        profile_at(m, followee).follower_count < u64::MAX,
    ensures
        wf(follow_user_state(m, follower, followee)),
{
    let fk = spec_profile_key(follower);
    let gk = spec_profile_key(followee);
    let m1 = m.insert(fk, bumped_following(profile_at(m, follower)));
    let m2 = m1.insert(gk, bumped_follower(profile_at(m1, followee)));
    assert(record_matches_key(fk, m[fk]));
    assert(record_matches_key(gk, m[gk]));
    assert forall|key: RecordKey| #[trigger] m2.contains_key(key) implies record_matches_key(
        key,
        m2[key],
    ) by {
        if key != fk && key != gk {
            assert(m.contains_key(key));
            assert(m2[key] == m[key]);
        }
    }
    assert forall|a: Identity|
        m2.contains_key(spec_profile_key(a)) implies m.contains_key(spec_profile_key(a))
        && #[trigger] profile_at(m2, a).post_count == profile_at(m, a).post_count by {
    }
    assert forall|a: Identity, i: u64| #[trigger] m2.contains_key(
        spec_post_key(a, i),
    ) implies m2.contains_key(spec_profile_key(a)) && i < profile_at(m2, a).post_count by {
        assert(m.contains_key(spec_post_key(a, i)));
    }
    assert forall|a: Identity, i: u64|
        m2.contains_key(spec_profile_key(a)) && i < profile_at(
            m2,
            a,
        ).post_count implies #[trigger] m2.contains_key(spec_post_key(a, i)) by {
        assert(m.contains_key(spec_profile_key(a)));
        assert(m.contains_key(spec_post_key(a, i)));
    }
}

/// Records that `follower` follows `followee`: increments the follower's
/// following count and the followee's follower count as a pair. On success,
/// returns the `UserFollowed` notification to publish, stamped with `now`
/// from the caller's trusted clock. Repeated follows count again and a
/// self-follow bumps both counters of the one profile: this is documented
/// current behavior, not an oversight of the handlers.
///
/// Fails with `NotFound` if either profile is absent.
pub fn follow_user(store: &mut RecordStore, follower: Identity, followee: Identity, now: i64) -> (r:
    Result<UserFollowed, ErrorCode>)
    requires
        old(store).inv(),
        wf(old(store)@),
        old(store)@.contains_key(spec_profile_key(follower)) ==> profile_at(
            old(store)@,
            follower,
        ).following_count < u64::MAX,
        old(store)@.contains_key(spec_profile_key(followee)) ==> profile_at(
            old(store)@,
            followee,
        ).follower_count < u64::MAX,
    ensures
        final(store).inv(),
        wf(final(store)@),
        r == follow_user_result(old(store)@, follower, followee, now),
        final(store)@ == follow_user_state(old(store)@, follower, followee),
{
    let ghost m0 = store@;
    let fk = profile_key(follower);
    let gk = profile_key(followee);
    if !store.contains(fk) {
        return Err(ErrorCode::NotFound);
    }
    if !store.contains(gk) {
        return Err(ErrorCode::NotFound);
    }
    match store.take(fk) {
        Some(Record::Profile(mut p)) => {
            p.following_count = p.following_count + 1;
            store.put(fk, Record::Profile(p));
        },
        _ => {
            proof {
                assert(record_matches_key(spec_profile_key(follower), m0[spec_profile_key(
                    follower,
                )]));
                assert(false);
            }
            return Err(ErrorCode::NotFound);
        },
    }
    proof {
        assert(store@ =~= m0.insert(
            spec_profile_key(follower),
            bumped_following(profile_at(m0, follower)),
        ));
    }
    let ghost m1 = store@;
    match store.take(gk) {
        Some(Record::Profile(mut q)) => {
            q.follower_count = q.follower_count + 1;
            store.put(gk, Record::Profile(q));
        },
        _ => {
            proof {
                if follower != followee {
                    assert(record_matches_key(spec_profile_key(followee), m0[spec_profile_key(
                        followee,
                    )]));
                }
                assert(false);
            }
            return Err(ErrorCode::NotFound);
        },
    }
    proof {
        lemma_wf_after_follow(m0, follower, followee);
        assert(store@ =~= follow_user_state(m0, follower, followee));
    }
    Ok(UserFollowed { follower, followee, timestamp: now })
}

} // verus!
