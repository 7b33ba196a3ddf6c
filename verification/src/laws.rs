//! Proved statements about sequences of operations, stated over the
//! transition functions of [`crate::ops`].

use vstd::prelude::*;

use crate::errors::ErrorCode;
use crate::keys::{spec_profile_key, Identity, RecordKey};
use crate::ops::{
    create_post_result, create_post_state, create_profile_result, create_profile_state,
    follow_user_result, follow_user_state, like_post_state, post_at, profile_at,
    record_matches_key, wf,
};
use crate::records::{RecordData, CONTENT_MAX_BYTES, HANDLE_MAX_BYTES, NAME_MAX_BYTES};

verus! {

/// Creating a profile twice with the same owner identity succeeds the first
/// time and fails the second time with `AlreadyExists`, leaving the store as
/// the first call left it.
pub proof fn lemma_create_profile_once(
    m: Map<RecordKey, RecordData>,
    owner: Identity,
    handle: Seq<u8>,
    name: Seq<u8>,
)
    requires
        handle.len() <= HANDLE_MAX_BYTES,
        name.len() <= NAME_MAX_BYTES,
        !m.contains_key(spec_profile_key(owner)),
    ensures
        create_profile_result(m, owner, handle, name) == Ok::<(), ErrorCode>(()),
        ({
            let m1 = create_profile_state(m, owner, handle, name);
            &&& create_profile_result(m1, owner, handle, name) == Err::<(), ErrorCode>(
                ErrorCode::AlreadyExists,
            )
            &&& create_profile_state(m1, owner, handle, name) == m1
        }),
{
}

/// For any valid content, creating a post succeeds and the author's post
/// count increases by exactly one.
pub proof fn lemma_create_post_bumps_count(
    m: Map<RecordKey, RecordData>,
    author: Identity,
    content: Seq<u8>,
    now: i64,
)
    requires
        wf(m),
        m.contains_key(spec_profile_key(author)),
        content.len() <= CONTENT_MAX_BYTES,
        profile_at(m, author).post_count < u64::MAX,
    ensures
        create_post_result(m, author, content, now) is Ok,
        profile_at(create_post_state(m, author, content, now), author).post_count == profile_at(
            m,
            author,
        ).post_count + 1,
{
    assert(record_matches_key(spec_profile_key(author), m[spec_profile_key(author)]));
}

/// For content over the ceiling, creating a post fails with `ContentTooLong`
/// and no record is created or changed.
pub proof fn lemma_create_post_rejects_long_content(
    m: Map<RecordKey, RecordData>,
    author: Identity,
    content: Seq<u8>,
    now: i64,
)
    requires
        content.len() > CONTENT_MAX_BYTES,
    ensures
        create_post_result(m, author, content, now) == Err::<RecordKey, ErrorCode>(
            ErrorCode::ContentTooLong,
        ),
        create_post_state(m, author, content, now) == m,
{
}

/// The store after `n` successive likes of one post.
pub open spec fn like_post_state_n(m: Map<RecordKey, RecordData>, post: RecordKey, n: nat) -> Map<
    RecordKey,
    RecordData,
>
    decreases n,
{
    if n == 0 {
        m
    } else {
        like_post_state(like_post_state_n(m, post, (n - 1) as nat), post)
    }
}

/// Likes are never lost: `n` successive likes of an existing post increase
/// its like count by exactly `n`, leave its other fields alone, and change
/// nothing else in the store.
pub proof fn lemma_repeated_likes_accumulate(m: Map<RecordKey, RecordData>, post: RecordKey, n: nat)
    requires
        m.contains_key(post),
        m[post] is Post,
        post_at(m, post).like_count + n <= u64::MAX,
    ensures
        ({
            let mn = like_post_state_n(m, post, n);
            &&& mn.contains_key(post)
            &&& mn[post] is Post
            &&& post_at(mn, post).like_count == post_at(m, post).like_count + n
            &&& post_at(mn, post).author == post_at(m, post).author
            &&& post_at(mn, post).timestamp == post_at(m, post).timestamp
            &&& post_at(mn, post).content == post_at(m, post).content
            &&& post_at(mn, post).comment_count == post_at(m, post).comment_count
            &&& forall|k: RecordKey|
                k != post ==> (#[trigger] mn.contains_key(k) <==> m.contains_key(k))
            &&& forall|k: RecordKey| k != post && m.contains_key(k) ==> #[trigger] mn[k] == m[k]
        }),
    decreases n,
{
    if n > 0 {
        lemma_repeated_likes_accumulate(m, post, (n - 1) as nat);
    }
}

/// Following increments the follower's following count and the followee's
/// follower count by one each; following twice doubles both increments —
/// follow edges are not de-duplicated. With `follower == followee` the two
/// counters bumped are those of the one profile.
pub proof fn lemma_follow_twice_double_counts(
    m: Map<RecordKey, RecordData>,
    follower: Identity,
    followee: Identity,
    now: i64,
)
    requires
        wf(m),
        m.contains_key(spec_profile_key(follower)),
        m.contains_key(spec_profile_key(followee)),
        profile_at(m, follower).following_count + 2 <= u64::MAX,
        profile_at(m, followee).follower_count + 2 <= u64::MAX,
    ensures
        follow_user_result(m, follower, followee, now) is Ok,
        ({
            let m1 = follow_user_state(m, follower, followee);
            &&& profile_at(m1, follower).following_count == profile_at(
                m,
                follower,
            ).following_count + 1
            &&& profile_at(m1, followee).follower_count == profile_at(m, followee).follower_count
                + 1
            &&& follow_user_result(m1, follower, followee, now) is Ok
            &&& profile_at(follow_user_state(m1, follower, followee), follower).following_count
                == profile_at(m, follower).following_count + 2
            &&& profile_at(follow_user_state(m1, follower, followee), followee).follower_count
                == profile_at(m, followee).follower_count + 2
        }),
{
}

} // verus!
