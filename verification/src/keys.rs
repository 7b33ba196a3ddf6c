//! Deterministic derivation of record keys from stable inputs.
//!
//! A key is a structured combination of a record kind tag and the components
//! that locate the record: identical inputs always yield the identical key,
//! and distinct inputs yield distinct keys (see
//! [`lemma_key_derivation_injective`]). A profile key is derived from the
//! owner identity alone; a post key is derived from the author identity and
//! the author's post count at creation time, so each author's posts occupy
//! consecutive slots without a separate counter store.

use vstd::prelude::*;

verus! {

/// A stable, caller-attested value that names an owner, author, liker or
/// follower.
pub type Identity = u64;

/// The derived identity of one keyed record.
#[derive(Clone, Copy, Debug, Hash, PartialEq, Eq, Structural)]
pub enum RecordKey {
    /// The key of the one profile a given identity may own.
    Profile { owner: Identity },
    /// The key of the post an author created while holding the given
    /// post count.
    Post { author: Identity, index: u64 },
}

/// The key of the profile owned by `owner`.
pub open spec fn spec_profile_key(owner: Identity) -> RecordKey {
    RecordKey::Profile { owner }
}

/// Derives the key of the profile owned by `owner`.
#[verifier::when_used_as_spec(spec_profile_key)]
pub fn profile_key(owner: Identity) -> (key: RecordKey)
    ensures
        key == spec_profile_key(owner),
{
    RecordKey::Profile { owner }
}

/// The key of the post `author` created while holding post count `index`.
pub open spec fn spec_post_key(author: Identity, index: u64) -> RecordKey {
    RecordKey::Post { author, index }
}

/// Derives the key of the post `author` created while holding post count
/// `index`.
#[verifier::when_used_as_spec(spec_post_key)]
pub fn post_key(author: Identity, index: u64) -> (key: RecordKey)
    ensures
        key == spec_post_key(author, index),
{
    RecordKey::Post { author, index }
}

/// Key derivation is injective: identical inputs yield the identical key,
/// distinct inputs yield distinct keys, and keys of distinct record kinds
/// never coincide.
pub proof fn lemma_key_derivation_injective(
    a: Identity,
    b: Identity,
    i: u64,
    j: u64,
)
    ensures
        spec_profile_key(a) == spec_profile_key(b) ==> a == b,
        spec_post_key(a, i) == spec_post_key(b, j) ==> a == b && i == j,
        spec_profile_key(a) != spec_post_key(b, j),
{
}

} // verus!
