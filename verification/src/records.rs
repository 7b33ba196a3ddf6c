//! The record data model: profiles and posts.
//!
//! Every variable-length field has a fixed maximum byte budget, so record
//! size is statically bounded. Each record is exclusively owned by the
//! identity stored in its owner or author field; the store itself holds no
//! business semantics beyond keyed storage.

use vstd::prelude::*;

use crate::keys::Identity;

verus! {

/// Byte ceiling for a profile's handle.
pub const HANDLE_MAX_BYTES: usize = 15;

/// Byte ceiling for a profile's display name.
pub const NAME_MAX_BYTES: usize = 50;

/// Byte ceiling for a post's content.
pub const CONTENT_MAX_BYTES: usize = 280;

/// One profile record: exactly one exists per owner identity.
#[derive(Debug)]
pub struct Profile {
    /// The owning identity, immutable after creation.
    pub owner: Identity,
    /// Short handle, at most [`HANDLE_MAX_BYTES`] bytes.
    pub handle: Vec<u8>,
    /// Display name, at most [`NAME_MAX_BYTES`] bytes.
    pub name: Vec<u8>,
    /// How many posts this profile's owner has created.
    pub post_count: u64,
    /// How many times this profile has been followed.
    pub follower_count: u64,
    /// How many times this profile's owner has followed someone.
    pub following_count: u64,
}

/// One authored post record.
#[derive(Debug)]
pub struct Post {
    /// The authoring identity, immutable after creation.
    pub author: Identity,
    /// Creation time, set once from a trusted clock.
    pub timestamp: i64,
    /// Post content, at most [`CONTENT_MAX_BYTES`] bytes.
    pub content: Vec<u8>,
    /// How many times this post has been liked.
    pub like_count: u64,
    /// Defined for layout but never incremented by any operation.
    pub comment_count: u64,
}

/// A keyed unit of persisted state.
#[derive(Debug)]
pub enum Record {
    /// A profile record.
    Profile(Profile),
    /// A post record.
    Post(Post),
}

/// The mathematical value of a [`Profile`].
#[verifier::ext_equal]
pub struct ProfileData {
    pub owner: Identity,
    pub handle: Seq<u8>,
    pub name: Seq<u8>,
    pub post_count: u64,
    pub follower_count: u64,
    pub following_count: u64,
}

/// The mathematical value of a [`Post`].
#[verifier::ext_equal]
pub struct PostData {
    pub author: Identity,
    pub timestamp: i64,
    pub content: Seq<u8>,
    pub like_count: u64,
    pub comment_count: u64,
}

/// The mathematical value of a [`Record`].
#[verifier::ext_equal]
pub enum RecordData {
    Profile(ProfileData),
    Post(PostData),
}

impl View for Profile {
    type V = ProfileData;

    open spec fn view(&self) -> ProfileData {
        ProfileData {
            owner: self.owner,
            handle: self.handle@,
            name: self.name@,
            post_count: self.post_count,
            follower_count: self.follower_count,
            following_count: self.following_count,
        }
    }
}

impl View for Post {
    type V = PostData;

    open spec fn view(&self) -> PostData {
        PostData {
            author: self.author,
            timestamp: self.timestamp,
            content: self.content@,
            like_count: self.like_count,
            comment_count: self.comment_count,
        }
    }
}

impl View for Record {
    type V = RecordData;

    open spec fn view(&self) -> RecordData {
        match self {
            Record::Profile(p) => RecordData::Profile(p@),
            Record::Post(p) => RecordData::Post(p@),
        }
    }
}

} // verus!
