//! Transient in-memory representations of the durable records owned by the
//! storage collaborator: accounts and scored posts.  Timestamps are seconds
//! since the Unix epoch; all text is kept as its UTF-8 bytes.

use vstd::prelude::*;
use crate::util::opt_view;

verus! {

/// A persisted account: the external identifier `did` is the natural key,
/// the surrogate key `id` is assigned by storage on insert.
#[derive(Debug)]
pub struct User {
    pub id: i32,
    pub created_at: i64,
    pub updated_at: i64,
    pub did: Vec<u8>,
    pub handle: Vec<u8>,
    pub display_name: Option<Vec<u8>>,
}

/// The mathematical value of a persisted account.
#[verifier::ext_equal]
pub struct UserView {
    pub id: int,
    pub created_at: int,
    pub updated_at: int,
    pub did: Seq<u8>,
    pub handle: Seq<u8>,
    pub display_name: Option<Seq<u8>>,
}

impl View for User {
    type V = UserView;

    open spec fn view(&self) -> UserView {
        UserView {
            id: self.id as int,
            created_at: self.created_at as int,
            updated_at: self.updated_at as int,
            did: self.did@,
            handle: self.handle@,
            display_name: opt_view(self.display_name),
        }
    }
}

/// A candidate account built from freshly ingested data, not yet persisted.
#[derive(Debug)]
pub struct NewUser {
    pub did: Vec<u8>,
    pub handle: Vec<u8>,
    pub display_name: Option<Vec<u8>>,
}

/// The mathematical value of a candidate account.
#[verifier::ext_equal]
pub struct NewUserView {
    pub did: Seq<u8>,
    pub handle: Seq<u8>,
    pub display_name: Option<Seq<u8>>,
}

impl View for NewUser {
    type V = NewUserView;

    open spec fn view(&self) -> NewUserView {
        NewUserView {
            did: self.did@,
            handle: self.handle@,
            display_name: opt_view(self.display_name),
        }
    }
}

/// A persisted scored post, joined against its owning account when read back
/// for publication.  `total_points` is the weighted sum of the four counters
/// at the weights in effect when the record was created.
#[derive(Debug)]
pub struct Post {
    pub id: i32,
    pub created_at: i64,
    pub user_id: i32,
    pub uri: Vec<u8>,
    pub cid: Vec<u8>,
    pub reply_count: u32,
    pub repost_count: u32,
    pub like_count: u32,
    pub quote_count: u32,
    pub total_points: u64,
}

/// The mathematical value of a persisted post.
#[verifier::ext_equal]
pub struct PostView {
    pub id: int,
    pub created_at: int,
    pub user_id: int,
    pub uri: Seq<u8>,
    pub cid: Seq<u8>,
    pub reply_count: u32,
    pub repost_count: u32,
    pub like_count: u32,
    pub quote_count: u32,
    pub total_points: u64,
}

impl View for Post {
    type V = PostView;

    open spec fn view(&self) -> PostView {
        PostView {
            id: self.id as int,
            created_at: self.created_at as int,
            user_id: self.user_id as int,
            uri: self.uri@,
            cid: self.cid@,
            reply_count: self.reply_count,
            repost_count: self.repost_count,
            like_count: self.like_count,
            quote_count: self.quote_count,
            total_points: self.total_points,
        }
    }
}

/// A candidate post produced by one ingestion pass, pending the batch insert.
#[derive(Debug)]
pub struct NewPost {
    pub created_at: i64,
    pub user_id: i32,
    pub uri: Vec<u8>,
    pub cid: Vec<u8>,
    pub reply_count: u32,
    pub repost_count: u32,
    pub like_count: u32,
    pub quote_count: u32,
    pub total_points: u64,
}

/// The mathematical value of a candidate post.
#[verifier::ext_equal]
pub struct NewPostView {
    pub created_at: int,
    pub user_id: int,
    pub uri: Seq<u8>,
    pub cid: Seq<u8>,
    pub reply_count: u32,
    pub repost_count: u32,
    pub like_count: u32,
    pub quote_count: u32,
    pub total_points: u64,
}

impl View for NewPost {
    type V = NewPostView;

    open spec fn view(&self) -> NewPostView {
        NewPostView {
            created_at: self.created_at as int,
            user_id: self.user_id as int,
            uri: self.uri@,
            cid: self.cid@,
            reply_count: self.reply_count,
            repost_count: self.repost_count,
            like_count: self.like_count,
            quote_count: self.quote_count,
            total_points: self.total_points,
        }
    }
}

} // verus!
