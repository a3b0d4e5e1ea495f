//! The shapes exchanged with the remote social-network collaborator, held as
//! plain values: identifiers and text as UTF-8 bytes, counters as
//! non-negative integers.  The transport layer converts its wire types into
//! these before the core logic runs.

use vstd::prelude::*;
use crate::util::opt_view;

verus! {

/// A well-formed error payload reported by the remote API.
#[derive(Debug)]
pub struct BskyError {
    pub error: BskyErrorCode,
    pub message: Vec<u8>,
}

/// The error codes the remote API is known to report; anything else is
/// carried as `Unknown`.
#[derive(Debug, PartialEq, Eq, Structural, Clone, Copy)]
pub enum BskyErrorCode {
    InvalidRequest,
    ExpiredToken,
    InvalidToken,
    AccountTakedown,
    AuthFactorTokenRequired,
    Unknown,
}

/// The credentials presented to the authentication capability.
#[derive(Debug)]
pub struct AuthenticationBody {
    pub identifier: Vec<u8>,
    pub password: Vec<u8>,
}

/// What the authentication capability returns on success.
#[derive(Debug)]
pub struct AuthenticationResponse {
    pub access_jwt: Vec<u8>,
    pub refresh_jwt: Vec<u8>,
    pub handle: Vec<u8>,
    pub did: Vec<u8>,
    pub status: Option<AccountStatus>,
}

/// An abnormal account state reported alongside authentication.
#[derive(Debug, PartialEq, Eq, Structural, Clone, Copy)]
pub enum AccountStatus {
    Takendown,
    Suspended,
    Deactivated,
}

/// One raw follower descriptor from a followers page.  The handle is
/// required downstream but may be absent in malformed data; conversion to a
/// candidate account then fails for this element only.
#[derive(Debug)]
pub struct Author {
    pub did: Vec<u8>,
    pub handle: Option<Vec<u8>>,
    pub display_name: Option<Vec<u8>>,
}

/// The mathematical value of a follower descriptor.
#[verifier::ext_equal]
pub struct AuthorView {
    pub did: Seq<u8>,
    pub handle: Option<Seq<u8>>,
    pub display_name: Option<Seq<u8>>,
}

impl View for Author {
    type V = AuthorView;

    open spec fn view(&self) -> AuthorView {
        AuthorView {
            did: self.did@,
            handle: opt_view(self.handle),
            display_name: opt_view(self.display_name),
        }
    }
}

/// One page of the followers collection: its descriptors and the cursor to
/// the next page, absent on the last page.
#[derive(Debug)]
pub struct FollowsResponse {
    pub cursor: Option<Vec<u8>>,
    pub follows: Vec<Author>,
}

/// The author-feed filter the ingestion pipeline requests.
#[derive(Debug, PartialEq, Eq, Structural, Clone, Copy)]
pub enum FeedFilter {
    PostsWithReplies,
}

/// The request parameters of one followers-page call.
#[derive(Debug)]
pub struct FollowersListOptions {
    pub actor: Vec<u8>,
    pub limit: i8,
    pub cursor: Option<Vec<u8>>,
}

/// The request parameters of one author-feed-page call.
#[derive(Debug)]
pub struct FeedListOptions {
    pub actor: Vec<u8>,
    pub limit: Option<i8>,
    pub cursor: Option<Vec<u8>>,
    pub filter: Option<FeedFilter>,
}

/// Why a feed entry appears in an author's feed.
#[derive(Debug)]
pub enum ReasonType {
    Repost,
    Unknown(Vec<u8>),
}

/// The mathematical value of a feed-entry reason kind.
pub enum ReasonTypeView {
    Repost,
    Unknown(Seq<u8>),
}

impl View for ReasonType {
    type V = ReasonTypeView;

    open spec fn view(&self) -> ReasonTypeView {
        match self {
            ReasonType::Repost => ReasonTypeView::Repost,
            ReasonType::Unknown(s) => ReasonTypeView::Unknown(s@),
        }
    }
}

/// The reason attached to a feed entry.
#[derive(Debug)]
pub struct Reason {
    pub reason_type: ReasonType,
}

/// The mathematical value of a feed-entry reason.
#[verifier::ext_equal]
pub struct ReasonView {
    pub reason_type: ReasonTypeView,
}

impl View for Reason {
    type V = ReasonView;

    open spec fn view(&self) -> ReasonView {
        ReasonView { reason_type: self.reason_type@ }
    }
}

/// The record embedded in a feed entry; `created_at` holds the content's
/// original publish time as RFC 3339 text.
#[derive(Debug)]
pub struct Record {
    pub created_at: Vec<u8>,
}

/// The mathematical value of a feed-entry record.
#[verifier::ext_equal]
pub struct RecordView {
    pub created_at: Seq<u8>,
}

impl View for Record {
    type V = RecordView;

    open spec fn view(&self) -> RecordView {
        RecordView { created_at: self.created_at@ }
    }
}

/// One remote post as an author feed reports it.  Incomplete or removed
/// posts arrive with fields absent.
#[derive(Debug)]
pub struct Post {
    pub uri: Vec<u8>,
    pub cid: Option<Vec<u8>>,
    pub record: Option<Record>,
    pub reply_count: Option<u32>,
    pub repost_count: Option<u32>,
    pub like_count: Option<u32>,
    pub quote_count: Option<u32>,
}

/// The mathematical value of a remote post.
#[verifier::ext_equal]
pub struct PostView {
    pub uri: Seq<u8>,
    pub cid: Option<Seq<u8>>,
    pub record: Option<RecordView>,
    pub reply_count: Option<u32>,
    pub repost_count: Option<u32>,
    pub like_count: Option<u32>,
    pub quote_count: Option<u32>,
}

impl View for Post {
    type V = PostView;

    open spec fn view(&self) -> PostView {
        PostView {
            uri: self.uri@,
            cid: opt_view(self.cid),
            record: match self.record {
                Some(r) => Some(r@),
                None => None,
            },
            reply_count: self.reply_count,
            repost_count: self.repost_count,
            like_count: self.like_count,
            quote_count: self.quote_count,
        }
    }
}

/// One entry of an author-feed page.
#[derive(Debug)]
pub struct Feed {
    pub post: Post,
    pub reason: Option<Reason>,
}

/// The mathematical value of a feed entry.
#[verifier::ext_equal]
pub struct FeedView {
    pub post: PostView,
    pub reason: Option<ReasonView>,
}

impl View for Feed {
    type V = FeedView;

    open spec fn view(&self) -> FeedView {
        FeedView {
            post: self.post@,
            reason: match self.reason {
                Some(r) => Some(r@),
                None => None,
            },
        }
    }
}

/// One page of an author feed: its entries and the cursor to the next page.
#[derive(Debug)]
pub struct FeedResponse {
    pub feed: Vec<Feed>,
    pub cursor: Option<Vec<u8>>,
}

/// A reference to a remote post: its location URI and content hash.
#[derive(Debug)]
pub struct PostRef {
    pub uri: Vec<u8>,
    pub cid: Vec<u8>,
}

/// The record collections the core writes to.
#[derive(Debug, PartialEq, Eq, Structural, Clone, Copy)]
pub enum RecordType {
    Post,
}

/// The kind of a rich-text span.
#[derive(Debug, PartialEq, Eq, Structural, Clone, Copy)]
pub enum FeatureType {
    Mention,
    Link,
    Tag,
}

/// The payload of a rich-text span: exactly one of the three fields is set,
/// according to the feature kind.
#[derive(Debug)]
pub struct Feature {
    pub feature_type: FeatureType,
    pub did: Option<Vec<u8>>,
    pub uri: Option<Vec<u8>>,
    pub tag: Option<Vec<u8>>,
}

/// The mathematical value of a span payload.
#[verifier::ext_equal]
pub struct FeatureView {
    pub feature_type: FeatureType,
    pub did: Option<Seq<u8>>,
    pub uri: Option<Seq<u8>>,
    pub tag: Option<Seq<u8>>,
}

impl View for Feature {
    type V = FeatureView;

    open spec fn view(&self) -> FeatureView {
        FeatureView {
            feature_type: self.feature_type,
            did: opt_view(self.did),
            uri: opt_view(self.uri),
            tag: opt_view(self.tag),
        }
    }
}

/// A half-open byte range over the message text.
#[derive(Debug)]
pub struct Index {
    pub byte_start: u64,
    pub byte_end: u64,
}

/// The mathematical value of a byte range.
#[verifier::ext_equal]
pub struct IndexView {
    pub byte_start: int,
    pub byte_end: int,
}

impl View for Index {
    type V = IndexView;

    open spec fn view(&self) -> IndexView {
        IndexView { byte_start: self.byte_start as int, byte_end: self.byte_end as int }
    }
}

/// One rich-text annotation of the published message.
#[derive(Debug)]
pub struct Facet {
    pub index: Index,
    pub features: Vec<Feature>,
}

/// The mathematical value of a rich-text annotation.
#[verifier::ext_equal]
pub struct FacetView {
    pub index: IndexView,
    pub features: Seq<FeatureView>,
}

impl View for Facet {
    type V = FacetView;

    open spec fn view(&self) -> FacetView {
        FacetView {
            index: self.index@,
            features: self.features@.map_values(|f: Feature| f@),
        }
    }
}

/// An embedded reference attached to a published message.
#[derive(Debug)]
pub struct Embed {
    pub embed_type: EmbedType,
    pub record: PostRef,
}

/// The kinds of embedded reference the core attaches.
#[derive(Debug, PartialEq, Eq, Structural, Clone, Copy)]
pub enum EmbedType {
    Record,
}

/// The reply position of a published message inside a thread.
#[derive(Debug)]
pub struct Reply {
    pub root: PostRef,
    pub parent: PostRef,
}

/// The record a publish call writes: the message text, its annotations,
/// and the optional reply and embed references.
#[derive(Debug)]
pub struct NewRecord {
    pub record_type: RecordType,
    pub text: Vec<u8>,
    pub created_at: Vec<u8>,
    pub facets: Option<Vec<Facet>>,
    pub reply: Option<Reply>,
    pub embed: Option<Embed>,
}

/// The full payload of a publish call.
#[derive(Debug)]
pub struct NewPost {
    pub repo: Vec<u8>,
    pub collection: RecordType,
    pub record: NewRecord,
    pub lang: Vec<Vec<u8>>,
    pub validate: bool,
}

/// Assembles the payload of one publish call: a post record in the
/// authenticated account's repository, in the fixed language, validated,
/// carrying the message text, its creation time, and the optional
/// annotations, reply position and embedded reference.
pub fn build_post_record(
    repo_did: Vec<u8>,
    message: Vec<u8>,
    created_at: Vec<u8>,
    facets: Option<Vec<Facet>>,
    reply: Option<Reply>,
    embed: Option<Embed>,
) -> (r: NewPost)
    ensures
        r.repo@ == repo_did@,
        r.collection == RecordType::Post,
        r.validate == true,
        r.lang@.len() == 1,
        r.lang@[0]@ == seq![0x75u8, 0x61u8],
        r.record.record_type == RecordType::Post,
        r.record.text@ == message@,
        r.record.created_at@ == created_at@,
        r.record.facets == facets,
        r.record.reply == reply,
        r.record.embed == embed,
{
    let mut lang_tag: Vec<u8> = Vec::new();
    lang_tag.push(0x75);
    lang_tag.push(0x61);
    proof {
        assert(lang_tag@ =~= seq![0x75u8, 0x61u8]);
    }
    let lang = vec![lang_tag];
    NewPost {
        repo: repo_did,
        collection: RecordType::Post,
        record: NewRecord {
            record_type: RecordType::Post,
            text: message,
            created_at,
            facets,
            reply,
            embed,
        },
        lang,
        validate: true,
    }
}

} // verus!
