//! The three periodic passes' core logic.  The surrounding runtime drives
//! the paginated remote calls and the storage writes; each page or result
//! set is handed to the functions here, which decide what is kept, whether
//! pagination goes on, and what a publication pass will send.

use vstd::prelude::*;
use crate::facets::{facets_of, parse_facets_with_users};
use crate::models::{NewPost, NewPostView, NewUser, NewUserView, Post, User, UserView};
use crate::score::{in_admission_window, in_window_spec, score, score_spec, WINDOW_END_HOURS};
use crate::structs::{
    Author, AuthorView, Embed, EmbedType, Facet, Feed, FeedListOptions, FeedResponse,
    FeedView, FollowersListOptions, FollowsResponse, PostRef, ReasonType,
};
use crate::util::{clone_bytes, clone_opt_bytes, opt_view, seq_views};

verus! {

// ---------------------------------------------------------------------
// Publish-time parsing
// ---------------------------------------------------------------------
/// What the RFC 3339 parser yields for a byte string: the parsed instant
/// as seconds since the Unix epoch, or nothing when the bytes are not a
/// well-formed RFC 3339 timestamp.
pub uninterp spec fn rfc3339_epoch(s: Seq<u8>) -> Option<i64>;

/// Relies on chrono's `DateTime::parse_from_rfc3339` and
/// `DateTime::timestamp`: parsing RFC 3339 text and taking the parsed
/// instant as seconds since the Unix epoch is a function of the input
/// bytes alone.  Bytes that are not UTF-8 or not a well-formed timestamp
/// parse to nothing.
#[verifier::external_body]
fn parse_rfc3339_epoch(s: &Vec<u8>) -> (r: Option<i64>)
    ensures
        r == rfc3339_epoch(s@),
{
    match std::str::from_utf8(s.as_slice()) {
        Ok(text) => match chrono::DateTime::parse_from_rfc3339(text) {
            Ok(dt) => Some(dt.timestamp()),
            Err(_) => None,
        },
        Err(_) => None,
    }
}

// ---------------------------------------------------------------------
// Follower ingestion
// ---------------------------------------------------------------------
/// The candidate accounts of one followers page, in page order: one per
/// descriptor that carries a handle; a descriptor without a handle is
/// malformed and dropped, failing the conversion for that element only.
pub open spec fn candidates_of(follows: Seq<AuthorView>) -> Seq<NewUserView>
    decreases follows.len(),
{
    if follows.len() == 0 {
        Seq::empty()
    } else {
        let prev = candidates_of(follows.drop_last());
        match follows.last().handle {
            Some(h) => prev.push(
                NewUserView { did: follows.last().did, handle: h, display_name: follows.last().display_name },
            ),
            None => prev,
        }
    }
}

/// Converts one followers page into candidate accounts, appends them to
/// the accumulated set, advances the request cursor to the page's cursor,
/// and decides whether the loop stops: it does exactly when the page
/// carries no cursor.
pub fn process_followers_page(
    options: &mut FollowersListOptions,
    res: FollowsResponse,
    new_users: &mut Vec<NewUser>,
) -> (stop: bool)
    ensures
        seq_views(final(new_users)@) == seq_views(old(new_users)@) + candidates_of(
            seq_views(res.follows@),
        ),
        stop == (res.cursor is None),
        final(options).actor@ == old(options).actor@,
        final(options).limit == old(options).limit,
        opt_view(final(options).cursor) == opt_view(res.cursor),
{
    let ghost fviews = seq_views(res.follows@);
    let ghost base = seq_views(old(new_users)@);
    proof {
        assert(base + candidates_of(fviews.take(0)) =~= base);
    }
    let mut i: usize = 0;
    while i < res.follows.len()
        invariant
            i <= res.follows.len(),
            fviews == seq_views(res.follows@),
            fviews.len() == res.follows.len(),
            forall|j: int| 0 <= j < fviews.len() ==> fviews[j] == res.follows@[j]@,
            seq_views(new_users@) == base + candidates_of(fviews.take(i as int)),
        decreases res.follows.len() - i,
    {
        let author = &res.follows[i];
        proof {
            assert(fviews.take(i + 1).drop_last() =~= fviews.take(i as int));
            assert(fviews.take(i + 1).last() == fviews[i as int]);
        }
        match &author.handle {
            Some(h) => {
                let cand = NewUser {
                    did: clone_bytes(&author.did),
                    handle: clone_bytes(h),
                    display_name: clone_opt_bytes(&author.display_name),
                };
                proof {
                    assert(cand@ =~= NewUserView {
                        did: fviews[i as int].did,
                        handle: fviews[i as int].handle.unwrap(),
                        display_name: fviews[i as int].display_name,
                    });
                }
                new_users.push(cand);
                proof {
                    let c = NewUserView {
                        did: fviews[i as int].did,
                        handle: fviews[i as int].handle.unwrap(),
                        display_name: fviews[i as int].display_name,
                    };
                    assert(candidates_of(fviews.take(i + 1)) == candidates_of(
                        fviews.take(i as int),
                    ).push(c));
                    assert(seq_views(new_users@) =~= (base + candidates_of(
                        fviews.take(i as int),
                    )).push(c));
                    assert((base + candidates_of(fviews.take(i as int))).push(c) =~= base
                        + candidates_of(fviews.take(i + 1)));
                }
            },
            None => {},
        }
        proof {
            assert(seq_views(new_users@) =~= base + candidates_of(fviews.take(i + 1)));
        }
        i = i + 1;
    }
    proof {
        assert(fviews.take(res.follows.len() as int) =~= fviews);
    }
    let stop = res.cursor.is_none();
    options.cursor = res.cursor;
    stop
}

// ---------------------------------------------------------------------
// Stored-account paging
// ---------------------------------------------------------------------
/// Decides the next step of the loop that pages through stored accounts by
/// surrogate key: an empty page ends the loop; otherwise the cursor
/// advances to the last row's key — the largest one seen, since rows come
/// in ascending key order.
pub fn next_accounts_cursor(users: &Vec<User>) -> (r: Option<i32>)
    ensures
        match r {
            Some(c) => users@.len() > 0 && c == users@.last().id,
            None => users@.len() == 0,
        },
{
    if users.len() == 0 {
        None
    } else {
        Some(users[users.len() - 1].id)
    }
}

// ---------------------------------------------------------------------
// Author-feed ingestion
// ---------------------------------------------------------------------
/// Whether a feed entry is dropped without stopping the page: no content
/// hash (incomplete or removed), marked as a repost of another account's
/// content, or malformed (no record, unparsable publish time, or a
/// missing engagement counter).
pub open spec fn entry_skipped(f: FeedView) -> bool {
    f.post.cid is None || (f.reason matches Some(r) && r.reason_type is Repost)
        || f.post.record is None || rfc3339_epoch(f.post.record.unwrap().created_at) is None
        || f.post.reply_count is None || f.post.repost_count is None || f.post.like_count is None
        || f.post.quote_count is None
}

/// The publish time of a live feed entry, in seconds since the epoch.
pub open spec fn entry_time(f: FeedView) -> i64
    recommends
        !entry_skipped(f),
{
    rfc3339_epoch(f.post.record.unwrap().created_at).unwrap()
}

/// The candidate post built from a live, admitted feed entry: its parsed
/// publish time, its owning account, its four counters, and the weighted
/// score at the fixed weights.
pub open spec fn candidate_of(f: FeedView, user_id: i32) -> NewPostView
    recommends
        !entry_skipped(f),
{
    NewPostView {
        created_at: entry_time(f) as int,
        user_id: user_id as int,
        uri: f.post.uri,
        cid: f.post.cid.unwrap(),
        reply_count: f.post.reply_count.unwrap(),
        repost_count: f.post.repost_count.unwrap(),
        like_count: f.post.like_count.unwrap(),
        quote_count: f.post.quote_count.unwrap(),
        total_points: score_spec(
            f.post.reply_count.unwrap(),
            f.post.repost_count.unwrap(),
            f.post.like_count.unwrap(),
            f.post.quote_count.unwrap(),
        ) as u64,
    }
}

/// The candidate posts admitted from one page, in page order: skipped
/// entries are passed over; the first live entry whose publish time falls
/// outside the admission window ends the page, keeping what was admitted
/// before it.
pub open spec fn admitted_of(feed: Seq<FeedView>, user_id: i32, now: i64) -> Seq<
    NewPostView,
>
    decreases feed.len(),
{
    if feed.len() == 0 {
        Seq::empty()
    } else if entry_skipped(feed[0]) {
        admitted_of(feed.skip(1), user_id, now)
    } else if in_window_spec(entry_time(feed[0]) as int, now as int) {
        seq![candidate_of(feed[0], user_id)] + admitted_of(feed.skip(1), user_id, now)
    } else {
        Seq::empty()
    }
}

/// Whether a page is exhausted by the time-window rule: it holds a live
/// entry outside the admission window, not preceded by any other live
/// out-of-window entry's cut.
pub open spec fn page_out_of_range(feed: Seq<FeedView>, now: i64) -> bool
    decreases feed.len(),
{
    if feed.len() == 0 {
        false
    } else if entry_skipped(feed[0]) {
        page_out_of_range(feed.skip(1), now)
    } else if in_window_spec(entry_time(feed[0]) as int, now as int) {
        page_out_of_range(feed.skip(1), now)
    } else {
        true
    }
}

/// Walks one page's entries from `i` on, appending admitted candidates,
/// and reports whether the time-window rule fired.
fn collect_page_posts(
    feed: &Vec<Feed>,
    i: usize,
    user_id: i32,
    now: i64,
    posts: &mut Vec<NewPost>,
) -> (out_of_range: bool)
    requires
        i <= feed.len(),
        now >= i64::MIN + WINDOW_END_HOURS * 3600,
    ensures
        seq_views(final(posts)@) == seq_views(old(posts)@) + admitted_of(
            seq_views(feed@).skip(i as int),
            user_id,
            now,
        ),
        out_of_range == page_out_of_range(seq_views(feed@).skip(i as int), now),
    decreases feed.len() - i,
{
    let ghost fviews = seq_views(feed@);
    let ghost suffix = fviews.skip(i as int);
    if i == feed.len() {
        proof {
            assert(suffix =~= Seq::<FeedView>::empty());
            assert(seq_views(posts@) =~= seq_views(posts@) + admitted_of(suffix, user_id, now));
        }
        return false;
    }
    let entry = &feed[i];
    proof {
        assert(suffix[0] == fviews[i as int]);
        assert(fviews[i as int] == feed@[i as int]@);
        assert(suffix.skip(1) =~= fviews.skip(i + 1));
    }
    let mut skip_entry = entry.post.cid.is_none() || entry.post.record.is_none()
        || entry.post.reply_count.is_none() || entry.post.repost_count.is_none()
        || entry.post.like_count.is_none() || entry.post.quote_count.is_none();
    match &entry.reason {
        Some(reason) => {
            if matches!(reason.reason_type, ReasonType::Repost) {
                skip_entry = true;
            }
        },
        None => {},
    }
    let mut publish_time: Option<i64> = None;
    if !skip_entry {
        match &entry.post.record {
            Some(record) => {
                publish_time = parse_rfc3339_epoch(&record.created_at);
            },
            None => {},
        }
        if publish_time.is_none() {
            skip_entry = true;
        }
    }
    if skip_entry {
        proof {
            assert(entry_skipped(suffix[0]));
        }
        collect_page_posts(feed, i + 1, user_id, now, posts)
    } else {
        proof {
            assert(!entry_skipped(suffix[0]));
            assert(publish_time == rfc3339_epoch(entry.post.record.unwrap()@.created_at));
        }
        let ts = publish_time.unwrap();
        if in_admission_window(ts, now) {
            let reply_count = entry.post.reply_count.unwrap();
            let repost_count = entry.post.repost_count.unwrap();
            let like_count = entry.post.like_count.unwrap();
            let quote_count = entry.post.quote_count.unwrap();
            let total_points = score(reply_count, repost_count, like_count, quote_count);
            let cid = match &entry.post.cid {
                Some(c) => clone_bytes(c),
                None => Vec::new(),
            };
            let post = NewPost {
                created_at: ts,
                user_id,
                uri: clone_bytes(&entry.post.uri),
                cid,
                reply_count,
                repost_count,
                like_count,
                quote_count,
                total_points,
            };
            proof {
                assert(post@ =~= candidate_of(suffix[0], user_id));
            }
            posts.push(post);
            let out = collect_page_posts(feed, i + 1, user_id, now, posts);
            proof {
                assert(seq_views(final(posts)@) =~= seq_views(old(posts)@) + admitted_of(
                    suffix,
                    user_id,
                    now,
                ));
            }
            out
        } else {
            proof {
                assert(admitted_of(suffix, user_id, now) =~= Seq::<NewPostView>::empty());
                assert(seq_views(posts@) =~= seq_views(posts@) + admitted_of(suffix, user_id, now));
                assert(page_out_of_range(suffix, now));
            }
            true
        }
    }
}

/// Processes one author-feed page: appends the admitted candidate posts,
/// advances the request cursor to the page's cursor, and decides whether
/// pagination stops: it does exactly when the time-window rule fired or
/// the page carries no cursor.
pub fn process_feed_page(
    options: &mut FeedListOptions,
    res: FeedResponse,
    user_id: i32,
    now: i64,
    posts: &mut Vec<NewPost>,
) -> (stop: bool)
    requires
        now >= i64::MIN + WINDOW_END_HOURS * 3600,
    ensures
        seq_views(final(posts)@) == seq_views(old(posts)@) + admitted_of(
            seq_views(res.feed@),
            user_id,
            now,
        ),
        stop == (page_out_of_range(seq_views(res.feed@), now) || res.cursor is None),
        final(options).actor@ == old(options).actor@,
        final(options).limit == old(options).limit,
        final(options).filter == old(options).filter,
        opt_view(final(options).cursor) == opt_view(res.cursor),
{
    proof {
        assert(seq_views(res.feed@).skip(0) =~= seq_views(res.feed@));
    }
    let out_of_range = collect_page_posts(&res.feed, 0, user_id, now, posts);
    let stop = out_of_range || res.cursor.is_none();
    options.cursor = res.cursor;
    stop
}

/// Every candidate a page ever admits has its publish time inside the
/// admission window; in particular no post older than `now - 25h` is
/// admitted, from this page or any later one.
pub proof fn lemma_admitted_in_window(feed: Seq<FeedView>, user_id: i32, now: i64)
    ensures
        forall|j: int|
            0 <= j < admitted_of(feed, user_id, now).len() ==> in_window_spec(
                #[trigger] admitted_of(feed, user_id, now)[j].created_at,
                now as int,
            ),
    decreases feed.len(),
{
    if feed.len() > 0 {
        lemma_admitted_in_window(feed.skip(1), user_id, now);
        let a = admitted_of(feed, user_id, now);
        let rest = admitted_of(feed.skip(1), user_id, now);
        if entry_skipped(feed[0]) {
            assert forall|j: int| 0 <= j < a.len() implies in_window_spec(
                a[j].created_at,
                now as int,
            ) by {
                assert(a[j] == rest[j]);
                assert(in_window_spec(rest[j].created_at, now as int));
            }
        } else if in_window_spec(entry_time(feed[0]) as int, now as int) {
            assert forall|j: int| 0 <= j < a.len() implies in_window_spec(
                a[j].created_at,
                now as int,
            ) by {
                if j == 0 {
                    assert(a[0] == candidate_of(feed[0], user_id));
                } else {
                    assert(a[j] == rest[j - 1]);
                    assert(in_window_spec(rest[j - 1].created_at, now as int));
                }
            }
        }
    }
}

/// A page holding a live entry outside the admission window, each earlier
/// entry being skipped or in-window, is marked exhausted: ingestion stops
/// at the page containing the stale post.
pub proof fn lemma_stale_entry_stops_page(feed: Seq<FeedView>, now: i64, k: int)
    requires
        0 <= k < feed.len(),
        !entry_skipped(feed[k]),
        !in_window_spec(entry_time(feed[k]) as int, now as int),
        forall|j: int|
            0 <= j < k ==> entry_skipped(#[trigger] feed[j]) || in_window_spec(
                entry_time(feed[j]) as int,
                now as int,
            ),
    ensures
        page_out_of_range(feed, now),
    decreases feed.len(),
{
    if k > 0 {
        assert(forall|j: int| 0 <= j < k - 1 ==> feed.skip(1)[j] == feed[j + 1]);
        assert(feed.skip(1)[k - 1] == feed[k]);
        lemma_stale_entry_stops_page(feed.skip(1), now, k - 1);
    }
}

// ---------------------------------------------------------------------
// Pagination termination
// ---------------------------------------------------------------------
/// The number of pages a pagination loop consumes, given the stop
/// decision each processed page yields: the loop takes pages until the
/// first one that decides to stop.
pub open spec fn pages_consumed(stops: Seq<bool>) -> int
    decreases stops.len(),
{
    if stops.len() == 0 {
        0
    } else if stops[0] {
        1
    } else {
        1 + pages_consumed(stops.skip(1))
    }
}

/// Pagination terminates in a bounded number of steps: once some page
/// decides to stop — an empty cursor, or the time-window rule for author
/// feeds — the loop consumes no page beyond it, whatever the remote
/// returns afterwards.
pub proof fn lemma_pagination_bounded(stops: Seq<bool>, k: int)
    requires
        0 <= k < stops.len(),
        stops[k],
    ensures
        pages_consumed(stops) <= k + 1,
    decreases k,
{
    if k > 0 && !stops[0] {
        assert(stops.skip(1)[k - 1] == stops[k]);
        lemma_pagination_bounded(stops.skip(1), k - 1);
    }
}

// ---------------------------------------------------------------------
// Ranking and publication
// ---------------------------------------------------------------------
/// The fixed label of the published summary, as UTF-8 bytes: a hash mark,
/// a Cyrillic word for "top", the digits "10", and a space.
pub open spec fn top_label_spec() -> Seq<u8> {
    seq![0x23u8, 0xd0u8, 0xa2u8, 0xd0u8, 0xbeu8, 0xd0u8, 0xbfu8, 0x31u8, 0x30u8, 0x20u8]
}

/// Builds the fixed label of the published summary.
fn top_label() -> (r: Vec<u8>)
    ensures
        r@ == top_label_spec(),
{
    let mut r: Vec<u8> = Vec::new();
    r.push(0x23);
    r.push(0xd0);
    r.push(0xa2);
    r.push(0xd0);
    r.push(0xbe);
    r.push(0xd0);
    r.push(0xbf);
    r.push(0x31);
    r.push(0x30);
    r.push(0x20);
    proof {
        assert(r@ =~= top_label_spec());
    }
    r
}

/// The name a publication shows for an account: its display name, or its
/// handle when the display name is absent or empty.
pub open spec fn display_or_handle(u: UserView) -> Seq<u8> {
    match u.display_name {
        Some(d) => if d.len() > 0 {
            d
        } else {
            u.handle
        },
        None => u.handle,
    }
}

/// The message published for one account: the fixed label followed by the
/// account's shown name.
pub open spec fn message_of(u: UserView) -> Seq<u8> {
    top_label_spec() + display_or_handle(u)
}

/// Builds the publish message for one account.
pub fn build_top_message(user: &User) -> (message: Vec<u8>)
    ensures
        message@ == message_of(user@),
{
    let mut message = top_label();
    let name: &Vec<u8> = match &user.display_name {
        Some(d) => if d.len() > 0 {
            d
        } else {
            &user.handle
        },
        None => &user.handle,
    };
    let ghost prefix = message@;
    let mut i: usize = 0;
    while i < name.len()
        invariant
            i <= name.len(),
            message@ =~= prefix + name@.take(i as int),
        decreases name.len() - i,
    {
        message.push(name[i]);
        i = i + 1;
        proof {
            assert(prefix + name@.take(i as int) =~= (prefix + name@.take(i - 1)).push(
                name@[i - 1],
            ));
        }
    }
    proof {
        assert(message@ =~= message_of(user@));
    }
    message
}

/// Copies a persisted account record.
fn clone_user(u: &User) -> (r: User)
    ensures
        r@ == u@,
{
    let r = User {
        id: u.id,
        created_at: u.created_at,
        updated_at: u.updated_at,
        did: clone_bytes(&u.did),
        handle: clone_bytes(&u.handle),
        display_name: clone_opt_bytes(&u.display_name),
    };
    proof {
        assert(r@ =~= u@);
    }
    r
}

/// One planned publish call of a publication pass.
#[derive(Debug)]
pub struct PublishItem {
    pub message: Vec<u8>,
    pub facets: Vec<Facet>,
    pub embed: Embed,
}

/// What a publication pass performs: the publish calls in order, then —
/// always, and exactly once — the bulk clear of the working post set.
#[derive(Debug)]
pub struct PublicationPlan {
    pub items: Vec<PublishItem>,
    pub clear_working_set: bool,
}

/// Plans one publication pass over the top-scored posts, given in
/// descending score order joined with their owning accounts.  One publish
/// item is planned per post, in the given order: the fixed label with the
/// account's shown name, the rich-text spans of that message resolved
/// against the single target account, and an embedded reference to the
/// original post.  The working post set is cleared exactly once per pass,
/// whether zero or up to ten posts are to be published.
pub fn plan_publication(posts_with_users: &Vec<(Post, User)>) -> (plan: PublicationPlan)
    ensures
        plan.clear_working_set,
        plan.items@.len() == posts_with_users@.len(),
        forall|j: int|
            0 <= j < plan.items@.len() ==> {
                let pair = #[trigger] posts_with_users@[j];
                plan.items@[j].message@ == message_of(pair.1@) && seq_views(
                    plan.items@[j].facets@,
                ) == facets_of(message_of(pair.1@), seq![pair.1@]) && plan.items@[j].embed.embed_type
                    == EmbedType::Record && plan.items@[j].embed.record.uri@ == pair.0.uri@
                    && plan.items@[j].embed.record.cid@ == pair.0.cid@
            },
{
    let mut items: Vec<PublishItem> = Vec::new();
    let mut i: usize = 0;
    while i < posts_with_users.len()
        invariant
            i <= posts_with_users.len(),
            items@.len() == i,
            forall|j: int|
                0 <= j < i ==> {
                    let pair = #[trigger] posts_with_users@[j];
                    items@[j].message@ == message_of(pair.1@) && seq_views(items@[j].facets@)
                        == facets_of(message_of(pair.1@), seq![pair.1@])
                        && items@[j].embed.embed_type == EmbedType::Record
                        && items@[j].embed.record.uri@ == pair.0.uri@
                        && items@[j].embed.record.cid@ == pair.0.cid@
                },
        decreases posts_with_users.len() - i,
    {
        let pair = &posts_with_users[i];
        let post = &pair.0;
        let user = &pair.1;
        let message = build_top_message(user);
        let single = vec![clone_user(user)];
        proof {
            assert(seq_views(single@) =~= seq![user@]);
        }
        let facets = parse_facets_with_users(&message, &single);
        let embed = Embed {
            embed_type: EmbedType::Record,
            record: PostRef { uri: clone_bytes(&post.uri), cid: clone_bytes(&post.cid) },
        };
        items.push(PublishItem { message, facets, embed });
        i = i + 1;
    }
    PublicationPlan { items, clear_working_set: true }
}

} // verus!
