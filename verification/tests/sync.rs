use bsky_bot::models::{NewUser, User};
use bsky_bot::reconcile::reconcile_accounts;
use bsky_bot::structs::{
    Author, EmbedType, Feed, FeedFilter, FeedListOptions, FeedResponse, FollowersListOptions,
    FollowsResponse, Post, Reason, ReasonType, Record,
};
use bsky_bot::tasks::{next_accounts_cursor, plan_publication, process_feed_page, process_followers_page};

fn existing_user(id: i32, did: &str, handle: &str, display_name: Option<&str>) -> User {
    User {
        id,
        created_at: 100,
        updated_at: 200,
        did: did.as_bytes().to_vec(),
        handle: handle.as_bytes().to_vec(),
        display_name: display_name.map(|d| d.as_bytes().to_vec()),
    }
}

fn candidate(did: &str, handle: &str, display_name: Option<&str>) -> NewUser {
    NewUser {
        did: did.as_bytes().to_vec(),
        handle: handle.as_bytes().to_vec(),
        display_name: display_name.map(|d| d.as_bytes().to_vec()),
    }
}

#[test]
fn classifies_update_insert_and_noop() {
    let existing = vec![
        existing_user(1, "did:1", "old.handle", None),
        existing_user(2, "did:2", "same.handle", Some("Same")),
    ];
    let cands = vec![
        candidate("did:1", "new.handle", Some("New")),
        candidate("did:2", "same.handle", Some("Same")),
        candidate("did:3", "fresh.handle", None),
    ];

    let plan = reconcile_accounts(&cands, &existing, 900);

    assert_eq!(plan.to_update.len(), 1);
    assert_eq!(plan.to_update[0].id, 1);
    assert_eq!(plan.to_update[0].created_at, 100);
    // The update time is refreshed to the pass's clock.
    assert_eq!(plan.to_update[0].updated_at, 900);
    assert_eq!(plan.to_update[0].did, b"did:1".to_vec());
    assert_eq!(plan.to_update[0].handle, b"new.handle".to_vec());
    assert_eq!(plan.to_update[0].display_name, Some(b"New".to_vec()));

    assert_eq!(plan.to_insert.len(), 1);
    assert_eq!(plan.to_insert[0].did, b"did:3".to_vec());
    assert_eq!(plan.to_insert[0].handle, b"fresh.handle".to_vec());
}

#[test]
fn candidate_matching_persisted_record_is_never_inserted() {
    let existing = vec![existing_user(7, "did:x", "kept.handle", None)];
    let cands = vec![
        candidate("did:x", "changed.handle", None),
        candidate("did:x", "kept.handle", None),
    ];

    let plan = reconcile_accounts(&cands, &existing, 900);

    // One update (the changed fields) and one no-op; never an insert.
    assert_eq!(plan.to_insert.len(), 0);
    assert_eq!(plan.to_update.len(), 1);
    assert_eq!(plan.to_update[0].id, 7);
}

#[test]
fn second_run_plans_nothing() {
    let existing = vec![existing_user(1, "did:1", "old.handle", None)];
    let cands = vec![
        candidate("did:1", "new.handle", Some("New")),
        candidate("did:2", "other.handle", None),
    ];

    let first = reconcile_accounts(&cands, &existing, 900);
    assert_eq!(first.to_update.len(), 1);
    assert_eq!(first.to_insert.len(), 1);

    // Apply the plan: the updated row replaces its record, the insert batch
    // becomes new rows under fresh surrogate keys.
    let mut applied: Vec<User> = Vec::new();
    applied.push(User {
        id: first.to_update[0].id,
        created_at: first.to_update[0].created_at,
        updated_at: first.to_update[0].updated_at,
        did: first.to_update[0].did.clone(),
        handle: first.to_update[0].handle.clone(),
        display_name: first.to_update[0].display_name.clone(),
    });
    for (n, ins) in first.to_insert.iter().enumerate() {
        applied.push(User {
            id: 100 + n as i32,
            created_at: 777,
            updated_at: 777,
            did: ins.did.clone(),
            handle: ins.handle.clone(),
            display_name: ins.display_name.clone(),
        });
    }

    let second = reconcile_accounts(&cands, &applied, 950);
    assert_eq!(second.to_update.len(), 0);
    assert_eq!(second.to_insert.len(), 0);
}

#[test]
fn repeated_identifier_resolves_to_last_record() {
    // A lookup built in iteration order lets the later record win.
    let existing = vec![
        existing_user(1, "did:d", "a.handle", None),
        existing_user(2, "did:d", "b.handle", None),
    ];
    let cands = vec![candidate("did:d", "b.handle", None)];
    let plan = reconcile_accounts(&cands, &existing, 900);
    assert_eq!(plan.to_update.len(), 0);
    assert_eq!(plan.to_insert.len(), 0);
}

fn follower(did: &str, handle: Option<&str>) -> Author {
    Author {
        did: did.as_bytes().to_vec(),
        handle: handle.map(|h| h.as_bytes().to_vec()),
        display_name: None,
    }
}

#[test]
fn followers_page_drops_malformed_and_stops_on_empty_cursor() {
    let mut options = FollowersListOptions {
        actor: b"bsky.one".to_vec(),
        limit: 100,
        cursor: None,
    };
    let mut new_users: Vec<NewUser> = Vec::new();

    let page1 = FollowsResponse {
        cursor: Some(b"cur1".to_vec()),
        follows: vec![
            follower("did:a", Some("a.test")),
            follower("did:b", None),
            follower("did:c", Some("c.test")),
        ],
    };
    let stop = process_followers_page(&mut options, page1, &mut new_users);
    assert!(!stop);
    assert_eq!(options.cursor, Some(b"cur1".to_vec()));
    assert_eq!(new_users.len(), 2);
    assert_eq!(new_users[0].did, b"did:a".to_vec());
    assert_eq!(new_users[1].did, b"did:c".to_vec());

    let page2 = FollowsResponse { cursor: None, follows: vec![follower("did:d", Some("d.test"))] };
    let stop = process_followers_page(&mut options, page2, &mut new_users);
    assert!(stop);
    assert_eq!(options.cursor, None);
    assert_eq!(new_users.len(), 3);
    assert_eq!(options.actor, b"bsky.one".to_vec());
    assert_eq!(options.limit, 100);
}

fn feed_entry(cid: Option<&str>, created_at: &str, counts: (u32, u32, u32, u32), repost: bool) -> Feed {
    Feed {
        post: Post {
            uri: b"at://post/1".to_vec(),
            cid: cid.map(|c| c.as_bytes().to_vec()),
            record: Some(Record { created_at: created_at.as_bytes().to_vec() }),
            reply_count: Some(counts.0),
            repost_count: Some(counts.1),
            like_count: Some(counts.2),
            quote_count: Some(counts.3),
        },
        reason: if repost { Some(Reason { reason_type: ReasonType::Repost }) } else { None },
    }
}

fn feed_options() -> FeedListOptions {
    FeedListOptions {
        actor: b"did:a".to_vec(),
        limit: Some(100),
        cursor: None,
        filter: Some(FeedFilter::PostsWithReplies),
    }
}

// 2023-11-14T22:13:20Z is 1_700_000_000 seconds since the epoch.  With
// `now` at 1_700_090_000, the admission window is exactly
// [1_700_000_000, 1_700_003_600].
const NOW: i64 = 1_700_090_000;

#[test]
fn feed_page_admits_window_skips_malformed_and_stops_on_stale() {
    let mut options = feed_options();
    let mut posts = Vec::new();

    let page = FeedResponse {
        cursor: Some(b"next".to_vec()),
        feed: vec![
            // Admitted: at the window's lower bound, scored 2*5+3*3+4*1+5*4 = 43.
            feed_entry(Some("cid1"), "2023-11-14T22:13:20Z", (2, 3, 4, 5), false),
            // Skipped: no content hash.
            feed_entry(None, "2023-11-14T22:13:20Z", (1, 1, 1, 1), false),
            // Skipped: a repost of another account's content.
            feed_entry(Some("cid2"), "2023-11-14T22:13:20Z", (1, 1, 1, 1), true),
            // Skipped: unparsable publish time.
            feed_entry(Some("cid3"), "not-a-time", (1, 1, 1, 1), false),
            // Stale: strictly before now - 25h; the page stops here.
            feed_entry(Some("cid4"), "2023-11-13T22:13:20Z", (9, 9, 9, 9), false),
            // Never reached, although it would be admissible.
            feed_entry(Some("cid5"), "2023-11-14T22:13:20Z", (1, 1, 1, 1), false),
        ],
    };

    let stop = process_feed_page(&mut options, page, 42, NOW, &mut posts);
    assert!(stop);
    assert_eq!(posts.len(), 1);
    assert_eq!(posts[0].created_at, 1_700_000_000);
    assert_eq!(posts[0].user_id, 42);
    assert_eq!(posts[0].cid, b"cid1".to_vec());
    assert_eq!(posts[0].uri, b"at://post/1".to_vec());
    assert_eq!(posts[0].total_points, 43);
    // The cursor still advances with the page.
    assert_eq!(options.cursor, Some(b"next".to_vec()));
    assert_eq!(options.filter, Some(FeedFilter::PostsWithReplies));
}

#[test]
fn feed_page_stops_on_too_new_posts_and_on_empty_cursor() {
    // A post newer than now - 24h also exhausts the page.
    let mut options = feed_options();
    let mut posts = Vec::new();
    let page = FeedResponse {
        cursor: Some(b"next".to_vec()),
        feed: vec![feed_entry(Some("cid1"), "2023-11-15T22:13:20Z", (1, 1, 1, 1), false)],
    };
    let stop = process_feed_page(&mut options, page, 1, NOW, &mut posts);
    assert!(stop);
    assert_eq!(posts.len(), 0);

    // An in-range page with no cursor stops pagination too.
    let mut options = feed_options();
    let page = FeedResponse {
        cursor: None,
        feed: vec![feed_entry(Some("cid2"), "2023-11-14T22:13:20Z", (0, 0, 1, 0), false)],
    };
    let stop = process_feed_page(&mut options, page, 1, NOW, &mut posts);
    assert!(stop);
    assert_eq!(posts.len(), 1);
    assert_eq!(posts[0].total_points, 1);

    // An in-range page with a cursor keeps going.
    let mut options = feed_options();
    let page = FeedResponse {
        cursor: Some(b"more".to_vec()),
        feed: vec![feed_entry(Some("cid3"), "2023-11-14T22:13:20Z", (0, 0, 0, 0), false)],
    };
    let stop = process_feed_page(&mut options, page, 1, NOW, &mut posts);
    assert!(!stop);
    assert_eq!(posts.len(), 2);
}

#[test]
fn publication_plan_always_clears_exactly_once() {
    let empty: Vec<(bsky_bot::models::Post, User)> = Vec::new();
    let plan = plan_publication(&empty);
    assert!(plan.clear_working_set);
    assert_eq!(plan.items.len(), 0);

    let post = bsky_bot::models::Post {
        id: 1,
        created_at: 1_700_000_000,
        user_id: 5,
        uri: b"at://post/top".to_vec(),
        cid: b"cid-top".to_vec(),
        reply_count: 2,
        repost_count: 3,
        like_count: 4,
        quote_count: 5,
        total_points: 43,
    };
    let author = existing_user(5, "did:top", "top.author", Some("Alice"));
    let plan = plan_publication(&vec![(post, author)]);
    assert!(plan.clear_working_set);
    assert_eq!(plan.items.len(), 1);

    // The message is the fixed label (a tag plus "10 " in UTF-8 bytes)
    // followed by the display name.
    let mut expected = vec![0x23u8, 0xd0, 0xa2, 0xd0, 0xbe, 0xd0, 0xbf, 0x31, 0x30, 0x20];
    expected.extend_from_slice(b"Alice");
    assert_eq!(plan.items[0].message, expected);

    // The label itself is a tag span of the message.
    assert_eq!(plan.items[0].facets.len(), 1);
    assert_eq!(plan.items[0].facets[0].index.byte_start, 0);
    assert_eq!(plan.items[0].facets[0].index.byte_end, 9);
    assert_eq!(
        plan.items[0].facets[0].features[0].tag,
        Some(vec![0xd0u8, 0xa2, 0xd0, 0xbe, 0xd0, 0xbf, 0x31, 0x30]),
    );

    assert_eq!(plan.items[0].embed.embed_type, EmbedType::Record);
    assert_eq!(plan.items[0].embed.record.uri, b"at://post/top".to_vec());
    assert_eq!(plan.items[0].embed.record.cid, b"cid-top".to_vec());
}

#[test]
fn publication_falls_back_to_handle_when_display_name_is_empty() {
    let post = bsky_bot::models::Post {
        id: 1,
        created_at: 0,
        user_id: 5,
        uri: b"u".to_vec(),
        cid: b"c".to_vec(),
        reply_count: 0,
        repost_count: 0,
        like_count: 0,
        quote_count: 0,
        total_points: 1,
    };
    let label: Vec<u8> = vec![0x23, 0xd0, 0xa2, 0xd0, 0xbe, 0xd0, 0xbf, 0x31, 0x30, 0x20];

    let empty_name = existing_user(5, "did:t", "the.handle", Some(""));
    let plan = plan_publication(&vec![(post, empty_name)]);
    let mut expected = label.clone();
    expected.extend_from_slice(b"the.handle");
    assert_eq!(plan.items[0].message, expected);

    let post2 = bsky_bot::models::Post {
        id: 2,
        created_at: 0,
        user_id: 6,
        uri: b"u2".to_vec(),
        cid: b"c2".to_vec(),
        reply_count: 0,
        repost_count: 0,
        like_count: 0,
        quote_count: 0,
        total_points: 2,
    };
    let no_name = existing_user(6, "did:u", "other.handle", None);
    let plan = plan_publication(&vec![(post2, no_name)]);
    let mut expected = label.clone();
    expected.extend_from_slice(b"other.handle");
    assert_eq!(plan.items[0].message, expected);
}

#[test]
fn empty_inputs_reconcile_to_empty_plans() {
    let plan = reconcile_accounts(&Vec::new(), &Vec::new(), 900);
    assert_eq!(plan.to_update.len(), 0);
    assert_eq!(plan.to_insert.len(), 0);

    let existing = vec![existing_user(1, "did:1", "h.one", None)];
    let plan = reconcile_accounts(&Vec::new(), &existing, 900);
    assert_eq!(plan.to_update.len(), 0);
    assert_eq!(plan.to_insert.len(), 0);
}

#[test]
fn empty_feed_page_only_stops_on_empty_cursor() {
    let mut options = feed_options();
    let mut posts = Vec::new();

    let page = FeedResponse { cursor: Some(b"next".to_vec()), feed: Vec::new() };
    let stop = process_feed_page(&mut options, page, 1, NOW, &mut posts);
    assert!(!stop);
    assert_eq!(posts.len(), 0);

    let page = FeedResponse { cursor: None, feed: Vec::new() };
    let stop = process_feed_page(&mut options, page, 1, NOW, &mut posts);
    assert!(stop);
}

#[test]
fn accounts_paging_cursor_advances_to_last_row() {
    let empty: Vec<User> = Vec::new();
    assert_eq!(next_accounts_cursor(&empty), None);

    let page = vec![
        existing_user(3, "did:3", "a.test", None),
        existing_user(9, "did:9", "b.test", None),
    ];
    assert_eq!(next_accounts_cursor(&page), Some(9));
}
