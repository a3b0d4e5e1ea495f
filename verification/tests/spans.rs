use bsky_bot::facets::{parse_facets_with_users, parse_mentions, parse_tags, parse_urls};
use bsky_bot::models::User;
use bsky_bot::structs::FeatureType;

fn user(id: i32, did: &str, handle: &str, display_name: Option<&str>) -> User {
    User {
        id,
        created_at: 0,
        updated_at: 0,
        did: did.as_bytes().to_vec(),
        handle: handle.as_bytes().to_vec(),
        display_name: display_name.map(|d| d.as_bytes().to_vec()),
    }
}

#[test]
fn extracts_mention_link_and_tag_with_byte_offsets() {
    let text = b"hello @alice.bsky.social check https://example.com/x #news".to_vec();
    let users = vec![user(1, "did:abc", "alice.bsky.social", None)];

    let facets = parse_facets_with_users(&text, &users);
    assert_eq!(facets.len(), 3);

    let mention = &facets[0];
    assert_eq!(mention.index.byte_start, 6);
    assert_eq!(mention.index.byte_end, 24);
    assert_eq!(mention.features.len(), 1);
    assert_eq!(mention.features[0].feature_type, FeatureType::Mention);
    assert_eq!(mention.features[0].did, Some(b"did:abc".to_vec()));
    assert_eq!(mention.features[0].uri, None);
    assert_eq!(mention.features[0].tag, None);

    let link = &facets[1];
    assert_eq!(link.index.byte_start, 31);
    assert_eq!(link.index.byte_end, 52);
    assert_eq!(link.features[0].feature_type, FeatureType::Link);
    assert_eq!(link.features[0].uri, Some(b"https://example.com/x".to_vec()));
    assert_eq!(link.features[0].did, None);

    let tag = &facets[2];
    assert_eq!(tag.index.byte_start, 53);
    assert_eq!(tag.index.byte_end, 58);
    assert_eq!(tag.features[0].feature_type, FeatureType::Tag);
    assert_eq!(tag.features[0].tag, Some(b"news".to_vec()));
}

#[test]
fn unresolved_mention_is_dropped() {
    let text = b"hi @bob.test and @carol.example.org".to_vec();

    let no_users: Vec<User> = Vec::new();
    assert_eq!(parse_facets_with_users(&text, &no_users).len(), 0);

    let other = vec![user(1, "did:x", "someone.else", None)];
    assert_eq!(parse_facets_with_users(&text, &other).len(), 0);

    let partial = vec![user(1, "did:carol", "carol.example.org", None)];
    let facets = parse_facets_with_users(&text, &partial);
    assert_eq!(facets.len(), 1);
    assert_eq!(facets[0].features[0].did, Some(b"did:carol".to_vec()));
    assert_eq!(facets[0].index.byte_start, 17);
    assert_eq!(facets[0].index.byte_end, 35);
}

#[test]
fn mention_spans_and_payloads() {
    let spans = parse_mentions(&b"@a.b then x@y.com rest".to_vec());
    assert_eq!(spans.len(), 2);
    assert_eq!((spans[0].start, spans[0].end), (0, 4));
    assert_eq!(spans[0].span, b"a.b".to_vec());
    assert_eq!((spans[1].start, spans[1].end), (11, 17));
    assert_eq!(spans[1].span, b"y.com".to_vec());

    // A trailing dot stays outside the match.
    let spans = parse_mentions(&b"@one.two.".to_vec());
    assert_eq!(spans.len(), 1);
    assert_eq!((spans[0].start, spans[0].end), (0, 8));
    assert_eq!(spans[0].span, b"one.two".to_vec());

    // The final label must start with a letter.
    let spans = parse_mentions(&b"@a.b.9".to_vec());
    assert_eq!(spans.len(), 1);
    assert_eq!((spans[0].start, spans[0].end), (0, 4));
    assert_eq!(spans[0].span, b"a.b".to_vec());

    // No dotted label chain, no mention.
    assert_eq!(parse_mentions(&b"mail @nodots here".to_vec()).len(), 0);
}

#[test]
fn url_spans_and_trimming() {
    let spans = parse_urls(&b"see http://a.b! now".to_vec());
    assert_eq!(spans.len(), 1);
    assert_eq!((spans[0].start, spans[0].end), (4, 14));
    assert_eq!(spans[0].span, b"http://a.b".to_vec());

    // Trailing closing punctuation is not part of the link.
    let spans = parse_urls(&b"https://x.io/p.".to_vec());
    assert_eq!(spans.len(), 1);
    assert_eq!(spans[0].span, b"https://x.io/p".to_vec());

    // A top-level label longer than six bytes is no link.
    assert_eq!(parse_urls(&b"https://example.commmmmm".to_vec()).len(), 0);

    // The scheme must be complete.
    assert_eq!(parse_urls(&b"htt://a.b ftp://c.d".to_vec()).len(), 0);
}

#[test]
fn tag_spans() {
    // At the start of the text the match begins at the hash.
    let spans = parse_tags(&b"#top10 of all".to_vec());
    assert_eq!(spans.len(), 1);
    assert_eq!((spans[0].start, spans[0].end), (0, 6));
    assert_eq!(spans[0].span, b"top10".to_vec());

    // The whitespace anchor is a condition only: the span starts at the hash.
    let spans = parse_tags(&b"a #b c".to_vec());
    assert_eq!(spans.len(), 1);
    assert_eq!((spans[0].start, spans[0].end), (2, 4));
    assert_eq!(spans[0].span, b"b".to_vec());

    // A digit after the hash is no tag; a hash inside a word is no tag.
    assert_eq!(parse_tags(&b"#1abc".to_vec()).len(), 0);
    assert_eq!(parse_tags(&b"a#b".to_vec()).len(), 0);
}

#[test]
fn multibyte_text_keeps_byte_offsets() {
    // Two-byte characters before the tag shift its byte offsets.
    let text = "ой #tag".as_bytes().to_vec();
    let spans = parse_tags(&text);
    assert_eq!(spans.len(), 1);
    assert_eq!((spans[0].start, spans[0].end), (5, 9));
    assert_eq!(spans[0].span, b"tag".to_vec());
}
