use bsky_bot::bench::{get_time_from_duration, Bench};
use bsky_bot::score::{in_admission_window, score};
use bsky_bot::structs::{build_post_record, Embed, EmbedType, PostRef, RecordType};

#[test]
fn score_is_the_exact_weighted_sum() {
    // like*1 + reply*5 + repost*3 + quote*4
    assert_eq!(score(0, 0, 0, 0), 0);
    assert_eq!(score(1, 0, 0, 0), 5);
    assert_eq!(score(0, 1, 0, 0), 3);
    assert_eq!(score(0, 0, 1, 0), 1);
    assert_eq!(score(0, 0, 0, 1), 4);
    assert_eq!(score(2, 3, 4, 5), 43);
    assert_eq!(score(7, 11, 13, 17), 7 * 5 + 11 * 3 + 13 + 17 * 4);
    // The largest counters still sum without overflow or rounding.
    assert_eq!(score(u32::MAX, u32::MAX, u32::MAX, u32::MAX), 13 * (u32::MAX as u64));
}

#[test]
fn admission_window_bounds_are_inclusive() {
    let now: i64 = 1_700_090_000;
    let lower = now - 25 * 3600;
    let upper = now - 24 * 3600;
    assert!(in_admission_window(lower, now));
    assert!(in_admission_window(upper, now));
    assert!(in_admission_window(lower + 1, now));
    assert!(!in_admission_window(lower - 1, now));
    assert!(!in_admission_window(upper + 1, now));
    assert!(!in_admission_window(now, now));
}

#[test]
fn duration_text_lists_nonzero_units() {
    assert_eq!(get_time_from_duration(0, 0), b"0ms".to_vec());
    assert_eq!(get_time_from_duration(0, 7), b"7ms ".to_vec());
    assert_eq!(get_time_from_duration(5, 0), b"5s ".to_vec());
    assert_eq!(get_time_from_duration(61, 0), b"1m 1s ".to_vec());
    assert_eq!(get_time_from_duration(3661, 5), b"1h 1m 1s 5ms ".to_vec());
    assert_eq!(get_time_from_duration(7200, 0), b"2h ".to_vec());
    assert_eq!(get_time_from_duration(90061, 999), b"25h 1m 1s 999ms ".to_vec());
}

#[test]
fn bench_reports_completion_lines() {
    let bench = Bench::start(b"Collecting users".to_vec(), 1_000);
    let line = bench.end(62_005);
    assert_eq!(line, b"Collecting users is complete (1m 1s 5ms)".to_vec());

    let silent = Bench::start_silent(500);
    let line = silent.end(500);
    assert_eq!(line, b"Unnamed Task is complete (0ms)".to_vec());

    let bench = Bench::start_silent(0);
    let line = bench.end_with(&b"Synced 100 users of 200".to_vec(), 2_500);
    assert_eq!(line, b"Synced 100 users of 200 (2s 500ms)".to_vec());
}

#[test]
fn post_record_carries_message_and_references() {
    let embed = Embed {
        embed_type: EmbedType::Record,
        record: PostRef { uri: b"at://orig".to_vec(), cid: b"cid-orig".to_vec() },
    };
    let record = build_post_record(
        b"did:me".to_vec(),
        b"hello world".to_vec(),
        b"2023-11-14T22:13:20.000Z".to_vec(),
        None,
        None,
        Some(embed),
    );
    assert_eq!(record.repo, b"did:me".to_vec());
    assert_eq!(record.collection, RecordType::Post);
    assert!(record.validate);
    assert_eq!(record.lang.len(), 1);
    assert_eq!(record.lang[0], b"ua".to_vec());
    assert_eq!(record.record.record_type, RecordType::Post);
    assert_eq!(record.record.text, b"hello world".to_vec());
    assert_eq!(record.record.created_at, b"2023-11-14T22:13:20.000Z".to_vec());
    assert!(record.record.facets.is_none());
    assert!(record.record.reply.is_none());
    let embed = record.record.embed.expect("embed kept");
    assert_eq!(embed.record.uri, b"at://orig".to_vec());
    assert_eq!(embed.record.cid, b"cid-orig".to_vec());
}
