//! Scoring engine: the weighted engagement score of a post and the
//! time-window admission rule that decides whether a post is scored at all.

use vstd::prelude::*;

verus! {

/// Weight of one like.
pub const LIKE_WEIGHT: u32 = 1;

/// Weight of one reply.
pub const REPLY_WEIGHT: u32 = 5;

/// Weight of one repost.
pub const REPOST_WEIGHT: u32 = 3;

/// Weight of one quote.
pub const QUOTE_WEIGHT: u32 = 4;

/// Upper bound of the admission window, in hours before "now".
pub const WINDOW_START_HOURS: i64 = 24;

/// Lower bound of the admission window, in hours before "now".
pub const WINDOW_END_HOURS: i64 = 25;

/// The weighted engagement score as a mathematical integer.
pub open spec fn score_spec(reply_count: u32, repost_count: u32, like_count: u32, quote_count: u32) -> int {
    like_count * LIKE_WEIGHT + reply_count * REPLY_WEIGHT + repost_count * REPOST_WEIGHT
        + quote_count * QUOTE_WEIGHT
}

/// Computes the engagement score of a post from its four raw counters:
/// one point per like, five per reply, three per repost, four per quote,
/// in exact integer arithmetic.
pub fn score(reply_count: u32, repost_count: u32, like_count: u32, quote_count: u32) -> (total: u64)
    ensures
        total == score_spec(reply_count, repost_count, like_count, quote_count),
{
    like_count as u64 * 1 + reply_count as u64 * 5 + repost_count as u64 * 3
        + quote_count as u64 * 4
}

/// A publish time is admitted when it lies in the closed window
/// `[now - 25h, now - 24h]`, measured in seconds.
pub open spec fn in_window_spec(created_at: int, now: int) -> bool {
    now - WINDOW_END_HOURS * 3600 <= created_at <= now - WINDOW_START_HOURS * 3600
}

/// Decides the admission-window rule for one publish time.
pub fn in_admission_window(created_at: i64, now: i64) -> (admitted: bool)
    requires
        now >= i64::MIN + WINDOW_END_HOURS * 3600,
    ensures
        admitted == in_window_spec(created_at as int, now as int),
{
    let lower: i64 = now - WINDOW_END_HOURS * 3600;
    let upper: i64 = now - WINDOW_START_HOURS * 3600;
    lower <= created_at && created_at <= upper
}

} // verus!
