//! Span extractor: three independent single-pass scans over a message's
//! byte sequence, one per pattern family (mentions, links, tags), each
//! yielding byte-offset spans.  Mention spans are then resolved against a
//! caller-supplied handle lookup; unresolved mentions are dropped.
//!
//! Each scan walks the text left to right, takes the match starting at the
//! earliest position, and resumes after its end, so matches of one family
//! never overlap.  The grammars are fixed here:
//!
//! - a mention is `@` followed by one or more dot-terminated labels
//!   (alphanumeric ends, inner hyphens, at most 63 bytes) and a final label
//!   that starts with a letter;
//! - a link is `http://` or `https://`, a host run containing a dot that
//!   splits it into a name (at most 256 bytes) and a 1-6 byte alphanumeric
//!   top-level label ending at a word boundary, and an optional path not
//!   ending in closing punctuation;
//! - a tag is `#` at the start of the text or after whitespace, followed by
//!   a non-digit, non-whitespace byte and a run of non-whitespace bytes;
//!   the anchor is a condition only, and the span starts at the `#`.

use vstd::prelude::*;
use crate::models::{User, UserView};
use crate::structs::{Facet, FacetView, Feature, FeatureType, FeatureView, Index, IndexView};
use crate::util::{bytes_eq, bytes_range, clone_bytes, opt_view, seq_views};

verus! {

// ---------------------------------------------------------------------
// Byte classes
// ---------------------------------------------------------------------
/// ASCII whitespace: tab, line feed, vertical tab, form feed, carriage
/// return, space.
pub open spec fn is_ws(b: u8) -> bool {
    b == 0x09 || b == 0x0a || b == 0x0b || b == 0x0c || b == 0x0d || b == 0x20
}

/// An ASCII decimal digit.
pub open spec fn is_digit(b: u8) -> bool {
    0x30 <= b <= 0x39
}

/// An ASCII letter.
pub open spec fn is_alpha(b: u8) -> bool {
    (0x41 <= b <= 0x5a) || (0x61 <= b <= 0x7a)
}

/// An ASCII letter or digit.
pub open spec fn is_alnum(b: u8) -> bool {
    is_alpha(b) || is_digit(b)
}

/// A byte of a handle label: letter, digit or hyphen.
pub open spec fn is_label_byte(b: u8) -> bool {
    is_alnum(b) || b == 0x2d
}

/// A byte of a link's host part.
pub open spec fn is_host_byte(b: u8) -> bool {
    is_alnum(b) || b == 0x2d || b == 0x40 || b == 0x3a || b == 0x25 || b == 0x2e || b == 0x5f
        || b == 0x2b || b == 0x7e || b == 0x23 || b == 0x3d
}

/// A byte of a link's path part.
pub open spec fn is_path_byte(b: u8) -> bool {
    is_alnum(b) || b == 0x2d || b == 0x28 || b == 0x29 || b == 0x40 || b == 0x3a || b == 0x25
        || b == 0x5f || b == 0x2b || b == 0x2e || b == 0x7e || b == 0x23 || b == 0x3f || b == 0x26
        || b == 0x2f || b == 0x3d
}

/// A byte a link's path may end with: the path bytes except closing
/// punctuation (parentheses, dot, colon, question mark, ampersand).
pub open spec fn is_path_end_byte(b: u8) -> bool {
    is_alnum(b) || b == 0x2d || b == 0x40 || b == 0x25 || b == 0x5f || b == 0x2b || b == 0x7e
        || b == 0x23 || b == 0x2f || b == 0x3d
}

/// A word byte, for the boundary after a link's top-level label.
pub open spec fn is_word_byte(b: u8) -> bool {
    is_alnum(b) || b == 0x5f
}

pub open spec fn nonws_cls() -> spec_fn(u8) -> bool {
    |b: u8| !is_ws(b)
}

pub open spec fn label_cls() -> spec_fn(u8) -> bool {
    |b: u8| is_label_byte(b)
}

pub open spec fn host_cls() -> spec_fn(u8) -> bool {
    |b: u8| is_host_byte(b)
}

pub open spec fn path_cls() -> spec_fn(u8) -> bool {
    |b: u8| is_path_byte(b)
}

pub open spec fn alnum_cls() -> spec_fn(u8) -> bool {
    |b: u8| is_alnum(b)
}

// ---------------------------------------------------------------------
// Maximal runs
// ---------------------------------------------------------------------
/// The end of the maximal run of bytes satisfying `cls` that starts at `i`.
pub open spec fn run_end(t: Seq<u8>, i: int, cls: spec_fn(u8) -> bool) -> int
    decreases t.len() - i
        when 0 <= i <= t.len()
{
    if i == t.len() {
        i
    } else if cls(t[i]) {
        run_end(t, i + 1, cls)
    } else {
        i
    }
}

pub proof fn lemma_run_end_bounds(t: Seq<u8>, i: int, cls: spec_fn(u8) -> bool)
    requires
        0 <= i <= t.len(),
    ensures
        i <= run_end(t, i, cls) <= t.len(),
    decreases t.len() - i,
{
    if i < t.len() && cls(t[i]) {
        lemma_run_end_bounds(t, i + 1, cls);
    }
}

/// The end of the maximal non-whitespace run starting at `i`.
fn nonws_run_end(t: &Vec<u8>, i: usize) -> (r: usize)
    requires
        i <= t.len(),
    ensures
        i <= r <= t.len(),
        r == run_end(t@, i as int, nonws_cls()),
    decreases t.len() - i,
{
    if i == t.len() {
        i
    } else {
        let b = t[i];
        if !(b == 0x09 || b == 0x0a || b == 0x0b || b == 0x0c || b == 0x0d || b == 0x20) {
            nonws_run_end(t, i + 1)
        } else {
            i
        }
    }
}

/// The end of the maximal label-byte run starting at `i`.
fn label_run_end(t: &Vec<u8>, i: usize) -> (r: usize)
    requires
        i <= t.len(),
    ensures
        i <= r <= t.len(),
        r == run_end(t@, i as int, label_cls()),
    decreases t.len() - i,
{
    if i == t.len() {
        i
    } else {
        let b = t[i];
        if (0x41 <= b && b <= 0x5a) || (0x61 <= b && b <= 0x7a) || (0x30 <= b && b <= 0x39) || b
            == 0x2d {
            label_run_end(t, i + 1)
        } else {
            i
        }
    }
}

/// The end of the maximal host-byte run starting at `i`.
fn host_run_end(t: &Vec<u8>, i: usize) -> (r: usize)
    requires
        i <= t.len(),
    ensures
        i <= r <= t.len(),
        r == run_end(t@, i as int, host_cls()),
    decreases t.len() - i,
{
    if i == t.len() {
        i
    } else {
        let b = t[i];
        if (0x41 <= b && b <= 0x5a) || (0x61 <= b && b <= 0x7a) || (0x30 <= b && b <= 0x39) || b
            == 0x2d || b == 0x40 || b == 0x3a || b == 0x25 || b == 0x2e || b == 0x5f || b == 0x2b
            || b == 0x7e || b == 0x23 || b == 0x3d {
            host_run_end(t, i + 1)
        } else {
            i
        }
    }
}

/// The end of the maximal path-byte run starting at `i`.
fn path_run_end(t: &Vec<u8>, i: usize) -> (r: usize)
    requires
        i <= t.len(),
    ensures
        i <= r <= t.len(),
        r == run_end(t@, i as int, path_cls()),
    decreases t.len() - i,
{
    if i == t.len() {
        i
    } else {
        let b = t[i];
        if (0x41 <= b && b <= 0x5a) || (0x61 <= b && b <= 0x7a) || (0x30 <= b && b <= 0x39) || b
            == 0x2d || b == 0x28 || b == 0x29 || b == 0x40 || b == 0x3a || b == 0x25 || b == 0x5f
            || b == 0x2b || b == 0x2e || b == 0x7e || b == 0x23 || b == 0x3f || b == 0x26 || b
            == 0x2f || b == 0x3d {
            path_run_end(t, i + 1)
        } else {
            i
        }
    }
}

/// The end of the maximal alphanumeric run starting at `i`.
fn alnum_run_end(t: &Vec<u8>, i: usize) -> (r: usize)
    requires
        i <= t.len(),
    ensures
        i <= r <= t.len(),
        r == run_end(t@, i as int, alnum_cls()),
    decreases t.len() - i,
{
    if i == t.len() {
        i
    } else {
        let b = t[i];
        if (0x41 <= b && b <= 0x5a) || (0x61 <= b && b <= 0x7a) || (0x30 <= b && b <= 0x39) {
            alnum_run_end(t, i + 1)
        } else {
            i
        }
    }
}

// ---------------------------------------------------------------------
// Spans
// ---------------------------------------------------------------------
/// One raw match of a pattern family: a half-open byte range over the text
/// and the extracted payload.
#[derive(Debug)]
pub struct Span {
    pub start: u64,
    pub end: u64,
    pub span: Vec<u8>,
}

/// The mathematical value of a raw match.
#[verifier::ext_equal]
pub struct SpanView {
    pub start: int,
    pub end: int,
    pub span: Seq<u8>,
}

impl View for Span {
    type V = SpanView;

    open spec fn view(&self) -> SpanView {
        SpanView { start: self.start as int, end: self.end as int, span: self.span@ }
    }
}

// ---------------------------------------------------------------------
// Tags
// ---------------------------------------------------------------------
/// The end of a tag body starting at `j`: a `#`, one non-digit
/// non-whitespace byte, then the maximal non-whitespace run.
pub open spec fn tag_body_end(t: Seq<u8>, j: int) -> Option<int>
    recommends
        0 <= j <= t.len(),
{
    if j < t.len() && t[j] == 0x23 && j + 1 < t.len() && !is_digit(t[j + 1]) && !is_ws(t[j + 1]) {
        Some(run_end(t, j + 2, nonws_cls()))
    } else {
        None
    }
}

/// The tag match anchored at `i`, if any: the hash position and the match
/// end.  A tag body must stand at the start of the text or right after a
/// whitespace byte; the anchor is a condition only, so the emitted span
/// covers the `#` and the tag, never the whitespace.
pub open spec fn tag_match_at(t: Seq<u8>, i: int) -> Option<(int, int)>
    recommends
        0 <= i < t.len(),
{
    if i == 0 && tag_body_end(t, 0) is Some {
        Some((0, tag_body_end(t, 0).unwrap()))
    } else if i < t.len() && is_ws(t[i]) && tag_body_end(t, i + 1) is Some {
        Some((i + 1, tag_body_end(t, i + 1).unwrap()))
    } else {
        None
    }
}

pub proof fn lemma_tag_match_bounds(t: Seq<u8>, i: int)
    requires
        0 <= i < t.len(),
    ensures
        tag_match_at(t, i) matches Some((h, e)) ==> i <= h && h + 2 <= e <= t.len(),
{
    if tag_match_at(t, i) is Some {
        let (h, e) = tag_match_at(t, i).unwrap();
        lemma_run_end_bounds(t, h + 2, nonws_cls());
    }
}

/// All tag matches from position `i` on, in scan order.
pub open spec fn scan_tags(t: Seq<u8>, i: int) -> Seq<SpanView>
    decreases t.len() - i
        when 0 <= i <= t.len()
        via scan_tags_decreases
{
    if i >= t.len() {
        Seq::empty()
    } else {
        match tag_match_at(t, i) {
            Some((h, e)) => seq![
                SpanView { start: h, end: e, span: t.subrange(h + 1, e) },
            ] + scan_tags(t, e),
            None => scan_tags(t, i + 1),
        }
    }
}

#[via_fn]
proof fn scan_tags_decreases(t: Seq<u8>, i: int) {
    if i < t.len() {
        lemma_tag_match_bounds(t, i);
    }
}

/// The tag match starting at `i`, as `tag_match_at` describes it.
fn tag_match_at_exec(t: &Vec<u8>, i: usize) -> (r: Option<(usize, usize)>)
    requires
        i < t.len(),
    ensures
        match r {
            Some((h, e)) => tag_match_at(t@, i as int) == Some((h as int, e as int)) && i <= h && h
                + 2 <= e <= t.len(),
            None => tag_match_at(t@, i as int) is None,
        },
{
    proof {
        lemma_tag_match_bounds(t@, i as int);
    }
    if i == 0 {
        match tag_body_end_exec(t, 0) {
            Some(e) => {
                return Some((0, e));
            },
            None => {},
        }
    }
    let b = t[i];
    if b == 0x09 || b == 0x0a || b == 0x0b || b == 0x0c || b == 0x0d || b == 0x20 {
        match tag_body_end_exec(t, i + 1) {
            Some(e) => Some((i + 1, e)),
            None => None,
        }
    } else {
        None
    }
}

/// The end of a tag body at `j`, as `tag_body_end` describes it.
fn tag_body_end_exec(t: &Vec<u8>, j: usize) -> (r: Option<usize>)
    requires
        j <= t.len(),
    ensures
        match r {
            Some(e) => tag_body_end(t@, j as int) == Some(e as int) && j + 2 <= e <= t.len(),
            None => tag_body_end(t@, j as int) is None,
        },
{
    if j < t.len() && t[j] == 0x23 && j + 1 < t.len() {
        let c = t[j + 1];
        if !(0x30 <= c && c <= 0x39) && !(c == 0x09 || c == 0x0a || c == 0x0b || c == 0x0c || c
            == 0x0d || c == 0x20) {
            Some(nonws_run_end(t, j + 2))
        } else {
            None
        }
    } else {
        None
    }
}

/// Collects the tag matches from position `i` on.
fn scan_tags_from(t: &Vec<u8>, i: usize) -> (spans: Vec<Span>)
    requires
        i <= t.len(),
    ensures
        seq_views(spans@) == scan_tags(t@, i as int),
    decreases t.len() - i,
{
    if i >= t.len() {
        let spans: Vec<Span> = Vec::new();
        proof {
            assert(seq_views(spans@) =~= scan_tags(t@, i as int));
        }
        spans
    } else {
        match tag_match_at_exec(t, i) {
            Some((h, e)) => {
                let payload = bytes_range(t, h + 1, e);
                let mut spans = scan_tags_from(t, e);
                let sp = Span { start: h as u64, end: e as u64, span: payload };
                spans.insert(0, sp);
                proof {
                    assert(seq_views(spans@) =~= scan_tags(t@, i as int));
                }
                spans
            },
            None => scan_tags_from(t, i + 1),
        }
    }
}

/// Extracts all tag spans of the text, in scan order; each payload is the
/// tag text without the `#` marker.
pub fn parse_tags(text: &Vec<u8>) -> (spans: Vec<Span>)
    ensures
        seq_views(spans@) == scan_tags(text@, 0),
{
    scan_tags_from(text, 0)
}

// ---------------------------------------------------------------------
// Mentions
// ---------------------------------------------------------------------
/// The position after an inner handle label and its terminating dot at
/// `i`: the maximal label run, 1 to 63 bytes, alphanumeric at both ends,
/// followed by a dot.
pub open spec fn inner_label_end(t: Seq<u8>, i: int) -> Option<int>
    recommends
        0 <= i <= t.len(),
{
    let r: int = run_end(t, i, label_cls());
    if i < r && r - i <= 63 && is_alnum(t[i]) && is_alnum(t[r - 1]) && r < t.len() && t[r] == 0x2e {
        Some(r + 1)
    } else {
        None
    }
}

pub proof fn lemma_inner_label_bounds(t: Seq<u8>, i: int)
    requires
        0 <= i <= t.len(),
    ensures
        inner_label_end(t, i) matches Some(p) ==> i + 2 <= p <= t.len(),
{
    lemma_run_end_bounds(t, i, label_cls());
}

/// The largest end position in `(i, e]` whose previous byte is
/// alphanumeric, bounded below by `i + 1`.
pub open spec fn last_alnum_end(t: Seq<u8>, i: int, e: int) -> int
    decreases e - i
        when i + 1 <= e
{
    if e <= i + 1 {
        i + 1
    } else if is_alnum(t[e - 1]) {
        e
    } else {
        last_alnum_end(t, i, e - 1)
    }
}

pub proof fn lemma_last_alnum_bounds(t: Seq<u8>, i: int, e: int)
    requires
        i + 1 <= e,
    ensures
        i + 1 <= last_alnum_end(t, i, e) <= e,
    decreases e - i,
{
    if e > i + 1 && !is_alnum(t[e - 1]) {
        lemma_last_alnum_bounds(t, i, e - 1);
    }
}

/// The end of the final handle label at `i`: it starts with a letter and
/// takes the longest prefix of the label run, at most 63 bytes, that ends
/// alphanumeric.
pub open spec fn final_label_end(t: Seq<u8>, i: int) -> Option<int>
    recommends
        0 <= i <= t.len(),
{
    let r: int = run_end(t, i, label_cls());
    if i < r && is_alpha(t[i]) {
        let cap: int = if r < i + 63 {
            r
        } else {
            i + 63
        };
        Some(last_alnum_end(t, i, cap))
    } else {
        None
    }
}

pub proof fn lemma_final_label_bounds(t: Seq<u8>, i: int)
    requires
        0 <= i <= t.len(),
    ensures
        final_label_end(t, i) matches Some(e) ==> i + 1 <= e <= t.len(),
{
    lemma_run_end_bounds(t, i, label_cls());
    let r: int = run_end(t, i, label_cls());
    if i < r && is_alpha(t[i]) {
        let cap: int = if r < i + 63 {
            r
        } else {
            i + 63
        };
        lemma_last_alnum_bounds(t, i, cap);
    }
}

/// The end of the rest of a mention at `i`: as many further inner labels
/// as possible, then a final label; when no final label follows the last
/// inner label, that label is used as the final one.
pub open spec fn mention_tail_end(t: Seq<u8>, i: int) -> Option<int>
    decreases t.len() - i
        when 0 <= i <= t.len()
        via mention_tail_decreases
{
    match inner_label_end(t, i) {
        Some(p) => match mention_tail_end(t, p) {
            Some(e) => Some(e),
            None => final_label_end(t, i),
        },
        None => final_label_end(t, i),
    }
}

#[via_fn]
proof fn mention_tail_decreases(t: Seq<u8>, i: int) {
    lemma_inner_label_bounds(t, i);
}

pub proof fn lemma_mention_tail_bounds(t: Seq<u8>, i: int)
    requires
        0 <= i <= t.len(),
    ensures
        mention_tail_end(t, i) matches Some(e) ==> i < e <= t.len(),
    decreases t.len() - i,
{
    lemma_inner_label_bounds(t, i);
    lemma_final_label_bounds(t, i);
    match inner_label_end(t, i) {
        Some(p) => {
            lemma_mention_tail_bounds(t, p);
        },
        None => {},
    }
}

/// The mention match starting at `at`: an `@`, at least one inner label
/// with its dot, and a final label.
pub open spec fn mention_match_end(t: Seq<u8>, at: int) -> Option<int>
    recommends
        0 <= at < t.len(),
{
    if t[at] == 0x40 {
        match inner_label_end(t, at + 1) {
            Some(p) => mention_tail_end(t, p),
            None => None,
        }
    } else {
        None
    }
}

pub proof fn lemma_mention_match_bounds(t: Seq<u8>, at: int)
    requires
        0 <= at < t.len(),
    ensures
        mention_match_end(t, at) matches Some(e) ==> at + 1 < e <= t.len(),
{
    lemma_inner_label_bounds(t, at + 1);
    if t[at] == 0x40 {
        match inner_label_end(t, at + 1) {
            Some(p) => {
                lemma_mention_tail_bounds(t, p);
            },
            None => {},
        }
    }
}

/// The position after the inner label and dot at `i`, as
/// `inner_label_end` describes it.
fn inner_label_end_exec(t: &Vec<u8>, i: usize) -> (r: Option<usize>)
    requires
        i <= t.len(),
    ensures
        match r {
            Some(p) => inner_label_end(t@, i as int) == Some(p as int) && i + 2 <= p <= t.len(),
            None => inner_label_end(t@, i as int) is None,
        },
{
    proof {
        lemma_inner_label_bounds(t@, i as int);
    }
    let r = label_run_end(t, i);
    if i < r && r - i <= 63 && r < t.len() {
        let first = t[i];
        let last = t[r - 1];
        let dot = t[r];
        if ((0x41 <= first && first <= 0x5a) || (0x61 <= first && first <= 0x7a) || (0x30 <= first
            && first <= 0x39)) && ((0x41 <= last && last <= 0x5a) || (0x61 <= last && last <= 0x7a)
            || (0x30 <= last && last <= 0x39)) && dot == 0x2e {
            Some(r + 1)
        } else {
            None
        }
    } else {
        None
    }
}

/// The largest end whose previous byte is alphanumeric, as
/// `last_alnum_end` describes it.
fn last_alnum_end_exec(t: &Vec<u8>, i: usize, e: usize) -> (r: usize)
    requires
        i + 1 <= e <= t.len(),
    ensures
        r == last_alnum_end(t@, i as int, e as int),
        i + 1 <= r <= e,
    decreases e,
{
    if e <= i + 1 {
        i + 1
    } else {
        let b = t[e - 1];
        if (0x41 <= b && b <= 0x5a) || (0x61 <= b && b <= 0x7a) || (0x30 <= b && b <= 0x39) {
            e
        } else {
            last_alnum_end_exec(t, i, e - 1)
        }
    }
}

/// The end of the final label at `i`, as `final_label_end` describes it.
fn final_label_end_exec(t: &Vec<u8>, i: usize) -> (r: Option<usize>)
    requires
        i <= t.len(),
    ensures
        match r {
            Some(e) => final_label_end(t@, i as int) == Some(e as int) && i + 1 <= e <= t.len(),
            None => final_label_end(t@, i as int) is None,
        },
{
    proof {
        lemma_final_label_bounds(t@, i as int);
    }
    let r = label_run_end(t, i);
    if i < r {
        let first = t[i];
        if (0x41 <= first && first <= 0x5a) || (0x61 <= first && first <= 0x7a) {
            let cap = if r - i < 63 {
                r
            } else {
                i + 63
            };
            Some(last_alnum_end_exec(t, i, cap))
        } else {
            None
        }
    } else {
        None
    }
}

/// The end of the rest of a mention at `i`, as `mention_tail_end`
/// describes it.
fn mention_tail_end_exec(t: &Vec<u8>, i: usize) -> (r: Option<usize>)
    requires
        i <= t.len(),
    ensures
        match r {
            Some(e) => mention_tail_end(t@, i as int) == Some(e as int) && i < e <= t.len(),
            None => mention_tail_end(t@, i as int) is None,
        },
    decreases t.len() - i,
{
    proof {
        lemma_mention_tail_bounds(t@, i as int);
    }
    match inner_label_end_exec(t, i) {
        Some(p) => match mention_tail_end_exec(t, p) {
            Some(e) => Some(e),
            None => final_label_end_exec(t, i),
        },
        None => final_label_end_exec(t, i),
    }
}

/// The end of the mention match at `at`, as `mention_match_end` describes
/// it.
fn mention_match_end_exec(t: &Vec<u8>, at: usize) -> (r: Option<usize>)
    requires
        at < t.len(),
    ensures
        match r {
            Some(e) => mention_match_end(t@, at as int) == Some(e as int) && at + 1 < e <= t.len(),
            None => mention_match_end(t@, at as int) is None,
        },
{
    proof {
        lemma_mention_match_bounds(t@, at as int);
    }
    if t[at] == 0x40 {
        match inner_label_end_exec(t, at + 1) {
            Some(p) => mention_tail_end_exec(t, p),
            None => None,
        }
    } else {
        None
    }
}

/// All mention matches from position `i` on, in scan order; each payload
/// is the handle without the `@` marker.
pub open spec fn scan_mentions(t: Seq<u8>, i: int) -> Seq<SpanView>
    decreases t.len() - i
        when 0 <= i <= t.len()
        via scan_mentions_decreases
{
    if i >= t.len() {
        Seq::empty()
    } else {
        match mention_match_end(t, i) {
            Some(e) => seq![
                SpanView { start: i, end: e, span: t.subrange(i + 1, e) },
            ] + scan_mentions(t, e),
            None => scan_mentions(t, i + 1),
        }
    }
}

#[via_fn]
proof fn scan_mentions_decreases(t: Seq<u8>, i: int) {
    if i < t.len() {
        lemma_mention_match_bounds(t, i);
    }
}

/// Collects the mention matches from position `i` on.
fn scan_mentions_from(t: &Vec<u8>, i: usize) -> (spans: Vec<Span>)
    requires
        i <= t.len(),
    ensures
        seq_views(spans@) == scan_mentions(t@, i as int),
    decreases t.len() - i,
{
    if i >= t.len() {
        let spans: Vec<Span> = Vec::new();
        proof {
            assert(seq_views(spans@) =~= scan_mentions(t@, i as int));
        }
        spans
    } else {
        match mention_match_end_exec(t, i) {
            Some(e) => {
                let payload = bytes_range(t, i + 1, e);
                let mut spans = scan_mentions_from(t, e);
                let sp = Span { start: i as u64, end: e as u64, span: payload };
                spans.insert(0, sp);
                proof {
                    assert(seq_views(spans@) =~= scan_mentions(t@, i as int));
                }
                spans
            },
            None => scan_mentions_from(t, i + 1),
        }
    }
}

/// Extracts all mention spans of the text, in scan order.
pub fn parse_mentions(text: &Vec<u8>) -> (spans: Vec<Span>)
    ensures
        seq_views(spans@) == scan_mentions(text@, 0),
{
    scan_mentions_from(text, 0)
}

// ---------------------------------------------------------------------
// Links
// ---------------------------------------------------------------------
/// The position after the scheme at `i`: `http://` or `https://`.
pub open spec fn scheme_end(t: Seq<u8>, i: int) -> Option<int>
    recommends
        0 <= i <= t.len(),
{
    if i + 4 <= t.len() && t[i] == 0x68 && t[i + 1] == 0x74 && t[i + 2] == 0x74 && t[i + 3]
        == 0x70 {
        if i + 8 <= t.len() && t[i + 4] == 0x73 && t[i + 5] == 0x3a && t[i + 6] == 0x2f && t[i + 7]
            == 0x2f {
            Some(i + 8)
        } else if i + 7 <= t.len() && t[i + 4] == 0x3a && t[i + 5] == 0x2f && t[i + 6] == 0x2f {
            Some(i + 7)
        } else {
            None
        }
    } else {
        None
    }
}

/// The end of the 1-6 byte alphanumeric top-level label after the dot at
/// `p`, valid only when followed by a word boundary.
pub open spec fn tld_end_at(t: Seq<u8>, p: int) -> Option<int>
    recommends
        0 <= p < t.len(),
{
    let a: int = run_end(t, p + 1, alnum_cls());
    if 1 <= a - (p + 1) <= 6 && (a == t.len() || !is_word_byte(t[a])) {
        Some(a)
    } else {
        None
    }
}

/// Searches the host run `[h, p]` right to left for the dot that splits it
/// into a 1-256 byte name and a valid top-level label; the rightmost such
/// dot wins.
pub open spec fn url_split(t: Seq<u8>, h: int, p: int) -> Option<(int, int)>
    decreases p - h
        when 0 <= h <= p && p < t.len()
{
    if p <= h {
        None
    } else if t[p] == 0x2e && p - h <= 256 && tld_end_at(t, p) is Some {
        Some((p, tld_end_at(t, p).unwrap()))
    } else {
        url_split(t, h, p - 1)
    }
}

pub proof fn lemma_url_split_bounds(t: Seq<u8>, h: int, p: int)
    requires
        0 <= h <= p < t.len(),
    ensures
        url_split(t, h, p) matches Some((d, a)) ==> h < d < t.len() && d + 2 <= a <= t.len(),
    decreases p - h,
{
    if p > h {
        if t[p] == 0x2e && p - h <= 256 && tld_end_at(t, p) is Some {
            lemma_run_end_bounds(t, p + 1, alnum_cls());
        } else {
            lemma_url_split_bounds(t, h, p - 1);
        }
    }
}

/// The largest end in `[s, e]` whose previous byte may end a path,
/// bounded below by `s`.
pub open spec fn path_trim(t: Seq<u8>, s: int, e: int) -> int
    decreases e - s
        when s <= e
{
    if e <= s {
        s
    } else if is_path_end_byte(t[e - 1]) {
        e
    } else {
        path_trim(t, s, e - 1)
    }
}

pub proof fn lemma_path_trim_bounds(t: Seq<u8>, s: int, e: int)
    requires
        s <= e,
    ensures
        s <= path_trim(t, s, e) <= e,
    decreases e - s,
{
    if e > s && !is_path_end_byte(t[e - 1]) {
        lemma_path_trim_bounds(t, s, e - 1);
    }
}

/// The link match starting at `i`: the scheme, the split host run, and
/// the optional path with trailing punctuation trimmed.
pub open spec fn url_match_end(t: Seq<u8>, i: int) -> Option<int>
    recommends
        0 <= i < t.len(),
{
    match scheme_end(t, i) {
        Some(h) => {
            let m: int = run_end(t, h, host_cls());
            if m <= h {
                None
            } else {
                match url_split(t, h, m - 1) {
                    Some((d, a)) => {
                        let pe: int = run_end(t, a, path_cls());
                        Some(path_trim(t, a, pe))
                    },
                    None => None,
                }
            }
        },
        None => None,
    }
}

pub proof fn lemma_url_match_bounds(t: Seq<u8>, i: int)
    requires
        0 <= i < t.len(),
    ensures
        url_match_end(t, i) matches Some(e) ==> i + 7 <= e <= t.len(),
{
    match scheme_end(t, i) {
        Some(h) => {
            lemma_run_end_bounds(t, h, host_cls());
            let m: int = run_end(t, h, host_cls());
            if m > h {
                lemma_url_split_bounds(t, h, m - 1);
                match url_split(t, h, m - 1) {
                    Some((d, a)) => {
                        lemma_run_end_bounds(t, a, path_cls());
                        let pe: int = run_end(t, a, path_cls());
                        lemma_path_trim_bounds(t, a, pe);
                    },
                    None => {},
                }
            }
        },
        None => {},
    }
}

/// The splitting dot and top-level-label end in the host run, as
/// `url_split` describes them.
fn url_split_exec(t: &Vec<u8>, h: usize, p: usize) -> (r: Option<(usize, usize)>)
    requires
        h <= p < t.len(),
    ensures
        match r {
            Some((d, a)) => url_split(t@, h as int, p as int) == Some((d as int, a as int)) && h < d
                < t.len() && d + 2 <= a <= t.len(),
            None => url_split(t@, h as int, p as int) is None,
        },
    decreases p - h,
{
    proof {
        lemma_url_split_bounds(t@, h as int, p as int);
    }
    if p <= h {
        None
    } else {
        if t[p] == 0x2e && p - h <= 256 {
            let a = alnum_run_end(t, p + 1);
            let width = a - (p + 1);
            let boundary = a == t.len() || {
                let b = t[a];
                !((0x41 <= b && b <= 0x5a) || (0x61 <= b && b <= 0x7a) || (0x30 <= b && b <= 0x39)
                    || b == 0x5f)
            };
            if 1 <= width && width <= 6 && boundary {
                return Some((p, a));
            }
        }
        url_split_exec(t, h, p - 1)
    }
}

/// The largest end whose previous byte may end a path, as `path_trim`
/// describes it.
fn path_trim_exec(t: &Vec<u8>, s: usize, e: usize) -> (r: usize)
    requires
        s <= e <= t.len(),
    ensures
        r == path_trim(t@, s as int, e as int),
        s <= r <= e,
    decreases e,
{
    if e <= s {
        s
    } else {
        let b = t[e - 1];
        if (0x41 <= b && b <= 0x5a) || (0x61 <= b && b <= 0x7a) || (0x30 <= b && b <= 0x39) || b
            == 0x2d || b == 0x40 || b == 0x25 || b == 0x5f || b == 0x2b || b == 0x7e || b == 0x23
            || b == 0x2f || b == 0x3d {
            e
        } else {
            path_trim_exec(t, s, e - 1)
        }
    }
}

/// The end of the link match at `i`, as `url_match_end` describes it.
fn url_match_end_exec(t: &Vec<u8>, i: usize) -> (r: Option<usize>)
    requires
        i < t.len(),
    ensures
        match r {
            Some(e) => url_match_end(t@, i as int) == Some(e as int) && i + 7 <= e <= t.len(),
            None => url_match_end(t@, i as int) is None,
        },
{
    proof {
        lemma_url_match_bounds(t@, i as int);
    }
    let scheme = if t.len() - i >= 4 && t[i] == 0x68 && t[i + 1] == 0x74 && t[i + 2] == 0x74 && t[i
        + 3] == 0x70 {
        if t.len() - i >= 8 && t[i + 4] == 0x73 && t[i + 5] == 0x3a && t[i + 6] == 0x2f && t[i + 7]
            == 0x2f {
            Some(i + 8)
        } else if t.len() - i >= 7 && t[i + 4] == 0x3a && t[i + 5] == 0x2f && t[i + 6] == 0x2f {
            Some(i + 7)
        } else {
            None
        }
    } else {
        None
    };
    match scheme {
        Some(h) => {
            let m = host_run_end(t, h);
            if m <= h {
                None
            } else {
                match url_split_exec(t, h, m - 1) {
                    Some((_d, a)) => {
                        let pe = path_run_end(t, a);
                        Some(path_trim_exec(t, a, pe))
                    },
                    None => None,
                }
            }
        },
        None => None,
    }
}

/// All link matches from position `i` on, in scan order; each payload is
/// the full matched link.
pub open spec fn scan_urls(t: Seq<u8>, i: int) -> Seq<SpanView>
    decreases t.len() - i
        when 0 <= i <= t.len()
        via scan_urls_decreases
{
    if i >= t.len() {
        Seq::empty()
    } else {
        match url_match_end(t, i) {
            Some(e) => seq![
                SpanView { start: i, end: e, span: t.subrange(i, e) },
            ] + scan_urls(t, e),
            None => scan_urls(t, i + 1),
        }
    }
}

#[via_fn]
proof fn scan_urls_decreases(t: Seq<u8>, i: int) {
    if i < t.len() {
        lemma_url_match_bounds(t, i);
    }
}

/// Collects the link matches from position `i` on.
fn scan_urls_from(t: &Vec<u8>, i: usize) -> (spans: Vec<Span>)
    requires
        i <= t.len(),
    ensures
        seq_views(spans@) == scan_urls(t@, i as int),
    decreases t.len() - i,
{
    if i >= t.len() {
        let spans: Vec<Span> = Vec::new();
        proof {
            assert(seq_views(spans@) =~= scan_urls(t@, i as int));
        }
        spans
    } else {
        match url_match_end_exec(t, i) {
            Some(e) => {
                let payload = bytes_range(t, i, e);
                let mut spans = scan_urls_from(t, e);
                let sp = Span { start: i as u64, end: e as u64, span: payload };
                spans.insert(0, sp);
                proof {
                    assert(seq_views(spans@) =~= scan_urls(t@, i as int));
                }
                spans
            },
            None => scan_urls_from(t, i + 1),
        }
    }
}

/// Extracts all link spans of the text, in scan order.
pub fn parse_urls(text: &Vec<u8>) -> (spans: Vec<Span>)
    ensures
        seq_views(spans@) == scan_urls(text@, 0),
{
    scan_urls_from(text, 0)
}

// ---------------------------------------------------------------------
// Resolution and facet assembly
// ---------------------------------------------------------------------
/// The external identifier a handle resolves to: the identifier of the
/// last account carrying the handle, as a lookup table built in iteration
/// order would resolve it, or nothing when no account carries it.
pub open spec fn resolve(users: Seq<UserView>, handle: Seq<u8>) -> Option<Seq<u8>>
    decreases users.len(),
{
    if users.len() == 0 {
        None
    } else if users.last().handle == handle {
        Some(users.last().did)
    } else {
        resolve(users.drop_last(), handle)
    }
}

/// Resolves a handle against the account list, as `resolve` describes it.
fn resolve_handle(users: &Vec<User>, handle: &Vec<u8>) -> (r: Option<Vec<u8>>)
    ensures
        opt_view(r) == resolve(seq_views(users@), handle@),
{
    let ghost views = seq_views(users@);
    let mut i: usize = users.len();
    proof {
        assert(views.take(users.len() as int) =~= views);
    }
    while i > 0
        invariant
            i <= users.len(),
            views == seq_views(users@),
            views.len() == users.len(),
            forall|j: int| 0 <= j < views.len() ==> views[j] == users@[j]@,
            resolve(views, handle@) == resolve(views.take(i as int), handle@),
        decreases i,
    {
        i = i - 1;
        proof {
            assert(views.take(i + 1).drop_last() =~= views.take(i as int));
            assert(views.take(i + 1).last() == views[i as int]);
        }
        if bytes_eq(&users[i].handle, handle) {
            return Some(clone_bytes(&users[i].did));
        }
    }
    proof {
        assert(resolve(views.take(0), handle@) is None);
    }
    None
}

/// The facet of a resolved mention span.
pub open spec fn mention_facet(s: SpanView, did: Seq<u8>) -> FacetView {
    FacetView {
        index: IndexView { byte_start: s.start, byte_end: s.end },
        features: seq![
            FeatureView { feature_type: FeatureType::Mention, did: Some(did), uri: None, tag: None },
        ],
    }
}

/// The facet of a link span.
pub open spec fn link_facet(s: SpanView) -> FacetView {
    FacetView {
        index: IndexView { byte_start: s.start, byte_end: s.end },
        features: seq![
            FeatureView { feature_type: FeatureType::Link, did: None, uri: Some(s.span), tag: None },
        ],
    }
}

/// The facet of a tag span.
pub open spec fn tag_facet(s: SpanView) -> FacetView {
    FacetView {
        index: IndexView { byte_start: s.start, byte_end: s.end },
        features: seq![
            FeatureView { feature_type: FeatureType::Tag, did: None, uri: None, tag: Some(s.span) },
        ],
    }
}

/// The facets of the mention spans that resolve against the account list,
/// in span order; unresolved mentions yield nothing.
pub open spec fn mention_facets(spans: Seq<SpanView>, users: Seq<UserView>) -> Seq<FacetView>
    decreases spans.len(),
{
    if spans.len() == 0 {
        Seq::empty()
    } else {
        let prev = mention_facets(spans.drop_last(), users);
        match resolve(users, spans.last().span) {
            Some(did) => prev.push(mention_facet(spans.last(), did)),
            None => prev,
        }
    }
}

/// The facets of the link spans, in span order.
pub open spec fn link_facets(spans: Seq<SpanView>) -> Seq<FacetView>
    decreases spans.len(),
{
    if spans.len() == 0 {
        Seq::empty()
    } else {
        link_facets(spans.drop_last()).push(link_facet(spans.last()))
    }
}

/// The facets of the tag spans, in span order.
pub open spec fn tag_facets(spans: Seq<SpanView>) -> Seq<FacetView>
    decreases spans.len(),
{
    if spans.len() == 0 {
        Seq::empty()
    } else {
        tag_facets(spans.drop_last()).push(tag_facet(spans.last()))
    }
}

/// All facets of a text against an account list: resolved mentions first,
/// then links, then tags, each family in scan order.
pub open spec fn facets_of(text: Seq<u8>, users: Seq<UserView>) -> Seq<FacetView> {
    mention_facets(scan_mentions(text, 0), users) + link_facets(scan_urls(text, 0)) + tag_facets(
        scan_tags(text, 0),
    )
}

/// Runs the three scans over the text and assembles the facet list:
/// mention spans resolved against the account list (unresolved ones
/// dropped), then link spans, then tag spans.
pub fn parse_facets_with_users(text: &Vec<u8>, users: &Vec<User>) -> (facets: Vec<Facet>)
    ensures
        seq_views(facets@) == facets_of(text@, seq_views(users@)),
{
    let ghost uviews = seq_views(users@);
    let mention_spans = parse_mentions(text);
    let url_spans = parse_urls(text);
    let tag_spans = parse_tags(text);
    let ghost mviews = seq_views(mention_spans@);
    let ghost lviews = seq_views(url_spans@);
    let ghost tviews = seq_views(tag_spans@);

    let mut facets: Vec<Facet> = Vec::new();
    let mut i: usize = 0;
    while i < mention_spans.len()
        invariant
            i <= mention_spans.len(),
            uviews == seq_views(users@),
            mviews == seq_views(mention_spans@),
            mviews.len() == mention_spans.len(),
            forall|j: int| 0 <= j < mviews.len() ==> mviews[j] == mention_spans@[j]@,
            seq_views(facets@) == mention_facets(mviews.take(i as int), uviews),
        decreases mention_spans.len() - i,
    {
        let span = &mention_spans[i];
        proof {
            assert(mviews.take(i + 1).drop_last() =~= mviews.take(i as int));
            assert(mviews.take(i + 1).last() == mviews[i as int]);
        }
        match resolve_handle(users, &span.span) {
            Some(did) => {
                let facet = Facet {
                    index: Index { byte_start: span.start, byte_end: span.end },
                    features: vec![
                        Feature {
                            feature_type: FeatureType::Mention,
                            did: Some(did),
                            uri: None,
                            tag: None,
                        },
                    ],
                };
                proof {
                    assert(facet@ =~= mention_facet(
                        mviews[i as int],
                        resolve(uviews, mviews[i as int].span).unwrap(),
                    ));
                }
                facets.push(facet);
            },
            None => {},
        }
        proof {
            assert(seq_views(facets@) =~= mention_facets(mviews.take(i + 1), uviews));
        }
        i = i + 1;
    }
    proof {
        assert(mviews.take(mention_spans.len() as int) =~= mviews);
        assert(mention_facets(mviews, uviews) + link_facets(lviews.take(0)) =~= mention_facets(
            mviews,
            uviews,
        ));
    }

    let mut i: usize = 0;
    while i < url_spans.len()
        invariant
            i <= url_spans.len(),
            uviews == seq_views(users@),
            mviews == seq_views(mention_spans@),
            lviews == seq_views(url_spans@),
            lviews.len() == url_spans.len(),
            forall|j: int| 0 <= j < lviews.len() ==> lviews[j] == url_spans@[j]@,
            seq_views(facets@) == mention_facets(mviews, uviews) + link_facets(
                lviews.take(i as int),
            ),
        decreases url_spans.len() - i,
    {
        let span = &url_spans[i];
        proof {
            assert(lviews.take(i + 1).drop_last() =~= lviews.take(i as int));
            assert(lviews.take(i + 1).last() == lviews[i as int]);
        }
        let facet = Facet {
            index: Index { byte_start: span.start, byte_end: span.end },
            features: vec![
                Feature {
                    feature_type: FeatureType::Link,
                    did: None,
                    uri: Some(clone_bytes(&span.span)),
                    tag: None,
                },
            ],
        };
        proof {
            assert(facet@ =~= link_facet(lviews[i as int]));
        }
        facets.push(facet);
        proof {
            assert(link_facets(lviews.take(i + 1)) == link_facets(lviews.take(i as int)).push(
                link_facet(lviews[i as int]),
            ));
            assert(seq_views(facets@) =~= (mention_facets(mviews, uviews) + link_facets(
                lviews.take(i as int),
            )).push(link_facet(lviews[i as int])));
            assert((mention_facets(mviews, uviews) + link_facets(lviews.take(i as int))).push(
                link_facet(lviews[i as int]),
            ) =~= mention_facets(mviews, uviews) + link_facets(lviews.take(i + 1)));
        }
        i = i + 1;
    }
    proof {
        assert(lviews.take(url_spans.len() as int) =~= lviews);
        assert(mention_facets(mviews, uviews) + link_facets(lviews) + tag_facets(tviews.take(0))
            =~= mention_facets(mviews, uviews) + link_facets(lviews));
    }

    let mut i: usize = 0;
    while i < tag_spans.len()
        invariant
            i <= tag_spans.len(),
            uviews == seq_views(users@),
            mviews == seq_views(mention_spans@),
            lviews == seq_views(url_spans@),
            tviews == seq_views(tag_spans@),
            tviews.len() == tag_spans.len(),
            forall|j: int| 0 <= j < tviews.len() ==> tviews[j] == tag_spans@[j]@,
            seq_views(facets@) == mention_facets(mviews, uviews) + link_facets(lviews) + tag_facets(
                tviews.take(i as int),
            ),
        decreases tag_spans.len() - i,
    {
        let span = &tag_spans[i];
        proof {
            assert(tviews.take(i + 1).drop_last() =~= tviews.take(i as int));
            assert(tviews.take(i + 1).last() == tviews[i as int]);
        }
        let facet = Facet {
            index: Index { byte_start: span.start, byte_end: span.end },
            features: vec![
                Feature {
                    feature_type: FeatureType::Tag,
                    did: None,
                    uri: None,
                    tag: Some(clone_bytes(&span.span)),
                },
            ],
        };
        proof {
            assert(facet@ =~= tag_facet(tviews[i as int]));
        }
        facets.push(facet);
        proof {
            assert(tag_facets(tviews.take(i + 1)) == tag_facets(tviews.take(i as int)).push(
                tag_facet(tviews[i as int]),
            ));
            assert(seq_views(facets@) =~= (mention_facets(mviews, uviews) + link_facets(lviews)
                + tag_facets(tviews.take(i as int))).push(tag_facet(tviews[i as int])));
            assert((mention_facets(mviews, uviews) + link_facets(lviews) + tag_facets(
                tviews.take(i as int),
            )).push(tag_facet(tviews[i as int])) =~= mention_facets(mviews, uviews) + link_facets(
                lviews,
            ) + tag_facets(tviews.take(i + 1)));
        }
        i = i + 1;
    }
    proof {
        assert(tviews.take(tag_spans.len() as int) =~= tviews);
        assert(seq_views(facets@) == facets_of(text@, seq_views(users@)));
    }
    facets
}

/// Every emitted mention facet comes from a mention span whose handle
/// resolves: an unresolved mention never appears in the output, however
/// well-formed its match.
pub proof fn lemma_mention_facets_resolved(spans: Seq<SpanView>, users: Seq<UserView>, j: int)
    requires
        0 <= j < mention_facets(spans, users).len(),
    ensures
        exists|k: int|
            0 <= k < spans.len() && resolve(users, spans[k].span) is Some && mention_facets(
                spans,
                users,
            )[j] == mention_facet(spans[k], resolve(users, spans[k].span).unwrap()),
    decreases spans.len(),
{
    let prev = mention_facets(spans.drop_last(), users);
    if j < prev.len() {
        lemma_mention_facets_resolved(spans.drop_last(), users, j);
        let k = choose|k: int|
            0 <= k < spans.drop_last().len() && resolve(users, spans.drop_last()[k].span) is Some
                && prev[j] == mention_facet(
                spans.drop_last()[k],
                resolve(users, spans.drop_last()[k].span).unwrap(),
            );
        assert(spans.drop_last()[k] == spans[k]);
        assert(mention_facets(spans, users)[j] == prev[j]);
    } else {
        let k = spans.len() - 1;
        assert(spans.last() == spans[k]);
    }
}

/// A text whose mention spans all fail to resolve yields no mention
/// facets at all.
pub proof fn lemma_unresolved_mentions_dropped(spans: Seq<SpanView>, users: Seq<UserView>)
    requires
        forall|k: int| 0 <= k < spans.len() ==> resolve(users, #[trigger] spans[k].span) is None,
    ensures
        mention_facets(spans, users) =~= Seq::<FacetView>::empty(),
    decreases spans.len(),
{
    if spans.len() > 0 {
        assert(spans.last() == spans[spans.len() - 1]);
        lemma_unresolved_mentions_dropped(spans.drop_last(), users);
    }
}

} // verus!
