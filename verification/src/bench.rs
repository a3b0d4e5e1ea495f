//! Pass timing: a small stopwatch value and the text of its report lines.
//! The caller supplies clock readings in milliseconds; printing the line and
//! prefixing it with the wall-clock time stay with the runtime.

use vstd::prelude::*;
use crate::util::{append_bytes, clone_bytes, opt_view};

verus! {

/// The decimal digits of `n`, most significant first.
pub open spec fn dec_digits(n: nat) -> Seq<u8>
    decreases n,
{
    if n < 10 {
        seq![(0x30 + n) as u8]
    } else {
        dec_digits(n / 10).push((0x30 + n % 10) as u8)
    }
}

/// Renders a number in decimal.
fn u64_to_dec(n: u64) -> (r: Vec<u8>)
    ensures
        r@ == dec_digits(n as nat),
    decreases n,
{
    if n < 10 {
        let mut r: Vec<u8> = Vec::new();
        r.push(0x30 + (n as u8));
        proof {
            assert(r@ =~= dec_digits(n as nat));
        }
        r
    } else {
        let mut r = u64_to_dec(n / 10);
        r.push(0x30 + ((n % 10) as u8));
        proof {
            assert(r@ =~= dec_digits(n as nat));
        }
        r
    }
}

/// One segment of a duration report: the count followed by its unit, or
/// nothing when the count is zero.
pub open spec fn unit_seg(n: nat, unit: Seq<u8>) -> Seq<u8> {
    if n > 0 {
        dec_digits(n) + unit
    } else {
        Seq::empty()
    }
}

/// The text of a duration: the nonzero hour, minute, second and
/// millisecond segments in that order, each with a trailing space, or
/// `0ms` when all are zero.
pub open spec fn duration_text(total_seconds: nat, subsec_millis: nat) -> Seq<u8> {
    let text = unit_seg((total_seconds / 3600) as nat, seq![0x68u8, 0x20u8]) + unit_seg(
        ((total_seconds % 3600) / 60) as nat,
        seq![0x6du8, 0x20u8],
    ) + unit_seg((total_seconds % 60) as nat, seq![0x73u8, 0x20u8]) + unit_seg(
        subsec_millis,
        seq![0x6du8, 0x73u8, 0x20u8],
    );
    if text.len() == 0 {
        seq![0x30u8, 0x6du8, 0x73u8]
    } else {
        text
    }
}

/// `s` without its trailing space, when it has one.
pub open spec fn trim_trailing_space(s: Seq<u8>) -> Seq<u8> {
    if s.len() > 0 && s.last() == 0x20 {
        s.drop_last()
    } else {
        s
    }
}

/// Renders a duration as its nonzero hour, minute, second and millisecond
/// counts, as `duration_text` describes it.
pub fn get_time_from_duration(total_seconds: u64, subsec_millis: u32) -> (r: Vec<u8>)
    ensures
        r@ == duration_text(total_seconds as nat, subsec_millis as nat),
{
    let hours = total_seconds / 3600;
    let minutes = (total_seconds % 3600) / 60;
    let seconds = total_seconds % 60;

    let mut time: Vec<u8> = Vec::new();
    if hours > 0 {
        let d = u64_to_dec(hours);
        append_bytes(&mut time, &d);
        time.push(0x68);
        time.push(0x20);
    }
    proof {
        assert(time@ =~= unit_seg((total_seconds as nat / 3600) as nat, seq![0x68u8, 0x20u8]));
    }
    let ghost part_h = time@;
    if minutes > 0 {
        let d = u64_to_dec(minutes);
        append_bytes(&mut time, &d);
        time.push(0x6d);
        time.push(0x20);
    }
    proof {
        assert(time@ =~= part_h + unit_seg(
            ((total_seconds as nat % 3600) / 60) as nat,
            seq![0x6du8, 0x20u8],
        ));
    }
    let ghost part_m = time@;
    if seconds > 0 {
        let d = u64_to_dec(seconds);
        append_bytes(&mut time, &d);
        time.push(0x73);
        time.push(0x20);
    }
    proof {
        assert(time@ =~= part_m + unit_seg((total_seconds as nat % 60) as nat, seq![0x73u8, 0x20u8]));
    }
    let ghost part_s = time@;
    if subsec_millis > 0 {
        let d = u64_to_dec(subsec_millis as u64);
        append_bytes(&mut time, &d);
        time.push(0x6d);
        time.push(0x73);
        time.push(0x20);
    }
    proof {
        assert(time@ =~= part_s + unit_seg(subsec_millis as nat, seq![0x6du8, 0x73u8, 0x20u8]));
    }
    if time.len() == 0 {
        time.push(0x30);
        time.push(0x6d);
        time.push(0x73);
        proof {
            assert(time@ =~= duration_text(total_seconds as nat, subsec_millis as nat));
        }
    }
    time
}

/// The text shown for an unnamed task.
pub open spec fn unnamed_task_text() -> Seq<u8> {
    seq![0x55u8, 0x6eu8, 0x6eu8, 0x61u8, 0x6du8, 0x65u8, 0x64u8, 0x20u8, 0x54u8, 0x61u8, 0x73u8, 0x6bu8]
}

/// The infix of a completion report, ` is complete (`.
pub open spec fn complete_infix() -> Seq<u8> {
    seq![
        0x20u8, 0x69u8, 0x73u8, 0x20u8, 0x63u8, 0x6fu8, 0x6du8, 0x70u8, 0x6cu8, 0x65u8, 0x74u8,
        0x65u8, 0x20u8, 0x28u8,
    ]
}

/// The completion report of a task: its name (or the unnamed-task text),
/// ` is complete (`, the trimmed duration, and a closing parenthesis.
pub open spec fn bench_end_line(message: Option<Seq<u8>>, secs: nat, millis: nat) -> Seq<u8> {
    (match message {
        Some(m) => m,
        None => unnamed_task_text(),
    }) + complete_infix() + trim_trailing_space(duration_text(secs, millis)) + seq![0x29u8]
}

/// The progress report of a task: the given text, then the trimmed
/// duration in parentheses.
pub open spec fn bench_end_with_line(message: Seq<u8>, secs: nat, millis: nat) -> Seq<u8> {
    message + seq![0x20u8, 0x28u8] + trim_trailing_space(duration_text(secs, millis)) + seq![0x29u8]
}

/// A started stopwatch: an optional task name and the clock reading at the
/// start, in milliseconds.
#[derive(Debug)]
pub struct Bench {
    pub message: Option<Vec<u8>>,
    pub start_ms: u64,
}

/// Renders a duration since `start_ms`, trimmed of its trailing space.
fn trimmed_elapsed(start_ms: u64, now_ms: u64) -> (r: Vec<u8>)
    requires
        start_ms <= now_ms,
    ensures
        r@ == trim_trailing_space(
            duration_text(((now_ms - start_ms) / 1000) as nat, ((now_ms - start_ms) % 1000) as nat),
        ),
{
    let elapsed = now_ms - start_ms;
    let mut time = get_time_from_duration(elapsed / 1000, (elapsed % 1000) as u32);
    if time.len() > 0 && time[time.len() - 1] == 0x20 {
        let _ = time.pop();
        proof {
            assert(time@ =~= trim_trailing_space(
                duration_text((elapsed / 1000) as nat, (elapsed % 1000) as nat),
            ));
        }
    }
    time
}

impl Bench {
    /// Starts a stopwatch without a task name.
    pub fn start_silent(now_ms: u64) -> (b: Bench)
        ensures
            b.message is None,
            b.start_ms == now_ms,
    {
        Bench { message: None, start_ms: now_ms }
    }

    /// Starts a stopwatch for the named task.
    pub fn start(message: Vec<u8>, now_ms: u64) -> (b: Bench)
        ensures
            b.message matches Some(m) && m@ == message@,
            b.start_ms == now_ms,
    {
        Bench { message: Some(message), start_ms: now_ms }
    }

    /// The completion report at the given clock reading.
    pub fn end(&self, now_ms: u64) -> (line: Vec<u8>)
        requires
            self.start_ms <= now_ms,
        ensures
            line@ == bench_end_line(
                opt_view(self.message),
                ((now_ms - self.start_ms) / 1000) as nat,
                ((now_ms - self.start_ms) % 1000) as nat,
            ),
    {
        let mut line: Vec<u8> = match &self.message {
            Some(m) => clone_bytes(m),
            None => {
                let mut u: Vec<u8> = Vec::new();
                u.push(0x55);
                u.push(0x6e);
                u.push(0x6e);
                u.push(0x61);
                u.push(0x6d);
                u.push(0x65);
                u.push(0x64);
                u.push(0x20);
                u.push(0x54);
                u.push(0x61);
                u.push(0x73);
                u.push(0x6b);
                proof {
                    assert(u@ =~= unnamed_task_text());
                }
                u
            },
        };
        line.push(0x20);
        line.push(0x69);
        line.push(0x73);
        line.push(0x20);
        line.push(0x63);
        line.push(0x6f);
        line.push(0x6d);
        line.push(0x70);
        line.push(0x6c);
        line.push(0x65);
        line.push(0x74);
        line.push(0x65);
        line.push(0x20);
        line.push(0x28);
        let time = trimmed_elapsed(self.start_ms, now_ms);
        append_bytes(&mut line, &time);
        line.push(0x29);
        proof {
            assert(line@ =~= bench_end_line(
                opt_view(self.message),
                ((now_ms - self.start_ms) / 1000) as nat,
                ((now_ms - self.start_ms) % 1000) as nat,
            ));
        }
        line
    }

    /// The progress report with the given text at the given clock reading.
    pub fn end_with(&self, message: &Vec<u8>, now_ms: u64) -> (line: Vec<u8>)
        requires
            self.start_ms <= now_ms,
        ensures
            line@ == bench_end_with_line(
                message@,
                ((now_ms - self.start_ms) / 1000) as nat,
                ((now_ms - self.start_ms) % 1000) as nat,
            ),
    {
        let mut line = clone_bytes(message);
        line.push(0x20);
        line.push(0x28);
        let time = trimmed_elapsed(self.start_ms, now_ms);
        append_bytes(&mut line, &time);
        line.push(0x29);
        proof {
            assert(line@ =~= bench_end_with_line(
                message@,
                ((now_ms - self.start_ms) / 1000) as nat,
                ((now_ms - self.start_ms) % 1000) as nat,
            ));
        }
        line
    }
}

} // verus!
