//! Spans of time, to the nanosecond.

use vstd::prelude::*;
use vstd::string::*;

use crate::double::{
    long_spans_are_printed_long, milliseconds_are_printed_faithfully, round_seconds,
    rounded_seconds,
};
use crate::number::{decimal, last_digits, push_decimal, push_last_digits};

verus! {

/// The nanoseconds in a second.
pub const NANOS_PER_SEC: u128 = 1_000_000_000;

/// A span of time. Its view is its length in nanoseconds.
#[derive(Debug, Clone, Copy, PartialEq, Eq)]
pub struct Duration {
    nanos: u128,
}

/// The longest span: `u64::MAX` seconds and all the nanoseconds below another.
pub open spec fn max_nanos() -> nat {
    (0x1_0000_0000_0000_0000 * 1_000_000_000 - 1) as nat
}

impl View for Duration {
    type V = nat;

    closed spec fn view(&self) -> nat {
        self.nanos as nat
    }
}

impl Duration {
    #[verifier::type_invariant]
    closed spec fn inv(self) -> bool {
        self.nanos <= max_nanos()
    }

    /// The span of so many seconds and nanoseconds.
    pub fn new(secs: u64, nanos: u32) -> (res: Self)
        requires
            nanos < 1_000_000_000,
        ensures
            res@ == secs * 1_000_000_000 + nanos,
    {
        Duration { nanos: secs as u128 * NANOS_PER_SEC + nanos as u128 }
    }

    /// The span of so many milliseconds.
    pub fn from_millis(millis: u64) -> (res: Self)
        ensures
            res@ == millis * 1_000_000,
    {
        Duration { nanos: millis as u128 * 1_000_000 }
    }

    /// No time at all.
    pub fn zero() -> (res: Self)
        ensures
            res@ == 0,
    {
        Duration { nanos: 0 }
    }

    /// The longest span. As a limit it is never exceeded.
    pub fn max() -> (res: Self)
        ensures
            res@ == max_nanos(),
    {
        Duration { nanos: 0x1_0000_0000_0000_0000 * NANOS_PER_SEC - 1 }
    }

    /// The whole seconds of the span.
    pub fn as_secs(self) -> (res: u64)
        ensures
            res == self@ / 1_000_000_000,
    {
        proof {
            use_type_invariant(&self);
        }
        (self.nanos / NANOS_PER_SEC) as u64
    }

    /// The nanoseconds beyond the whole seconds.
    pub fn subsec_nanos(self) -> (res: u32)
        ensures
            res == self@ % 1_000_000_000,
            res < 1_000_000_000,
    {
        (self.nanos % NANOS_PER_SEC) as u32
    }

    /// The whole milliseconds of the span.
    pub fn as_millis(self) -> (res: u128)
        ensures
            res == self@ / 1_000_000,
    {
        self.nanos / 1_000_000
    }

    /// The span without what it has beyond whole milliseconds.
    pub fn to_millis(self) -> (res: Self)
        ensures
            res@ == whole_millis(self@),
    {
        proof {
            use_type_invariant(&self);
        }
        Duration { nanos: self.nanos - self.nanos % 1_000_000 }
    }

    /// Whether the span is at least as long as `other`.
    pub fn reaches(self, other: Duration) -> (res: bool)
        ensures
            res == (self@ >= other@),
    {
        self.nanos >= other.nanos
    }

    /// The two spans one after the other, or the longest span if that is longer.
    pub fn plus(self, other: Duration) -> (res: Self)
        ensures
            res@ == (if self@ + other@ <= max_nanos() {
                self@ + other@
            } else {
                max_nanos()
            }),
    {
        proof {
            use_type_invariant(&self);
            use_type_invariant(&other);
        }
        let sum: u128 = self.nanos + other.nanos;
        if sum <= 0x1_0000_0000_0000_0000 * NANOS_PER_SEC - 1 {
            Duration { nanos: sum }
        } else {
            Duration::max()
        }
    }
}

/// A span without what it has beyond whole milliseconds.
pub open spec fn whole_millis(d: nat) -> nat {
    (d - d % 1_000_000) as nat
}

/// Whether a span is over a limit, at the granularity of milliseconds that
/// messages print.
pub open spec fn exceeds(spent: nat, limit: nat) -> bool {
    spent / 1_000_000 > limit / 1_000_000
}

/// Whether a span is over a limit. Anything stricter than whole milliseconds
/// would let a message say "0.500s > 0.500s".
pub fn over(spent: Duration, limit: Duration) -> (res: bool)
    ensures
        res == exceeds(spent@, limit@),
{
    spent.as_millis() > limit.as_millis()
}

/// No span is over the longest one, so that as a limit it disables the check.
pub proof fn longest_limit_is_never_exceeded(spent: nat)
    requires
        spent <= max_nanos(),
    ensures
        !exceeds(spent, max_nanos()),
{
}

/// What is over a limit is longer than it.
pub proof fn exceeding_is_longer(spent: nat, limit: nat)
    requires
        exceeds(spent, limit),
    ensures
        spent > limit,
{
}

/// A span in seconds with `places` decimals, `unit` being 10 to that power.
pub open spec fn seconds_text(d: nat, unit: nat, places: nat) -> Seq<char> {
    let n = rounded_seconds(d / 1_000_000_000, d % 1_000_000_000, unit);
    decimal(n / unit) + "."@ + last_digits(n, places)
}

fn push_fixed(out: &mut String, d: Duration, unit: u64, places: u32)
    requires
        0 < unit <= 1000,
    ensures
        final(out)@ == old(out)@ + seconds_text(d@, unit as nat, places as nat),
{
    let ghost before = out@;
    let n = round_seconds(d.as_secs(), d.subsec_nanos(), unit);
    push_decimal(out, n / unit as u128);
    out.append(".");
    push_last_digits(out, n, places);
    assert(out@ =~= before + seconds_text(d@, unit as nat, places as nat));
}

/// A span in seconds with one decimal.
pub open spec fn tenths_text(d: nat) -> Seq<char> {
    seconds_text(d, 10, 1)
}

/// A span in seconds with two decimals.
pub open spec fn hundredths_text(d: nat) -> Seq<char> {
    seconds_text(d, 100, 2)
}

/// A span in seconds with three decimals.
pub open spec fn thousandths_text(d: nat) -> Seq<char> {
    seconds_text(d, 1000, 3)
}

/// Appends a span in seconds with one decimal.
pub fn push_tenths(out: &mut String, d: Duration)
    ensures
        final(out)@ == old(out)@ + tenths_text(d@),
{
    push_fixed(out, d, 10, 1);
}

/// Appends a span in seconds with two decimals.
pub fn push_hundredths(out: &mut String, d: Duration)
    ensures
        final(out)@ == old(out)@ + hundredths_text(d@),
{
    push_fixed(out, d, 100, 2);
}

/// Appends a span in seconds with three decimals.
pub fn push_thousandths(out: &mut String, d: Duration)
    ensures
        final(out)@ == old(out)@ + thousandths_text(d@),
{
    push_fixed(out, d, 1000, 3);
}

/// The number of milliseconds that `thousandths_text` shows.
pub open spec fn shown_millis(d: nat) -> nat {
    rounded_seconds(d / 1_000_000_000, d % 1_000_000_000, 1000)
}

/// When a span is over a limit, the two numbers a message prints say so too, the
/// limit being printed in the whole milliseconds that it is judged by: "spent >
/// limit" is literally true. (A limit of 2 to the 43rd seconds or more cannot be
/// told from its neighbours in print.)
pub proof fn printed_comparison_is_true(spent: nat, limit: nat)
    requires
        exceeds(spent, limit),
        spent <= max_nanos(),
        limit < 0x800_0000_0000 * 1_000_000_000,
    ensures
        shown_millis(spent) > shown_millis(whole_millis(limit)),
{
    let k = limit / 1_000_000;
    let shown = whole_millis(limit);
    assert(shown == k * 1_000_000);
    milliseconds_are_printed_faithfully(
        shown / 1_000_000_000,
        shown % 1_000_000_000,
        k,
    );
    if spent / 1_000_000_000 < 0x800_0000_0000 {
        milliseconds_are_printed_faithfully(
            spent / 1_000_000_000,
            spent % 1_000_000_000,
            k + 1,
        );
    } else {
        long_spans_are_printed_long(spent / 1_000_000_000, spent % 1_000_000_000);
    }
}

} // verus!
