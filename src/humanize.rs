//! Human-readable rendering of durations, byte counts and item counts.
use vstd::prelude::*;

use crate::text::{
    chars_of, dec_digits, decimal, group3, group_thousands, push_chars, push_str_chars,
};

verus! {

pub const NANOS_PER_SEC: u64 = 1_000_000_000;

/// A span of time as whole seconds and a sub-second part in nanoseconds.
#[derive(Clone, Copy, Debug)]
pub struct Duration {
    pub secs: u64,
    pub nanos: u32,
}

impl Duration {
    /// The span in nanoseconds.
    pub open spec fn total_nanos(&self) -> nat {
        self.secs as nat * 1_000_000_000 + self.nanos as nat
    }

    /// A span of whole seconds.
    pub fn from_secs(secs: u64) -> (r: Duration)
        ensures
            r.secs == secs,
            r.nanos == 0,
    {
        Duration { secs, nanos: 0 }
    }

    /// A span of milliseconds.
    pub fn from_millis(ms: u64) -> (r: Duration)
        ensures
            r.nanos < NANOS_PER_SEC,
            r.total_nanos() == ms as nat * 1_000_000,
    {
        Duration { secs: ms / 1000, nanos: ((ms % 1000) * 1_000_000) as u32 }
    }

    /// A span of `secs` seconds and `nanos` nanoseconds; whole seconds held in
    /// `nanos` are carried into the seconds.
    pub fn new(secs: u64, nanos: u32) -> (r: Duration)
        requires
            secs + nanos / 1_000_000_000 <= u64::MAX,
        ensures
            r.nanos < NANOS_PER_SEC,
            r.total_nanos() == secs as nat * 1_000_000_000 + nanos as nat,
    {
        let carry: u64 = (nanos / 1_000_000_000u32) as u64;
        Duration { secs: secs + carry, nanos: nanos % 1_000_000_000u32 }
    }

    pub fn as_secs(&self) -> (r: u64)
        ensures
            r == self.secs,
    {
        self.secs
    }

    pub fn subsec_nanos(&self) -> (r: u32)
        ensures
            r == self.nanos,
    {
        self.nanos
    }
}

/// Wraps a duration for fixed-field clock formatting.
#[derive(Debug)]
pub struct FormattedDuration(pub Duration);

/// Wraps a duration for rounded, human-oriented formatting.
#[derive(Debug)]
pub struct HumanDuration(pub Duration);

/// A byte count, rendered with binary prefixes.
#[derive(Debug)]
pub struct HumanBytes(pub u64);

/// A byte count, rendered with SI prefixes.
#[derive(Debug)]
pub struct DecimalBytes(pub u64);

/// A byte count, rendered with ISO/IEC prefixes.
#[derive(Debug)]
pub struct BinaryBytes(pub u64);

/// An item count, rendered with thousands separators.
#[derive(Debug)]
pub struct HumanCount(pub u64);

/// A value below one hundred as two digits, zero-padded.
pub open spec fn pad2(n: nat) -> Seq<char> {
    if n < 10 {
        seq!['0'] + dec_digits(n)
    } else {
        dec_digits(n)
    }
}

/// `D`d HH:MM:SS when the span reaches a day, HH:MM:SS otherwise.
pub open spec fn clock_text(secs: nat) -> Seq<char> {
    let seconds = secs % 60;
    let minutes = (secs / 60) % 60;
    let hours = (secs / 60 / 60) % 24;
    let days = secs / 60 / 60 / 24;
    let hms = pad2(hours) + seq![':'] + pad2(minutes) + seq![':'] + pad2(seconds);
    if days > 0 {
        dec_digits(days) + seq!['d', ' '] + hms
    } else {
        hms
    }
}

/// Number of units of the human-rounded format: year, week, day, hour, minute, second.
pub const UNIT_COUNT: usize = 6;

/// The length in nanoseconds of unit `i`, coarsest first.
pub open spec fn unit_nanos(i: nat) -> nat {
    if i == 0 {
        365 * 86400 * 1_000_000_000
    } else if i == 1 {
        7 * 86400 * 1_000_000_000
    } else if i == 2 {
        86400 * 1_000_000_000
    } else if i == 3 {
        3600 * 1_000_000_000
    } else if i == 4 {
        60 * 1_000_000_000
    } else {
        1_000_000_000
    }
}

pub open spec fn unit_name(i: nat) -> Seq<char> {
    if i == 0 {
        "year"@
    } else if i == 1 {
        "week"@
    } else if i == 2 {
        "day"@
    } else if i == 3 {
        "hour"@
    } else if i == 4 {
        "minute"@
    } else {
        "second"@
    }
}

pub open spec fn unit_abbrev(i: nat) -> char {
    if i == 0 {
        'y'
    } else if i == 1 {
        'w'
    } else if i == 2 {
        'd'
    } else if i == 3 {
        'h'
    } else if i == 4 {
        'm'
    } else {
        's'
    }
}

/// The unit chosen for a span of `d` nanoseconds, scanning from unit `i` down:
/// unit `u` is kept as soon as `d + v/2 >= u + u/2` for the next finer unit `v`.
pub open spec fn chosen_unit_from(d: nat, i: nat) -> nat
    decreases 5 - i,
{
    if i >= 5 {
        5
    } else if d + unit_nanos(i + 1) / 2 >= unit_nanos(i) + unit_nanos(i) / 2 {
        i
    } else {
        chosen_unit_from(d, i + 1)
    }
}

pub open spec fn chosen_unit(d: nat) -> nat {
    chosen_unit_from(d, 0)
}

/// `d / u` rounded to the nearest integer, halves away from zero.
pub open spec fn round_div(d: nat, u: nat) -> nat
    recommends
        u > 0,
{
    ((2 * d + u) / (2 * u)) as nat
}

/// The count shown for a span of `d` nanoseconds: at least two for every
/// unit but seconds.
pub open spec fn human_count(d: nat) -> nat {
    let i = chosen_unit(d);
    let t = round_div(d, unit_nanos(i));
    if i < 5 && t < 2 {
        2
    } else {
        t
    }
}

/// `<count> <unit>`, with the unit in the plural unless the count is one.
pub open spec fn human_text(d: nat) -> Seq<char> {
    let t = human_count(d);
    let plural: Seq<char> = if t == 1 {
        seq![]
    } else {
        seq!['s']
    };
    dec_digits(t) + seq![' '] + unit_name(chosen_unit(d)) + plural
}

/// `<count><unit abbreviation>`.
pub open spec fn human_compact_text(d: nat) -> Seq<char> {
    dec_digits(human_count(d)).push(unit_abbrev(chosen_unit(d)))
}

/// The text of an integer-part and fractional-part rendering: the integer part
/// grouped by thousands, the fractional part without trailing zeros, and the
/// decimal point only when a fractional digit remains.
pub open spec fn float_count_text(s: Seq<char>) -> Seq<char> {
    let p = dot_index(s, 0);
    let int_part = s.subrange(0, p);
    let frac_part = if p < s.len() {
        s.subrange(p + 1, s.len() as int)
    } else {
        Seq::<char>::empty()
    };
    let trimmed = trim_zeros(frac_part);
    if trimmed.len() > 0 {
        group3(int_part) + seq!['.'] + trimmed
    } else {
        group3(int_part)
    }
}

/// The index of the first `.` in `s` at or after `i`, or `s.len()` if none.
pub open spec fn dot_index(s: Seq<char>, i: int) -> int
    decreases s.len() - i,
{
    if i >= s.len() || i < 0 {
        s.len() as int
    } else if s[i] == '.' {
        i
    } else {
        dot_index(s, i + 1)
    }
}

/// `s` without its trailing `0` characters.
pub open spec fn trim_zeros(s: Seq<char>) -> Seq<char>
    decreases s.len(),
{
    if s.len() > 0 && s.last() == '0' {
        trim_zeros(s.drop_last())
    } else {
        s
    }
}

fn push_pad2(out: &mut String, n: u64)
    requires
        n < 100,
    ensures
        final(out)@ == old(out)@ + pad2(n as nat),
{
    if n < 10 {
        out.push('0');
    }
    let d = decimal(n as u128);
    push_chars(out, &d);
    proof {
        if n < 10 {
            assert(old(out)@.push('0') + d@ =~= old(out)@ + (seq!['0'] + d@));
        }
    }
}

impl FormattedDuration {
    /// The whole seconds of the span as `D`d HH:MM:SS, or HH:MM:SS when under a day.
    pub fn to_string(&self) -> (r: String)
        ensures
            r@ == clock_text(self.0.secs as nat),
    {
        let mut t = self.0.secs;
        let seconds = t % 60;
        t = t / 60;
        let minutes = t % 60;
        t = t / 60;
        let hours = t % 24;
        t = t / 24;
        let mut out = String::new();
        if t > 0 {
            let d = decimal(t as u128);
            push_chars(&mut out, &d);
            out.push('d');
            out.push(' ');
        }
        let ghost head = out@;
        push_pad2(&mut out, hours);
        out.push(':');
        push_pad2(&mut out, minutes);
        out.push(':');
        push_pad2(&mut out, seconds);
        proof {
            let s = self.0.secs as nat;
            let hms = pad2(hours as nat) + seq![':'] + pad2(minutes as nat) + seq![':'] + pad2(
                seconds as nat,
            );
            assert(out@ =~= head + hms);
            if t > 0 {
                assert(head =~= dec_digits(t as nat) + seq!['d', ' ']);
                assert(out@ =~= dec_digits(t as nat) + seq!['d', ' '] + hms);
            } else {
                assert(out@ =~= hms);
            }
        }
        out
    }
}

fn unit_nanos_of(i: usize) -> (r: u128)
    requires
        i < UNIT_COUNT,
    ensures
        r == unit_nanos(i as nat),
        r >= 1_000_000_000,
{
    if i == 0 {
        365 * 86400 * 1_000_000_000
    } else if i == 1 {
        7 * 86400 * 1_000_000_000
    } else if i == 2 {
        86400 * 1_000_000_000
    } else if i == 3 {
        3600 * 1_000_000_000
    } else if i == 4 {
        60 * 1_000_000_000
    } else {
        1_000_000_000
    }
}

fn unit_name_of(i: usize) -> (r: &'static str)
    requires
        i < UNIT_COUNT,
    ensures
        r@ == unit_name(i as nat),
{
    if i == 0 {
        "year"
    } else if i == 1 {
        "week"
    } else if i == 2 {
        "day"
    } else if i == 3 {
        "hour"
    } else if i == 4 {
        "minute"
    } else {
        "second"
    }
}

fn unit_abbrev_of(i: usize) -> (r: char)
    requires
        i < UNIT_COUNT,
    ensures
        r == unit_abbrev(i as nat),
{
    if i == 0 {
        'y'
    } else if i == 1 {
        'w'
    } else if i == 2 {
        'd'
    } else if i == 3 {
        'h'
    } else if i == 4 {
        'm'
    } else {
        's'
    }
}

impl HumanDuration {
    /// The span in nanoseconds, exactly.
    fn nanos(&self) -> (r: u128)
        ensures
            r == self.0.total_nanos(),
    {
        self.0.secs as u128 * 1_000_000_000 + self.0.nanos as u128
    }

    /// The unit index chosen for the span.
    fn unit_index(&self) -> (r: usize)
        ensures
            r < UNIT_COUNT,
            r == chosen_unit(self.0.total_nanos()),
    {
        let d = self.nanos();
        let mut i: usize = 0;
        while i < 5
            invariant
                i <= 5,
                d == self.0.total_nanos(),
                chosen_unit_from(d as nat, 0) == chosen_unit_from(d as nat, i as nat),
            decreases 5 - i,
        {
            let cur = unit_nanos_of(i);
            let next = unit_nanos_of(i + 1);
            if d + next / 2 >= cur + cur / 2 {
                return i;
            }
            i += 1;
        }
        i
    }

    /// The count shown, with the index of its unit.
    fn count(&self) -> (r: (u128, usize))
        ensures
            r.1 == chosen_unit(self.0.total_nanos()),
            r.1 < UNIT_COUNT,
            r.0 == human_count(self.0.total_nanos()),
    {
        let d = self.nanos();
        let i = self.unit_index();
        let u = unit_nanos_of(i);
        let mut t: u128 = (2 * d + u) / (2 * u);
        if i < 5 && t < 2 {
            t = 2;
        }
        (t, i)
    }

    /// `<count> <unit>` or `<count> <unit>s`, e.g. `89 seconds`, `2 minutes`, `1 second`.
    pub fn to_string(&self) -> (r: String)
        ensures
            r@ == human_text(self.0.total_nanos()),
    {
        let (t, i) = self.count();
        let mut out = String::new();
        let digits = decimal(t);
        push_chars(&mut out, &digits);
        out.push(' ');
        push_str_chars(&mut out, unit_name_of(i));
        if t != 1 {
            out.push('s');
        }
        proof {
            let d = self.0.total_nanos();
            let plural: Seq<char> = if t == 1 {
                seq![]
            } else {
                seq!['s']
            };
            assert(out@ =~= human_text(d));
        }
        out
    }

    /// `<count><unit abbreviation>`, e.g. `89s`, `2m`.
    pub fn to_compact_string(&self) -> (r: String)
        ensures
            r@ == human_compact_text(self.0.total_nanos()),
    {
        let (t, i) = self.count();
        let mut out = String::new();
        let digits = decimal(t);
        push_chars(&mut out, &digits);
        out.push(unit_abbrev_of(i));
        proof {
            assert(out@ =~= human_compact_text(self.0.total_nanos()));
        }
        out
    }
}

impl HumanCount {
    /// The decimal digits of the count, grouped by thousands with commas.
    pub fn to_string(&self) -> (r: String)
        ensures
            r@ == group3(dec_digits(self.0 as nat)),
    {
        let digits = decimal(self.0 as u128);
        let grouped = group_thousands(&digits);
        let mut out = String::new();
        push_chars(&mut out, &grouped);
        out
    }
}

/// Groups the integer part of a decimal rendering by thousands and drops the
/// trailing zeros of its fractional part, with the point itself when no
/// fractional digit is left: `1234.5000` gives `1,234.5`, `1000.0000` gives `1,000`.
pub fn group_decimal_text(s: &str) -> (r: String)
    ensures
        r@ == float_count_text(s@),
{
    let cs = chars_of(s);
    let n = cs.len();
    let mut p: usize = 0;
    while p < n && cs[p] != '.'
        invariant
            n == cs@.len(),
            cs@ == s@,
            p <= n,
            dot_index(s@, 0) == dot_index(s@, p as int),
        decreases n - p,
    {
        p += 1;
    }
    let mut int_part: Vec<char> = Vec::new();
    let mut i: usize = 0;
    while i < p
        invariant
            p <= n == cs@.len(),
            i <= p,
            int_part@ == cs@.subrange(0, i as int),
        decreases p - i,
    {
        int_part.push(cs[i]);
        proof {
            assert(cs@.subrange(0, i + 1) =~= cs@.subrange(0, i as int).push(cs@[i as int]));
        }
        i += 1;
    }
    let frac_start: usize = if p < n {
        p + 1
    } else {
        n
    };
    let mut end: usize = n;
    while end > frac_start && cs[end - 1] == '0'
        invariant
            frac_start <= end <= n == cs@.len(),
            trim_zeros(cs@.subrange(frac_start as int, n as int)) == trim_zeros(
                cs@.subrange(frac_start as int, end as int),
            ),
        decreases end,
    {
        proof {
            let a = cs@.subrange(frac_start as int, end as int);
            assert(a.drop_last() =~= cs@.subrange(frac_start as int, end - 1));
        }
        end -= 1;
    }
    proof {
        let a = cs@.subrange(frac_start as int, end as int);
        assert(trim_zeros(a) == a);
        if p < n {
            assert(cs@.subrange(p + 1, n as int) == cs@.subrange(frac_start as int, n as int));
        } else {
            assert(cs@.subrange(frac_start as int, n as int) =~= Seq::<char>::empty());
        }
    }
    let grouped = group_thousands(&int_part);
    let mut out = String::new();
    push_chars(&mut out, &grouped);
    if end > frac_start {
        out.push('.');
        let mut j: usize = frac_start;
        while j < end
            invariant
                frac_start <= j <= end <= n == cs@.len(),
                out@ == group3(int_part@) + seq!['.'] + cs@.subrange(frac_start as int, j as int),
            decreases end - j,
        {
            out.push(cs[j]);
            proof {
                assert(cs@.subrange(frac_start as int, j + 1) =~= cs@.subrange(
                    frac_start as int,
                    j as int,
                ).push(cs@[j as int]));
            }
            j += 1;
        }
    }
    proof {
        assert(cs@.subrange(0, p as int) == s@.subrange(0, dot_index(s@, 0)));
    }
    out
}

} // verus!
