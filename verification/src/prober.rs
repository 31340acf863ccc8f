//! Reading what the external prober prints: the indices of the audio
//! streams of a container, one per line, and its duration in seconds.

use vstd::prelude::*;
use crate::text::{
    all_digits, chars_of, decimal_value, digit_of, digit_value, index_of, is_digit,
    is_digit_char, lemma_index_of, parse_u32, read_number, spec_index_of, spec_parse_u32,
    spec_trim, trim_bounds,
};

verus! {

/// `line` without the carriage return at its end, if it has one.
pub open spec fn spec_strip_cr(line: Seq<char>) -> Seq<char> {
    if line.len() > 0 && line.last() == '\r' {
        line.drop_last()
    } else {
        line
    }
}

/// The first line of `text`: what stands in front of the first line
/// feed, without a carriage return that precedes it, or all of `text`
/// when it holds no line feed.
pub open spec fn spec_first_line(text: Seq<char>) -> Seq<char> {
    let feed = spec_index_of(text, '\n');
    if feed < text.len() {
        spec_strip_cr(text.take(feed))
    } else {
        text
    }
}

/// What follows the first line of `text`.
pub open spec fn spec_after_first_line(text: Seq<char>) -> Seq<char> {
    let feed = spec_index_of(text, '\n');
    if 0 <= feed < text.len() {
        text.skip(feed + 1)
    } else {
        Seq::empty()
    }
}

/// The lines of `text`. A line ends at a line feed or at a carriage
/// return directly followed by one; the last line need not be ended.
pub open spec fn spec_lines(text: Seq<char>) -> Seq<Seq<char>>
    decreases text.len(),
{
    if text.len() == 0 {
        Seq::empty()
    } else {
        seq![spec_first_line(text)] + spec_lines(spec_after_first_line(text))
    }
}

/// The numbers that stand on `lines`, one per line, in order. Lines that
/// hold anything but a number, white space around it aside, are passed
/// over.
pub open spec fn spec_numbers_on(lines: Seq<Seq<char>>) -> Seq<u32>
    decreases lines.len(),
{
    if lines.len() == 0 {
        Seq::empty()
    } else {
        match spec_parse_u32(spec_trim(lines[0])) {
            Some(number) => seq![number] + spec_numbers_on(lines.skip(1)),
            None => spec_numbers_on(lines.skip(1)),
        }
    }
}

/// The stream indices that the prober printed.
pub open spec fn spec_stream_indices(output: Seq<char>) -> Seq<u32> {
    spec_numbers_on(spec_lines(output))
}

/// The digits `fraction` read as a count of nanoseconds, the first of
/// them counting `weight` nanoseconds and each further one a tenth of
/// the one before it.
pub open spec fn spec_weighted_fraction(fraction: Seq<char>, weight: nat) -> nat
    decreases fraction.len(),
{
    if fraction.len() == 0 || weight == 0 {
        0
    } else {
        digit_value(fraction[0]) * weight + spec_weighted_fraction(fraction.skip(1), weight / 10)
    }
}

/// The decimals `fraction` of a number of seconds, in nanoseconds.
/// Decimals past the ninth do not count.
pub open spec fn spec_fraction_nanos(fraction: Seq<char>) -> nat {
    spec_weighted_fraction(fraction, 100_000_000)
}

/// The duration in nanoseconds that `text` spells in seconds: an
/// optional `+`, digits, and optionally a `.` and more digits, with at
/// least one digit in all. Digits past the ninth decimal are dropped.
/// Anything else, and any duration too long for the timeline, is no
/// duration.
pub open spec fn spec_parse_seconds(text: Seq<char>) -> Option<u64> {
    let body = if text.len() > 0 && text[0] == '+' {
        text.skip(1)
    } else {
        text
    };
    let dot = spec_index_of(body, '.');
    let whole = body.take(dot);
    let fraction = if dot < body.len() {
        body.skip(dot + 1)
    } else {
        Seq::empty()
    };
    if whole.len() + fraction.len() == 0 || !all_digits(whole) || !all_digits(fraction) {
        None
    } else {
        let nanos = decimal_value(whole) * 1_000_000_000 + spec_fraction_nanos(fraction);
        if nanos > u64::MAX {
            None
        } else {
            Some(nanos as u64)
        }
    }
}

/// The first duration that stands on one of `lines`, white space around
/// it aside.
pub open spec fn spec_first_duration(lines: Seq<Seq<char>>) -> Option<u64>
    decreases lines.len(),
{
    if lines.len() == 0 {
        None
    } else {
        match spec_parse_seconds(spec_trim(lines[0])) {
            Some(nanos) => Some(nanos),
            None => spec_first_duration(lines.skip(1)),
        }
    }
}

/// The duration that the prober printed, if it printed one.
pub open spec fn spec_media_duration(output: Seq<char>) -> Option<u64> {
    spec_first_duration(spec_lines(output))
}

/// A copy of `chars[from..to]`.
fn copy_range(chars: &Vec<char>, from: usize, to: usize) -> (part: Vec<char>)
    requires
        from <= to <= chars@.len(),
    ensures
        part@ == chars@.subrange(from as int, to as int),
{
    let mut part: Vec<char> = Vec::new();
    let mut i: usize = from;
    while i < to
        invariant
            from <= i <= to <= chars@.len(),
            part@ == chars@.subrange(from as int, i as int),
        decreases to - i,
    {
        part.push(chars[i]);
        i += 1;
    }
    part
}

/// The first line of `chars[from..]` and the position behind it.
fn take_line(chars: &Vec<char>, from: usize) -> (found: (Vec<char>, usize))
    requires
        from < chars@.len(),
    ensures
        found.0@ == spec_first_line(chars@.skip(from as int)),
        from < found.1 <= chars@.len(),
        chars@.skip(found.1 as int) == spec_after_first_line(chars@.skip(from as int)),
{
    let len: usize = chars.len();
    let ghost rest = chars@.skip(from as int);
    proof {
        assert(rest =~= chars@.subrange(from as int, len as int));
        lemma_index_of(rest, '\n');
    }
    let feed = index_of(chars, from, len, '\n');
    if feed < len {
        let end: usize = if feed > from && chars[feed - 1] == '\r' {
            feed - 1
        } else {
            feed
        };
        let line = copy_range(chars, from, end);
        proof {
            let raw = rest.take(feed - from);
            assert(raw =~= chars@.subrange(from as int, feed as int));
            if feed > from {
                assert(raw.last() == chars@[feed - 1]);
            }
            assert(line@ =~= spec_strip_cr(raw));
            assert(chars@.skip(feed + 1) =~= rest.skip(feed - from + 1));
        }
        (line, feed + 1)
    } else {
        let line = copy_range(chars, from, len);
        proof {
            assert(line@ =~= rest);
            assert(chars@.skip(len as int) =~= Seq::<char>::empty());
        }
        (line, len)
    }
}

/// Reads the indices of the audio streams from what the prober printed.
pub fn parse_stream_indices(output: &str) -> (indices: Vec<u32>)
    ensures
        indices@ == spec_stream_indices(output@),
{
    let chars = chars_of(output);
    let len: usize = chars.len();
    let mut indices: Vec<u32> = Vec::new();
    let mut pos: usize = 0;
    proof {
        assert(chars@.skip(0) =~= chars@);
    }
    while pos < len
        invariant
            pos <= len,
            len == chars@.len(),
            indices@ + spec_numbers_on(spec_lines(chars@.skip(pos as int))) == spec_numbers_on(
                spec_lines(chars@),
            ),
        decreases len - pos,
    {
        let ghost rest = chars@.skip(pos as int);
        let ghost before = indices@;
        let (line, next) = take_line(&chars, pos);
        let (start, end) = trim_bounds(&line);
        proof {
            let lines = spec_lines(rest);
            assert(lines[0] == line@);
            assert(lines.skip(1) =~= spec_lines(chars@.skip(next as int)));
        }
        match parse_u32(&line, start, end) {
            Some(number) => {
                indices.push(number);
                proof {
                    assert(indices@ + spec_numbers_on(spec_lines(chars@.skip(next as int)))
                        =~= before + spec_numbers_on(spec_lines(rest)));
                }
            },
            None => {},
        }
        pos = next;
    }
    proof {
        assert(chars@.skip(len as int) =~= Seq::<char>::empty());
        assert(indices@ + Seq::<u32>::empty() =~= indices@);
    }
    indices
}

/// Whether `chars[from..to]` holds nothing but digits.
fn only_digits(chars: &Vec<char>, from: usize, to: usize) -> (only: bool)
    requires
        from <= to <= chars@.len(),
    ensures
        only == all_digits(chars@.subrange(from as int, to as int)),
{
    let ghost part = chars@.subrange(from as int, to as int);
    let mut i: usize = from;
    while i < to
        invariant
            from <= i <= to <= chars@.len(),
            part == chars@.subrange(from as int, to as int),
            forall|k: int| 0 <= k < i - from ==> is_digit(#[trigger] part[k]),
        decreases to - i,
    {
        if !is_digit_char(chars[i]) {
            proof {
                assert(part[i - from] == chars@[i as int]);
            }
            return false;
        }
        proof {
            assert(part[i - from] == chars@[i as int]);
        }
        i += 1;
    }
    true
}

/// Reads the decimals `chars[from..to]` of a number of seconds as
/// nanoseconds, if they are all digits.
fn read_fraction(chars: &Vec<char>, from: usize, to: usize) -> (nanos: Option<u64>)
    requires
        from <= to <= chars@.len(),
    ensures
        nanos is Some <==> all_digits(chars@.subrange(from as int, to as int)),
        nanos matches Some(n) ==> n == spec_fraction_nanos(
            chars@.subrange(from as int, to as int),
        ) && n < 1_000_000_000,
{
    if !only_digits(chars, from, to) {
        return None;
    }
    let ghost fraction = chars@.subrange(from as int, to as int);
    let mut nanos: u64 = 0;
    let mut weight: u64 = 100_000_000;
    let mut i: usize = from;
    proof {
        assert(fraction.skip(0) =~= fraction);
    }
    while i < to && weight > 0
        invariant
            from <= i <= to <= chars@.len(),
            fraction == chars@.subrange(from as int, to as int),
            all_digits(fraction),
            weight <= 100_000_000,
            nanos + 10 * weight <= 1_000_000_000,
            nanos <= 999_999_999,
            nanos + spec_weighted_fraction(fraction.skip(i - from), weight as nat)
                == spec_fraction_nanos(fraction),
        decreases to - i,
    {
        let c = chars[i];
        proof {
            assert(fraction[i - from] == c);
            assert(fraction.skip(i - from)[0] == c);
            assert(fraction.skip(i - from).skip(1) =~= fraction.skip(i - from + 1));
        }
        let digit: u64 = digit_of(c) as u64;
        proof {
            assert(digit * weight <= 9 * weight) by (nonlinear_arith)
                requires
                    digit <= 9,
                    weight >= 0,
            ;
        }
        nanos = nanos + digit * weight;
        weight = weight / 10;
        i += 1;
    }
    proof {
        assert(spec_weighted_fraction(fraction.skip(i - from), weight as nat) == 0);
    }
    Some(nanos)
}

/// Reads `chars[from..to]` as a duration in seconds and gives it in
/// nanoseconds.
pub fn parse_seconds(chars: &Vec<char>, from: usize, to: usize) -> (nanos: Option<u64>)
    requires
        from <= to <= chars@.len(),
    ensures
        nanos == spec_parse_seconds(chars@.subrange(from as int, to as int)),
{
    let ghost text = chars@.subrange(from as int, to as int);
    let start: usize = if from < to && chars[from] == '+' {
        from + 1
    } else {
        from
    };
    let ghost body = chars@.subrange(start as int, to as int);
    proof {
        if from < to {
            assert(text[0] == chars@[from as int]);
        }
        if start > from {
            assert(text.skip(1) =~= body);
        } else {
            assert(text =~= body);
        }
        lemma_index_of(body, '.');
    }
    let dot = index_of(chars, start, to, '.');
    let frac_start: usize = if dot < to {
        dot + 1
    } else {
        to
    };
    proof {
        assert(body.take(dot - start) =~= chars@.subrange(start as int, dot as int));
        if dot < to {
            assert(body.skip(dot - start + 1) =~= chars@.subrange(frac_start as int, to as int));
        } else {
            assert(chars@.subrange(frac_start as int, to as int) =~= Seq::<char>::empty());
        }
    }
    if dot - start + (to - frac_start) == 0 {
        return None;
    }
    let fraction: u64 = match read_fraction(chars, frac_start, to) {
        Some(value) => value,
        None => {
            return None;
        },
    };
    match read_number(chars, start, dot, 18_446_744_073) {
        Some(whole) => {
            let total: u128 = (whole as u128) * 1_000_000_000 + (fraction as u128);
            if total > u64::MAX as u128 {
                None
            } else {
                Some(total as u64)
            }
        },
        None => None,
    }
}

/// Reads the duration of a container, in nanoseconds, from what the
/// prober printed: the first line that holds a duration counts.
pub fn parse_media_duration(output: &str) -> (duration: Option<u64>)
    ensures
        duration == spec_media_duration(output@),
{
    let chars = chars_of(output);
    let len: usize = chars.len();
    let mut pos: usize = 0;
    proof {
        assert(chars@.skip(0) =~= chars@);
    }
    while pos < len
        invariant
            pos <= len,
            len == chars@.len(),
            chars@ == output@,
            spec_first_duration(spec_lines(chars@.skip(pos as int))) == spec_first_duration(
                spec_lines(chars@),
            ),
        decreases len - pos,
    {
        let ghost rest = chars@.skip(pos as int);
        let (line, next) = take_line(&chars, pos);
        let (start, end) = trim_bounds(&line);
        proof {
            let lines = spec_lines(rest);
            assert(lines[0] == line@);
            assert(lines.skip(1) =~= spec_lines(chars@.skip(next as int)));
        }
        match parse_seconds(&line, start, end) {
            Some(nanos) => {
                proof {
                    assert(spec_first_duration(spec_lines(rest)) == Some(nanos));
                }
                return Some(nanos);
            },
            None => {},
        }
        pos = next;
    }
    proof {
        assert(chars@.skip(len as int) =~= Seq::<char>::empty());
    }
    None
}

} // verus!
