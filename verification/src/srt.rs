//! Time stamps and entries of the subtitle-style transcript document.

use vstd::prelude::*;
use vstd::string::StringExecFns;
use crate::timeline::{NANOS_PER_MILLI, NANOS_PER_SECOND};
use crate::text::{
    chars_of, push_chars, push_decimal, push_padded, spec_decimal, spec_padded, spec_trim,
    spec_unify_newlines, trim_bounds, unify_newlines,
};

verus! {

/// Span given to an entry whose end does not lie after its start: half a
/// second.
pub const MIN_ENTRY_SPAN: u64 = 500_000_000;

/// Shortest duration ever estimated for a transcript: five seconds.
pub const MIN_ESTIMATED_DURATION: u64 = 5_000_000_000;

/// Characters of transcript assumed to be spoken per second.
pub const CHARS_PER_SECOND: u64 = 15;

/// `nanos` in whole milliseconds, rounded to the nearest, halves up.
pub open spec fn spec_round_millis(nanos: nat) -> nat {
    (nanos + 500_000) / 1_000_000
}

/// `nanos` in whole milliseconds, rounded to the nearest, halves up.
pub fn round_millis(nanos: u64) -> (millis: u64)
    ensures
        millis == spec_round_millis(nanos as nat),
{
    if nanos % NANOS_PER_MILLI >= NANOS_PER_MILLI / 2 {
        nanos / NANOS_PER_MILLI + 1
    } else {
        nanos / NANOS_PER_MILLI
    }
}

/// The time stamp `HH:MM:SS,mmm` of an instant given in milliseconds.
/// Hours take more than two digits when they need them.
pub open spec fn spec_srt_stamp(total_ms: nat) -> Seq<char> {
    spec_padded(total_ms / 3_600_000, 2) + ":"@ + spec_padded((total_ms % 3_600_000) / 60_000, 2)
        + ":"@ + spec_padded((total_ms % 60_000) / 1000, 2) + ","@ + spec_padded(
        total_ms % 1000,
        3,
    )
}

/// The time stamp `HH:MM:SS,mmm` of the instant `nanos`.
pub open spec fn spec_srt_timestamp(nanos: nat) -> Seq<char> {
    spec_srt_stamp(spec_round_millis(nanos))
}

/// The time stamp shown in progress messages: `MM:SS.mmm`, with the
/// hours in front once there are any.
pub open spec fn spec_timestamp(nanos: nat) -> Seq<char> {
    let total_ms = spec_round_millis(nanos);
    let clock = spec_padded((total_ms % 3_600_000) / 60_000, 2) + ":"@ + spec_padded(
        (total_ms % 60_000) / 1000,
        2,
    ) + "."@ + spec_padded(total_ms % 1000, 3);
    if total_ms / 3_600_000 > 0 {
        spec_padded(total_ms / 3_600_000, 2) + ":"@ + clock
    } else {
        clock
    }
}

fn push_srt_stamp(out: &mut String, total_ms: u64)
    ensures
        final(out)@ == old(out)@ + spec_srt_stamp(total_ms as nat),
{
    push_padded(out, total_ms / 3_600_000, 2);
    out.append(":");
    push_padded(out, (total_ms % 3_600_000) / 60_000, 2);
    out.append(":");
    push_padded(out, (total_ms % 60_000) / 1000, 2);
    out.append(",");
    push_padded(out, total_ms % 1000, 3);
    proof {
        assert(final(out)@ =~= old(out)@ + spec_srt_stamp(total_ms as nat));
    }
}

/// Formats the instant `nanos` for a progress message.
pub fn format_timestamp(nanos: u64) -> (stamp: String)
    ensures
        stamp@ == spec_timestamp(nanos as nat),
{
    let total_ms = round_millis(nanos);
    let hours = total_ms / 3_600_000;
    let mut stamp = String::new();
    if hours > 0 {
        push_padded(&mut stamp, hours, 2);
        stamp.append(":");
    }
    push_padded(&mut stamp, (total_ms % 3_600_000) / 60_000, 2);
    stamp.append(":");
    push_padded(&mut stamp, (total_ms % 60_000) / 1000, 2);
    stamp.append(".");
    push_padded(&mut stamp, total_ms % 1000, 3);
    proof {
        assert(stamp@ =~= spec_timestamp(nanos as nat));
    }
    stamp
}

/// Formats the instant `nanos` as a transcript time stamp.
pub fn format_srt_timestamp(nanos: u64) -> (stamp: String)
    ensures
        stamp@ == spec_srt_timestamp(nanos as nat),
{
    let mut stamp = String::new();
    push_srt_stamp(&mut stamp, round_millis(nanos));
    proof {
        assert(stamp@ =~= spec_srt_timestamp(nanos as nat));
    }
    stamp
}

/// The body of an entry: `text` with Windows line ends turned into plain
/// ones and the white space at both ends removed.
pub open spec fn spec_sanitize_srt_text(text: Seq<char>) -> Seq<char> {
    spec_trim(spec_unify_newlines(text))
}

/// Cleans a transcript for use as the body of an entry.
pub fn sanitize_srt_text(input: &str) -> (body: String)
    ensures
        body@ == spec_sanitize_srt_text(input@),
{
    let chars = chars_of(input);
    let unified = unify_newlines(&chars);
    let (start, end) = trim_bounds(&unified);
    let mut body = String::new();
    push_chars(&mut body, &unified, start, end);
    proof {
        assert(body@ =~= unified@.subrange(start as int, end as int));
    }
    body
}

/// The end that an entry from `start` to `end` is written with: `end`
/// itself when it lies after `start`, and half a second after `start`
/// otherwise.
pub open spec fn spec_safe_end(start: nat, end: nat) -> nat {
    if end <= start {
        start + 500_000_000
    } else {
        end
    }
}

/// One entry of the document: its number, the two time stamps joined by
/// an arrow, the body, and an empty line.
pub open spec fn spec_srt_entry(index: nat, start: nat, end: nat, text: Seq<char>) -> Seq<char> {
    spec_decimal(index) + "\n"@ + spec_srt_timestamp(start) + " --> "@ + spec_srt_timestamp(
        spec_safe_end(start, end),
    ) + "\n"@ + spec_sanitize_srt_text(text) + "\n\n"@
}

/// Builds entry number `index` for the span `start_ns .. end_ns`. A span
/// that would be empty or negative is written as half a second long.
pub fn build_srt_entry(index: usize, start_ns: u64, end_ns: u64, text: &str) -> (entry: String)
    ensures
        entry@ == spec_srt_entry(index as nat, start_ns as nat, end_ns as nat, text@),
        end_ns <= start_ns ==> entry@ == spec_srt_entry(
            index as nat,
            start_ns as nat,
            (start_ns + 500_000_000) as nat,
            text@,
        ),
{
    let start_ms = round_millis(start_ns);
    let end_ms = if end_ns <= start_ns {
        start_ms + 500
    } else {
        round_millis(end_ns)
    };
    let body = sanitize_srt_text(text);
    let mut entry = String::new();
    push_decimal(&mut entry, index as u64);
    entry.append("\n");
    push_srt_stamp(&mut entry, start_ms);
    entry.append(" --> ");
    push_srt_stamp(&mut entry, end_ms);
    entry.append("\n");
    entry.append(body.as_str());
    entry.append("\n\n");
    proof {
        assert(end_ms == spec_round_millis(spec_safe_end(start_ns as nat, end_ns as nat)));
        assert(entry@ =~= spec_srt_entry(index as nat, start_ns as nat, end_ns as nat, text@));
    }
    entry
}

/// The duration guessed for a transcript of `chars` characters when none
/// could be measured: a fifteenth of a second per character, at least
/// five seconds, and no more than the timeline can hold.
pub open spec fn spec_estimate_duration(chars: nat) -> nat {
    let nanos = chars * 1_000_000_000 / 15;
    if nanos < 5_000_000_000 {
        5_000_000_000
    } else if nanos > u64::MAX {
        u64::MAX as nat
    } else {
        nanos
    }
}

/// Guesses how long a transcript takes to speak from its length.
pub fn estimate_duration_from_text(text: &str) -> (duration: u64)
    ensures
        duration == spec_estimate_duration(text@.len()),
{
    let chars: u128 = text.unicode_len() as u128;
    let nanos: u128 = chars * (NANOS_PER_SECOND as u128) / (CHARS_PER_SECOND as u128);
    if nanos < 5_000_000_000 {
        MIN_ESTIMATED_DURATION
    } else if nanos > u64::MAX as u128 {
        u64::MAX
    } else {
        nanos as u64
    }
}

} // verus!
