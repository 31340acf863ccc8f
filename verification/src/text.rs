//! Text building blocks: decimal numbers, zero padding, white space and
//! lines, over the characters of a string.

use vstd::prelude::*;
use vstd::string::StringExecFns;

verus! {

/// `String::push` appends the given character to the end of the string.
pub assume_specification[ String::push ](s: &mut String, ch: char)
    ensures
        final(s)@ == old(s)@.push(ch),
;

/// `str::eq` holds exactly when both slices hold the same characters.
pub assume_specification[ <str as PartialEq>::eq ](a: &str, b: &str) -> (equal: bool)
    ensures
        equal == (a@ == b@),
;

/// The characters of `text`, one by one.
pub fn chars_of(text: &str) -> (chars: Vec<char>)
    ensures
        chars@ == text@,
{
    let mut chars: Vec<char> = Vec::new();
    for c in it: text.chars()
        invariant
            it.seq() == text@,
            chars@ == it.seq().take(it.index() as int),
    {
        chars.push(c);
    }
    chars
}

/// Appends the characters `chars[from..to]` to `out`.
pub fn push_chars(out: &mut String, chars: &Vec<char>, from: usize, to: usize)
    requires
        from <= to <= chars@.len(),
    ensures
        final(out)@ == old(out)@ + chars@.subrange(from as int, to as int),
{
    let mut i: usize = from;
    while i < to
        invariant
            from <= i <= to <= chars@.len(),
            out@ == old(out)@ + chars@.subrange(from as int, i as int),
        decreases to - i,
    {
        out.push(chars[i]);
        i += 1;
    }
}

/// The character that stands for the decimal digit `digit`.
pub open spec fn spec_digit(digit: nat) -> char {
    (48 + digit) as char
}

/// Whether `c` is one of the digits `0` to `9`.
pub open spec fn is_digit(c: char) -> bool {
    48 <= c as nat <= 57
}

/// The number that the digit `c` stands for.
pub open spec fn digit_value(c: char) -> nat {
    (c as nat - 48) as nat
}

/// `value` written in decimal, without leading zeros.
pub open spec fn spec_decimal(value: nat) -> Seq<char>
    decreases value,
{
    if value < 10 {
        seq![spec_digit(value)]
    } else {
        spec_decimal(value / 10).push(spec_digit(value % 10))
    }
}

/// The number that the digits `digits` spell, read in decimal.
pub open spec fn decimal_value(digits: Seq<char>) -> nat
    decreases digits.len(),
{
    if digits.len() == 0 {
        0
    } else {
        decimal_value(digits.drop_last()) * 10 + digit_value(digits.last())
    }
}

/// `value` in decimal, with zeros in front up to a length of `width`.
pub open spec fn spec_padded(value: nat, width: nat) -> Seq<char> {
    let digits = spec_decimal(value);
    if digits.len() < width {
        Seq::new((width - digits.len()) as nat, |i: int| '0') + digits
    } else {
        digits
    }
}

/// A number written in decimal consists of digits, at least one, and
/// reads back as itself.
pub proof fn lemma_decimal_reads_back(value: nat)
    ensures
        spec_decimal(value).len() >= 1,
        forall|i: int| 0 <= i < spec_decimal(value).len() ==> is_digit(#[trigger] spec_decimal(value)[i]),
        decimal_value(spec_decimal(value)) == value,
    decreases value,
{
    if value < 10 {
        assert(seq![spec_digit(value)].drop_last() =~= Seq::<char>::empty());
        assert(decimal_value(Seq::<char>::empty()) == 0);
    } else {
        lemma_decimal_reads_back(value / 10);
        let head = spec_decimal(value / 10);
        assert(head.push(spec_digit(value % 10)).drop_last() =~= head);
    }
}

/// Different numbers are written differently.
pub proof fn lemma_decimal_injective(a: nat, b: nat)
    requires
        spec_decimal(a) == spec_decimal(b),
    ensures
        a == b,
{
    lemma_decimal_reads_back(a);
    lemma_decimal_reads_back(b);
}

/// The character that stands for the decimal digit `digit`.
pub fn digit_char(digit: u8) -> (ch: char)
    requires
        digit < 10,
    ensures
        ch == spec_digit(digit as nat),
{
    (48u8 + digit) as char
}

/// Number of digits of `value` in decimal.
pub fn decimal_len(value: u64) -> (len: usize)
    ensures
        len == spec_decimal(value as nat).len(),
        1 <= len <= 20,
{
    let mut len: usize = 1;
    let mut rest: u64 = value;
    proof {
        lemma_decimal_len_bound(value as nat);
    }
    while rest >= 10
        invariant
            spec_decimal(value as nat).len() == spec_decimal(rest as nat).len() + len - 1,
            len >= 1,
            spec_decimal(value as nat).len() <= 20,
            spec_decimal(rest as nat).len() >= 1,
        decreases rest,
    {
        proof {
            lemma_decimal_reads_back((rest / 10) as nat);
        }
        rest = rest / 10;
        len += 1;
    }
    len
}

proof fn lemma_decimal_len_bound(value: nat)
    ensures
        spec_decimal(value).len() >= 1,
        value <= u64::MAX ==> spec_decimal(value).len() <= 20,
{
    lemma_decimal_reads_back(value);
    if value <= u64::MAX {
        reveal_with_fuel(spec_decimal, 21);
    }
}

/// Appends `value` in decimal to `out`.
pub fn push_decimal(out: &mut String, value: u64)
    ensures
        final(out)@ == old(out)@ + spec_decimal(value as nat),
    decreases value,
{
    if value < 10 {
        out.push(digit_char(value as u8));
        assert(final(out)@ =~= old(out)@ + spec_decimal(value as nat));
    } else {
        push_decimal(out, value / 10);
        out.push(digit_char((value % 10) as u8));
        assert(final(out)@ =~= old(out)@ + spec_decimal(value as nat));
    }
}

/// Appends `value` in decimal to `out`, with zeros in front up to a
/// length of `width`.
pub fn push_padded(out: &mut String, value: u64, width: usize)
    ensures
        final(out)@ == old(out)@ + spec_padded(value as nat, width as nat),
{
    let len = decimal_len(value);
    let ghost zeros: Seq<char> = Seq::empty();
    let mut written: usize = len;
    while written < width
        invariant
            len <= written,
            written <= width || written == len,
            zeros == Seq::new((written - len) as nat, |i: int| '0'),
            out@ == old(out)@ + zeros,
        decreases width - written,
    {
        out.push('0');
        written += 1;
        proof {
            zeros = Seq::new((written - len) as nat, |i: int| '0');
            assert(out@ =~= old(out)@ + zeros);
        }
    }
    let ghost before = out@;
    push_decimal(out, value);
    proof {
        assert(final(out)@ =~= old(out)@ + spec_padded(value as nat, width as nat));
    }
}

/// Whether `c` is white space: a character with the Unicode property
/// `White_Space`.
pub open spec fn spec_is_whitespace(c: char) -> bool {
    let code = c as nat;
    ||| 0x09 <= code <= 0x0D
    ||| code == 0x20
    ||| code == 0x85
    ||| code == 0xA0
    ||| code == 0x1680
    ||| 0x2000 <= code <= 0x200A
    ||| code == 0x2028
    ||| code == 0x2029
    ||| code == 0x202F
    ||| code == 0x205F
    ||| code == 0x3000
}

/// Whether `c` is white space.
pub fn is_whitespace(c: char) -> (white: bool)
    ensures
        white == spec_is_whitespace(c),
{
    let code: u32 = c as u32;
    (0x09 <= code && code <= 0x0D) || code == 0x20 || code == 0x85 || code == 0xA0 || code
        == 0x1680 || (0x2000 <= code && code <= 0x200A) || code == 0x2028 || code == 0x2029
        || code == 0x202F || code == 0x205F || code == 0x3000
}

/// `text` without the white space at its start.
pub open spec fn spec_trim_start(text: Seq<char>) -> Seq<char>
    decreases text.len(),
{
    if text.len() > 0 && spec_is_whitespace(text[0]) {
        spec_trim_start(text.skip(1))
    } else {
        text
    }
}

/// `text` without the white space at its end.
pub open spec fn spec_trim_end(text: Seq<char>) -> Seq<char>
    decreases text.len(),
{
    if text.len() > 0 && spec_is_whitespace(text.last()) {
        spec_trim_end(text.drop_last())
    } else {
        text
    }
}

/// `text` without the white space at its start and at its end.
pub open spec fn spec_trim(text: Seq<char>) -> Seq<char> {
    spec_trim_end(spec_trim_start(text))
}

/// The bounds of the trimmed part of `chars`: `chars[start..end]` is
/// `chars` without the white space at either end.
pub fn trim_bounds(chars: &Vec<char>) -> (bounds: (usize, usize))
    ensures
        bounds.0 <= bounds.1 <= chars@.len(),
        chars@.subrange(bounds.0 as int, bounds.1 as int) == spec_trim(chars@),
{
    let len: usize = chars.len();
    let mut start: usize = 0;
    proof {
        assert(chars@.skip(0) =~= chars@);
    }
    while start < len && is_whitespace(chars[start])
        invariant
            start <= len,
            len == chars@.len(),
            spec_trim_start(chars@) == spec_trim_start(chars@.skip(start as int)),
        decreases len - start,
    {
        proof {
            assert(chars@.skip(start as int)[0] == chars@[start as int]);
            assert(chars@.skip(start as int).skip(1) =~= chars@.skip(start + 1));
        }
        start += 1;
    }
    proof {
        assert(chars@.skip(0) =~= chars@);
        if start < len {
            assert(chars@.skip(start as int)[0] == chars@[start as int]);
        }
        assert(spec_trim_start(chars@) == chars@.skip(start as int));
    }
    let mut end: usize = len;
    proof {
        assert(chars@.skip(start as int) =~= chars@.subrange(start as int, len as int));
    }
    while end > start && is_whitespace(chars[end - 1])
        invariant
            start <= end <= len,
            len == chars@.len(),
            spec_trim_end(chars@.skip(start as int)) == spec_trim_end(
                chars@.subrange(start as int, end as int),
            ),
        decreases end,
    {
        proof {
            let part = chars@.subrange(start as int, end as int);
            assert(part.last() == chars@[end - 1]);
            assert(part.drop_last() =~= chars@.subrange(start as int, end - 1));
        }
        end -= 1;
    }
    proof {
        let part = chars@.subrange(start as int, end as int);
        if end > start {
            assert(part.last() == chars@[end - 1]);
        }
        assert(spec_trim_end(part) == part);
    }
    (start, end)
}

/// `text` without the white space at its start and at its end.
pub fn trim(text: &str) -> (trimmed: String)
    ensures
        trimmed@ == spec_trim(text@),
{
    let chars = chars_of(text);
    let (start, end) = trim_bounds(&chars);
    let mut trimmed = String::new();
    push_chars(&mut trimmed, &chars, start, end);
    proof {
        assert(trimmed@ =~= chars@.subrange(start as int, end as int));
    }
    trimmed
}

/// Whether `text` is empty once its white space is trimmed away.
pub open spec fn spec_is_blank(text: Seq<char>) -> bool {
    spec_trim(text).len() == 0
}

/// Whether `text` holds nothing but white space.
pub fn is_blank(text: &str) -> (blank: bool)
    ensures
        blank == spec_is_blank(text@),
{
    let chars = chars_of(text);
    let (start, end) = trim_bounds(&chars);
    start == end
}

/// `text` with every carriage return that stands directly in front of a
/// line feed taken out.
pub open spec fn spec_unify_newlines(text: Seq<char>) -> Seq<char>
    decreases text.len(),
{
    if text.len() == 0 {
        Seq::empty()
    } else if text.len() >= 2 && text[0] == '\r' && text[1] == '\n' {
        seq!['\n'] + spec_unify_newlines(text.skip(2))
    } else {
        seq![text[0]] + spec_unify_newlines(text.skip(1))
    }
}

/// `chars` with every pair of carriage return and line feed replaced by
/// a line feed alone.
pub fn unify_newlines(chars: &Vec<char>) -> (unified: Vec<char>)
    ensures
        unified@ == spec_unify_newlines(chars@),
{
    let len: usize = chars.len();
    let mut unified: Vec<char> = Vec::new();
    let mut i: usize = 0;
    proof {
        assert(chars@.skip(0) =~= chars@);
    }
    while i < len
        invariant
            i <= len,
            len == chars@.len(),
            unified@ + spec_unify_newlines(chars@.skip(i as int)) == spec_unify_newlines(chars@),
        decreases len - i,
    {
        let ghost rest = chars@.skip(i as int);
        let ghost before = unified@;
        proof {
            assert(rest[0] == chars@[i as int]);
            if i + 1 < len {
                assert(rest[1] == chars@[i + 1]);
            }
        }
        if chars[i] == '\r' && i + 1 < len && chars[i + 1] == '\n' {
            unified.push('\n');
            proof {
                assert(rest.skip(2) =~= chars@.skip(i + 2));
                assert(unified@ + spec_unify_newlines(chars@.skip(i + 2)) =~= before
                    + spec_unify_newlines(rest));
            }
            i += 2;
        } else {
            unified.push(chars[i]);
            proof {
                assert(rest.skip(1) =~= chars@.skip(i + 1));
                assert(unified@ + spec_unify_newlines(chars@.skip(i + 1)) =~= before
                    + spec_unify_newlines(rest));
            }
            i += 1;
        }
    }
    proof {
        assert(unified@ + Seq::<char>::empty() =~= unified@);
    }
    unified
}

/// Position of the first `target` in `text`, or the length of `text`
/// when it holds none.
pub open spec fn spec_index_of(text: Seq<char>, target: char) -> int
    decreases text.len(),
{
    if text.len() == 0 || text[0] == target {
        0
    } else {
        1 + spec_index_of(text.skip(1), target)
    }
}

/// The first `target` is found inside the text or not at all, and
/// nothing in front of it is a `target`.
pub proof fn lemma_index_of(text: Seq<char>, target: char)
    ensures
        0 <= spec_index_of(text, target) <= text.len(),
        spec_index_of(text, target) < text.len() ==> text[spec_index_of(text, target)] == target,
        forall|i: int| 0 <= i < spec_index_of(text, target) ==> text[i] != target,
    decreases text.len(),
{
    if text.len() > 0 && text[0] != target {
        lemma_index_of(text.skip(1), target);
        assert forall|i: int| 0 <= i < spec_index_of(text, target) implies text[i] != target by {
            if i > 0 {
                assert(text.skip(1)[i - 1] == text[i]);
            }
        }
    }
}

/// Position of the first `target` in `chars[from..to]`, counted from the
/// start of `chars`, or `to` when there is none.
pub fn index_of(chars: &Vec<char>, from: usize, to: usize, target: char) -> (at: usize)
    requires
        from <= to <= chars@.len(),
    ensures
        from <= at <= to,
        at - from == spec_index_of(chars@.subrange(from as int, to as int), target),
{
    let mut at: usize = from;
    while at < to && chars[at] != target
        invariant
            from <= at <= to <= chars@.len(),
            spec_index_of(chars@.subrange(from as int, to as int), target) == (at - from)
                + spec_index_of(chars@.subrange(at as int, to as int), target),
        decreases to - at,
    {
        proof {
            let rest = chars@.subrange(at as int, to as int);
            assert(rest[0] == chars@[at as int]);
            assert(rest.skip(1) =~= chars@.subrange(at + 1, to as int));
        }
        at += 1;
    }
    proof {
        let rest = chars@.subrange(at as int, to as int);
        if at < to {
            assert(rest[0] == chars@[at as int]);
        }
    }
    at
}

/// Whether `text` holds nothing but digits.
pub open spec fn all_digits(text: Seq<char>) -> bool {
    forall|i: int| 0 <= i < text.len() ==> is_digit(#[trigger] text[i])
}

/// The number that `digits` spell, if they are all digits and the number
/// is no larger than `limit`. No digits at all spell zero.
pub open spec fn spec_read_number(digits: Seq<char>, limit: u64) -> Option<u64> {
    if all_digits(digits) && decimal_value(digits) <= limit {
        Some(decimal_value(digits) as u64)
    } else {
        None
    }
}

/// Reading more digits never gives a smaller number.
pub proof fn lemma_decimal_value_grows(digits: Seq<char>, prefix: int)
    requires
        0 <= prefix <= digits.len(),
    ensures
        decimal_value(digits.take(prefix)) <= decimal_value(digits),
    decreases digits.len() - prefix,
{
    if prefix < digits.len() {
        lemma_decimal_value_grows(digits, prefix + 1);
        assert(digits.take(prefix + 1).drop_last() =~= digits.take(prefix));
    } else {
        assert(digits.take(prefix) =~= digits);
    }
}

/// Whether `c` is one of the digits `0` to `9`.
pub fn is_digit_char(c: char) -> (digit: bool)
    ensures
        digit == is_digit(c),
{
    let code: u32 = c as u32;
    48 <= code && code <= 57
}

/// The number that the digit `c` stands for.
pub fn digit_of(c: char) -> (value: u8)
    requires
        is_digit(c),
    ensures
        value == digit_value(c),
        value < 10,
{
    let code: u32 = c as u32;
    (code - 48) as u8
}

/// Reads `chars[from..to]` as a decimal number no larger than `limit`.
pub fn read_number(chars: &Vec<char>, from: usize, to: usize, limit: u64) -> (number: Option<u64>)
    requires
        from <= to <= chars@.len(),
    ensures
        number == spec_read_number(chars@.subrange(from as int, to as int), limit),
{
    let ghost digits = chars@.subrange(from as int, to as int);
    let mut value: u64 = 0;
    let mut i: usize = from;
    proof {
        assert(digits.take(0) =~= Seq::<char>::empty());
    }
    while i < to
        invariant
            from <= i <= to <= chars@.len(),
            digits == chars@.subrange(from as int, to as int),
            all_digits(digits.take(i - from)),
            value == decimal_value(digits.take(i - from)),
            value <= limit,
        decreases to - i,
    {
        let c = chars[i];
        proof {
            assert(digits[i - from] == c);
            assert(digits.take(i - from + 1).drop_last() =~= digits.take(i - from));
            assert(digits.take(i - from + 1).last() == c);
        }
        if !is_digit_char(c) {
            return None;
        }
        let next: u128 = (value as u128) * 10 + (digit_of(c) as u128);
        proof {
            assert(decimal_value(digits.take(i - from + 1)) == next);
        }
        if next > limit as u128 {
            proof {
                lemma_decimal_value_grows(digits, i - from + 1);
            }
            return None;
        }
        value = next as u64;
        proof {
            let longer = digits.take(i - from + 1);
            assert forall|k: int| 0 <= k < longer.len() implies is_digit(#[trigger] longer[k]) by {
                if k < i - from {
                    assert(digits.take(i - from)[k] == longer[k]);
                }
            }
        }
        i += 1;
    }
    proof {
        assert(digits.take(to - from) =~= digits);
    }
    Some(value)
}

/// The number that `text` spells as an unsigned 32-bit integer: an
/// optional `+` and then digits, at least one, nothing else, and a value
/// that fits.
pub open spec fn spec_parse_u32(text: Seq<char>) -> Option<u32> {
    let digits = if text.len() > 0 && text[0] == '+' {
        text.skip(1)
    } else {
        text
    };
    if digits.len() == 0 {
        None
    } else {
        match spec_read_number(digits, 0xFFFF_FFFF) {
            Some(value) => Some(value as u32),
            None => None,
        }
    }
}

/// Reads `chars[from..to]` as an unsigned 32-bit integer.
pub fn parse_u32(chars: &Vec<char>, from: usize, to: usize) -> (number: Option<u32>)
    requires
        from <= to <= chars@.len(),
    ensures
        number == spec_parse_u32(chars@.subrange(from as int, to as int)),
{
    let ghost text = chars@.subrange(from as int, to as int);
    let start: usize = if from < to && chars[from] == '+' {
        from + 1
    } else {
        from
    };
    proof {
        if from < to {
            assert(text[0] == chars@[from as int]);
        }
        if start > from {
            assert(text.skip(1) =~= chars@.subrange(start as int, to as int));
        }
    }
    if start == to {
        return None;
    }
    match read_number(chars, start, to, 0xFFFF_FFFF) {
        Some(value) => Some(value as u32),
        None => None,
    }
}

/// The characters of `value`, if there is one.
pub open spec fn text_of(value: Option<String>) -> Option<Seq<char>> {
    match value {
        Some(text) => Some(text@),
        None => None,
    }
}

/// The texts `a`, `b` and `c`, one after the other.
pub fn join3(a: &str, b: &str, c: &str) -> (text: String)
    ensures
        text@ == a@ + b@ + c@,
{
    let mut text = String::from_str(a);
    text.append(b);
    text.append(c);
    text
}

/// The texts `a` to `e`, one after the other.
pub fn join5(a: &str, b: &str, c: &str, d: &str, e: &str) -> (text: String)
    ensures
        text@ == a@ + b@ + c@ + d@ + e@,
{
    let mut text = String::from_str(a);
    text.append(b);
    text.append(c);
    text.append(d);
    text.append(e);
    text
}

/// `value` in decimal.
pub fn decimal(value: usize) -> (text: String)
    ensures
        text@ == spec_decimal(value as nat),
{
    let mut text = String::new();
    push_decimal(&mut text, value as u64);
    proof {
        assert(text@ =~= spec_decimal(value as nat));
    }
    text
}

} // verus!
