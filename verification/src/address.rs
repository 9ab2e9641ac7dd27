//! The textual form of a player's network address: four decimal numbers up to
//! 255, without leading zeros, separated by dots.

use vstd::prelude::*;

verus! {

/// A decimal digit.
pub open spec fn is_digit(c: char) -> bool {
    '0' <= c && c <= '9'
}

/// The end of the run of digits that starts at `from`.
pub open spec fn digits_end(text: Seq<char>, from: int) -> int
    decreases text.len() - from,
{
    if 0 <= from < text.len() && is_digit(text[from]) {
        digits_end(text, from + 1)
    } else {
        from
    }
}

/// The number that the digits from `from` up to `to` spell.
pub open spec fn number(text: Seq<char>, from: int, to: int) -> int
    decreases to - from,
{
    if to <= from {
        0
    } else {
        number(text, from, to - 1) * 10 + (text[to - 1] as int - '0' as int)
    }
}

/// The digits from `from` up to `to` are one field of an address: one to
/// three of them, no zero in front of another digit, and at most 255.
pub open spec fn is_octet(text: Seq<char>, from: int, to: int) -> bool {
    &&& 1 <= to - from <= 3
    &&& (to - from > 1 ==> text[from] != '0')
    &&& number(text, from, to) <= 255
}

/// A dot stands at `at`.
pub open spec fn dot_at(text: Seq<char>, at: int) -> bool {
    0 <= at < text.len() && text[at] == '.'
}

/// The text is an address: four fields with a dot between each two, and
/// nothing else.
pub open spec fn is_ipv4(text: Seq<char>) -> bool {
    let a = digits_end(text, 0);
    let b = digits_end(text, a + 1);
    let c = digits_end(text, b + 1);
    let d = digits_end(text, c + 1);
    &&& is_octet(text, 0, a)
    &&& dot_at(text, a)
    &&& is_octet(text, a + 1, b)
    &&& dot_at(text, b)
    &&& is_octet(text, b + 1, c)
    &&& dot_at(text, c)
    &&& is_octet(text, c + 1, d)
    &&& d == text.len()
}

/// A run of digits ends at the first position that holds no digit.
proof fn lemma_digits_end(text: Seq<char>, from: int, to: int)
    requires
        0 <= from <= to <= text.len(),
        forall|i: int| from <= i < to ==> is_digit(#[trigger] text[i]),
    ensures
        to == text.len() || !is_digit(text[to]) ==> digits_end(text, from) == to,
        digits_end(text, from) >= to,
        digits_end(text, from) == digits_end(text, to),
    decreases to - from,
{
    if from < to {
        lemma_digits_end(text, from + 1, to);
    } else {
        lemma_digits_grow(text, to);
    }
}

/// A run of digits does not end before it starts.
proof fn lemma_digits_grow(text: Seq<char>, from: int)
    ensures
        digits_end(text, from) >= from,
    decreases text.len() - from,
{
    if 0 <= from < text.len() && is_digit(text[from]) {
        lemma_digits_grow(text, from + 1);
    }
}

/// Reads the field that starts at `from`: the position behind it, or `None`
/// where the digits there are no field.
fn read_octet(text: &str, len: usize, from: usize) -> (end: Option<usize>)
    requires
        len == text@.len(),
        from <= len,
    ensures
        match end {
            Some(to) => to == digits_end(text@, from as int) && is_octet(
                text@,
                from as int,
                to as int,
            ) && to <= len,
            None => !is_octet(text@, from as int, digits_end(text@, from as int)),
        },
{
    let mut at: usize = from;
    let mut value: u32 = 0;
    let mut in_digits = true;
    while in_digits && at < len && at - from < 4
        invariant
            len == text@.len(),
            from <= at <= len,
            at - from <= 4,
            forall|i: int| from <= i < at ==> is_digit(#[trigger] text@[i]),
            value == number(text@, from as int, at as int),
            at - from == 0 ==> value == 0,
            at - from == 1 ==> value <= 9,
            at - from == 2 ==> value <= 99,
            at - from == 3 ==> value <= 999,
            at - from == 4 ==> value <= 9999,
            !in_digits ==> at < len && !is_digit(text@[at as int]),
        decreases (if in_digits { 1int } else { 0int }) + len - at,
    {
        let c = text.get_char(at);
        if '0' <= c && c <= '9' {
            value = value * 10 + (c as u32 - '0' as u32);
            at += 1;
        } else {
            in_digits = false;
        }
    }
    let leading_zero = at > from && text.get_char(from) == '0';
    proof {
        lemma_digits_end(text@, from as int, at as int);
    }
    if at - from == 0 || at - from > 3 {
        return None;
    }
    if at - from > 1 && leading_zero {
        return None;
    }
    if value > 255 {
        return None;
    }
    Some(at)
}

/// Whether a dot stands at `at`.
fn read_dot(text: &str, len: usize, at: usize) -> (found: bool)
    requires
        len == text@.len(),
    ensures
        found == dot_at(text@, at as int),
{
    at < len && text.get_char(at) == '.'
}

/// Whether `text` is a network address in dotted decimal form.
pub fn is_valid_ipv4(text: &str) -> (valid: bool)
    ensures
        valid == is_ipv4(text@),
{
    let len = text.unicode_len();
    let a = match read_octet(text, len, 0) {
        Some(a) => a,
        None => {
            return false;
        },
    };
    if !read_dot(text, len, a) {
        return false;
    }
    let b = match read_octet(text, len, a + 1) {
        Some(b) => b,
        None => {
            return false;
        },
    };
    if !read_dot(text, len, b) {
        return false;
    }
    let c = match read_octet(text, len, b + 1) {
        Some(c) => c,
        None => {
            return false;
        },
    };
    if !read_dot(text, len, c) {
        return false;
    }
    let d = match read_octet(text, len, c + 1) {
        Some(d) => d,
        None => {
            return false;
        },
    };
    d == len
}

} // verus!
