//! How deep a BSON document nests, found without building anything.
//!
//! A reader that descends once for every document inside a document needs
//! stack for every level. The walk here goes over the bytes as such a reader
//! does: element by element, into each embedded document, array and scope
//! as it comes, and no further than the first thing that is no element. It
//! checks less than a reader would, so it goes at least as far.

use crate::bytes::{read_i32, signed_u32, u32_of_le};
use vstd::prelude::*;

verus! {

/// Most documents that may be open at once, the outermost included.
pub const MAX_NESTING: usize = 128;

/// The length written at `at`: four bytes, lowest first, as a signed value.
pub open spec fn length_at(bytes: Seq<u8>, at: int) -> int {
    signed_u32(u32_of_le(bytes[at], bytes[at + 1], bytes[at + 2], bytes[at + 3])) as int
}

/// The place of the first zero byte from `at` on and before `end`, or `end`
/// if there is none.
pub open spec fn zero_from(bytes: Seq<u8>, at: int, end: int) -> int
    decreases end - at,
{
    if at >= end {
        end
    } else if bytes[at] == 0 {
        at
    } else {
        zero_from(bytes, at + 1, end)
    }
}

/// The size of the value of an element with this tag, where the tag alone
/// gives it: double, date, timestamp and 64-bit integer have 8 bytes, an
/// object id 12, a boolean 1, a 32-bit integer 4, a decimal 16; undefined,
/// null and the two keys have none.
pub open spec fn fixed_size(tag: u8) -> Option<usize> {
    if tag == 0x01 || tag == 0x09 || tag == 0x11 || tag == 0x12 {
        Some(8usize)
    } else if tag == 0x07 {
        Some(12usize)
    } else if tag == 0x08 {
        Some(1usize)
    } else if tag == 0x10 {
        Some(4usize)
    } else if tag == 0x13 {
        Some(16usize)
    } else if tag == 0x06 || tag == 0x0a || tag == 0x7f || tag == 0xff {
        Some(0usize)
    } else {
        None
    }
}

/// What stands at a place inside a document.
pub enum Step {
    /// Nothing that can be walked over.
    Stop,
    /// An element without a document inside; the next one starts here.
    Next(usize),
    /// An element with a document inside: where the first element of that
    /// document starts, and where the document ends.
    Enter(usize, usize),
}

/// A value that starts at `value` with its length, and has `extra` bytes
/// besides what the length counts: 4 for a string, code or symbol, 5 for
/// binary data, 16 for a database pointer.
pub open spec fn prefixed(bytes: Seq<u8>, value: int, end: int, extra: int) -> Step {
    if value + 4 <= end && 0 <= length_at(bytes, value) && length_at(bytes, value) + extra <= end
        - value {
        Step::Next((value + length_at(bytes, value) + extra) as usize)
    } else {
        Step::Stop
    }
}

/// A regular expression that starts at `value`: two strings, each up to
/// its zero byte.
pub open spec fn regex_at(bytes: Seq<u8>, value: int, end: int) -> Step {
    let options = zero_from(bytes, value, end) + 1;
    let behind = zero_from(bytes, options, end) + 1;
    if options <= end && behind <= end {
        Step::Next(behind as usize)
    } else {
        Step::Stop
    }
}

/// A document or an array that starts at `value`: its length, of at least
/// 5 bytes, then its elements.
pub open spec fn document_at(bytes: Seq<u8>, value: int, end: int) -> Step {
    if value + 4 <= end && 5 <= length_at(bytes, value) && length_at(bytes, value) <= end
        - value {
        Step::Enter((value + 4) as usize, (value + length_at(bytes, value)) as usize)
    } else {
        Step::Stop
    }
}

/// Code with scope that starts at `value`: the length of the whole, the
/// code as a string with its length, then the scope, a document that ends
/// where the whole ends.
pub open spec fn scope_at(bytes: Seq<u8>, value: int, end: int) -> Step {
    if value + 8 <= end && 0 <= length_at(bytes, value) && length_at(bytes, value) <= end - value
        && 0 <= length_at(bytes, value + 4) && length_at(bytes, value + 4) + 12 <= length_at(
        bytes,
        value,
    ) {
        Step::Enter(
            (value + length_at(bytes, value + 4) + 12) as usize,
            (value + length_at(bytes, value)) as usize,
        )
    } else {
        Step::Stop
    }
}

/// A value that starts at `value` and whose tag is `tag`.
pub open spec fn value_at(bytes: Seq<u8>, tag: u8, value: int, end: int) -> Step {
    if fixed_size(tag) is Some {
        if fixed_size(tag).unwrap() <= end - value {
            Step::Next((value + fixed_size(tag).unwrap()) as usize)
        } else {
            Step::Stop
        }
    } else if tag == 0x02 || tag == 0x0d || tag == 0x0e {
        prefixed(bytes, value, end, 4)
    } else if tag == 0x05 {
        prefixed(bytes, value, end, 5)
    } else if tag == 0x0c {
        prefixed(bytes, value, end, 16)
    } else if tag == 0x0b {
        regex_at(bytes, value, end)
    } else if tag == 0x03 || tag == 0x04 {
        document_at(bytes, value, end)
    } else if tag == 0x0f {
        scope_at(bytes, value, end)
    } else {
        Step::Stop
    }
}

/// What stands at `at` in a document that ends at `end`: a tag, a key up to
/// its zero byte, and a value whose size the tag or the value itself gives.
pub open spec fn step_at(bytes: Seq<u8>, at: int, end: int) -> Step {
    let value = zero_from(bytes, at + 1, end) + 1;
    if value > end {
        Step::Stop
    } else {
        value_at(bytes, bytes[at], value, end)
    }
}

/// Whether the walk from `at` on, inside the documents that end at `ends`
/// (the innermost last), never has more than [`MAX_NESTING`] documents open.
/// The byte before the end of a document closes it; an element with a
/// document inside opens that document; the walk is over when the outermost
/// document is closed or something stands there that cannot be walked over.
pub open spec fn walk(bytes: Seq<u8>, at: int, ends: Seq<usize>) -> bool
    decreases bytes.len() - at,
{
    if ends.len() == 0 {
        true
    } else if at < 0 || at >= ends.last() || ends.last() > bytes.len() {
        true
    } else if at == ends.last() - 1 {
        walk(bytes, at + 1, ends.drop_last())
    } else {
        match step_at(bytes, at, ends.last() as int) {
            Step::Stop => true,
            Step::Next(next) => if at < next <= ends.last() {
                walk(bytes, next as int, ends)
            } else {
                true
            },
            Step::Enter(inner, end) => if at < inner <= end <= ends.last() {
                ends.len() < MAX_NESTING && walk(bytes, inner as int, ends.push(end))
            } else {
                true
            },
        }
    }
}

/// Whether reading `bytes` as a document never has more than
/// [`MAX_NESTING`] documents open at once. Bytes that do not start with the
/// length of a document open none.
pub open spec fn nests_within(bytes: Seq<u8>) -> bool {
    if bytes.len() < 4 || length_at(bytes, 0) < 5 || length_at(bytes, 0) > bytes.len() {
        true
    } else {
        walk(bytes, 4, seq![length_at(bytes, 0) as usize])
    }
}

/// The place of the first zero byte from `at` on and before `end`, or `end`.
fn find_zero(bytes: &[u8], at: usize, end: usize) -> (zero: usize)
    requires
        at <= end <= bytes@.len(),
    ensures
        zero == zero_from(bytes@, at as int, end as int),
        at <= zero <= end,
{
    let mut i = at;
    while i < end && bytes[i] != 0
        invariant
            at <= i <= end <= bytes@.len(),
            zero_from(bytes@, i as int, end as int) == zero_from(bytes@, at as int, end as int),
        decreases end - i,
    {
        i += 1;
    }
    i
}

/// The length written at `at`.
fn read_length(bytes: &[u8], at: usize) -> (length: i32)
    requires
        at + 4 <= bytes@.len(),
    ensures
        length == length_at(bytes@, at as int),
{
    read_i32(bytes[at], bytes[at + 1], bytes[at + 2], bytes[at + 3])
}

/// The size that the tag alone gives, if it does.
fn fixed_size_of(tag: u8) -> (size: Option<usize>)
    ensures
        size == fixed_size(tag),
{
    if tag == 0x01 || tag == 0x09 || tag == 0x11 || tag == 0x12 {
        Some(8)
    } else if tag == 0x07 {
        Some(12)
    } else if tag == 0x08 {
        Some(1)
    } else if tag == 0x10 {
        Some(4)
    } else if tag == 0x13 {
        Some(16)
    } else if tag == 0x06 || tag == 0x0a || tag == 0x7f || tag == 0xff {
        Some(0)
    } else {
        None
    }
}

/// A value with its length in front.
fn step_prefixed(bytes: &[u8], value: usize, end: usize, extra: usize) -> (step: Step)
    requires
        value <= end <= bytes@.len(),
        4 <= extra <= 16,
    ensures
        step == prefixed(bytes@, value as int, end as int, extra as int),
        step matches Step::Next(next) ==> value < next <= end,
        !(step is Enter),
{
    if end - value < 4 {
        return Step::Stop;
    }
    let length = read_length(bytes, value);
    if length < 0 || end - value < extra || length as usize > end - value - extra {
        return Step::Stop;
    }
    Step::Next(value + length as usize + extra)
}

/// A regular expression that starts at `value`.
fn step_regex(bytes: &[u8], value: usize, end: usize) -> (step: Step)
    requires
        value <= end <= bytes@.len(),
    ensures
        step == regex_at(bytes@, value as int, end as int),
        step matches Step::Next(next) ==> value < next <= end,
        !(step is Enter),
{
    let pattern_end = find_zero(bytes, value, end);
    if pattern_end >= end {
        return Step::Stop;
    }
    let options_end = find_zero(bytes, pattern_end + 1, end);
    if options_end >= end {
        return Step::Stop;
    }
    Step::Next(options_end + 1)
}

/// A document or an array that starts at `value`.
fn step_document(bytes: &[u8], value: usize, end: usize) -> (step: Step)
    requires
        value <= end <= bytes@.len(),
    ensures
        step == document_at(bytes@, value as int, end as int),
        step matches Step::Enter(inner, inner_end) ==> value < inner <= inner_end <= end,
        !(step is Next),
{
    if end - value < 4 {
        return Step::Stop;
    }
    let length = read_length(bytes, value);
    if length < 5 || length as usize > end - value {
        return Step::Stop;
    }
    Step::Enter(value + 4, value + length as usize)
}

/// Code with scope that starts at `value`.
fn step_scope(bytes: &[u8], value: usize, end: usize) -> (step: Step)
    requires
        value <= end <= bytes@.len(),
    ensures
        step == scope_at(bytes@, value as int, end as int),
        step matches Step::Enter(inner, inner_end) ==> value < inner <= inner_end <= end,
        !(step is Next),
{
    if end - value < 8 {
        return Step::Stop;
    }
    let whole = read_length(bytes, value);
    let code = read_length(bytes, value + 4);
    if whole < 12 || whole as usize > end - value || code < 0 || code > whole - 12 {
        return Step::Stop;
    }
    Step::Enter(value + code as usize + 12, value + whole as usize)
}

/// A value that starts at `value` and whose tag is `tag`.
fn step_value(bytes: &[u8], tag: u8, value: usize, end: usize) -> (step: Step)
    requires
        value <= end <= bytes@.len(),
    ensures
        step == value_at(bytes@, tag, value as int, end as int),
        step matches Step::Next(next) ==> value <= next <= end,
        step matches Step::Enter(inner, inner_end) ==> value < inner <= inner_end <= end,
{
    if let Some(size) = fixed_size_of(tag) {
        if size <= end - value {
            Step::Next(value + size)
        } else {
            Step::Stop
        }
    } else if tag == 0x02 || tag == 0x0d || tag == 0x0e {
        step_prefixed(bytes, value, end, 4)
    } else if tag == 0x05 {
        step_prefixed(bytes, value, end, 5)
    } else if tag == 0x0c {
        step_prefixed(bytes, value, end, 16)
    } else if tag == 0x0b {
        step_regex(bytes, value, end)
    } else if tag == 0x03 || tag == 0x04 {
        step_document(bytes, value, end)
    } else if tag == 0x0f {
        step_scope(bytes, value, end)
    } else {
        Step::Stop
    }
}

/// What stands at `at` in a document that ends at `end`.
fn step(bytes: &[u8], at: usize, end: usize) -> (step: Step)
    requires
        at < end <= bytes@.len(),
    ensures
        step == step_at(bytes@, at as int, end as int),
        step matches Step::Next(next) ==> at < next <= end,
        step matches Step::Enter(inner, inner_end) ==> at < inner <= inner_end <= end,
{
    let key_end = find_zero(bytes, at + 1, end);
    if key_end >= end {
        return Step::Stop;
    }
    step_value(bytes, bytes[at], key_end + 1, end)
}

/// Whether reading `bytes` as a document never has more than
/// [`MAX_NESTING`] documents open at once.
pub fn nesting_is_bounded(bytes: &[u8]) -> (bounded: bool)
    ensures
        bounded == nests_within(bytes@),
{
    if bytes.len() < 4 {
        return true;
    }
    let announced = read_length(bytes, 0);
    if announced < 5 || announced as usize > bytes.len() {
        return true;
    }
    let mut ends: Vec<usize> = Vec::new();
    ends.push(announced as usize);
    let mut at: usize = 4;
    loop
        invariant
            ends@.len() <= MAX_NESTING,
            walk(bytes@, at as int, ends@) == nests_within(bytes@),
        decreases bytes@.len() - at,
    {
        if ends.len() == 0 {
            return true;
        }
        let end = ends[ends.len() - 1];
        if at >= end || end > bytes.len() {
            return true;
        }
        if at == end - 1 {
            let ghost open = ends@;
            ends.pop();
            assert(ends@ =~= open.drop_last());
            at = at + 1;
        } else {
            match step(bytes, at, end) {
                Step::Stop => {
                    return true;
                },
                Step::Next(next) => {
                    at = next;
                },
                Step::Enter(inner, inner_end) => {
                    if ends.len() >= MAX_NESTING {
                        return false;
                    }
                    ends.push(inner_end);
                    at = inner;
                },
            }
        }
    }
}

} // verus!
