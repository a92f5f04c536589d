//! The text store of a buffer: a `ropey::Rope`, seen through its chars.
use vstd::prelude::*;
use ropey::Rope;
use crate::text::{line_count, line_of, line_start};
use crate::strs::{byte_len, char_at_byte};

verus! {

/// `ropey::Rope`, carried opaquely; its contents are `rope_text`.
#[verifier::external_type_specification]
#[verifier::external_body]
pub struct ExRope(Rope);

/// The chars that a rope holds.
pub uninterp spec fn rope_text(r: Rope) -> Seq<char>;

/// `Rope::new`: an empty rope.
#[verifier::external_body]
pub(crate) fn rope_new() -> (r: Rope)
    ensures
        rope_text(r) == Seq::<char>::empty(),
{
    Rope::new()
}

/// `Rope::from_str`: a rope holding the chars of `s`; its UTF-8 bytes, which
/// are those of `s`, number no more than `usize::MAX` (`len_bytes` counts
/// them in a `usize`).
#[verifier::external_body]
pub(crate) fn rope_from_str(s: &str) -> (r: Rope)
    ensures
        rope_text(r) == s@,
        byte_len(rope_text(r)) <= usize::MAX,
{
    Rope::from_str(s)
}

/// `Rope::len_chars`: the number of chars.
#[verifier::external_body]
pub(crate) fn rope_len_chars(r: &Rope) -> (n: usize)
    ensures
        n == rope_text(*r).len(),
{
    r.len_chars()
}

/// `Rope::len_lines`: line breaks plus one. With the crate's line-break
/// features off, a line break is a line feed (alone or after a carriage
/// return).
#[verifier::external_body]
pub(crate) fn rope_len_lines(r: &Rope) -> (n: usize)
    ensures
        n == line_count(rope_text(*r)),
{
    r.len_lines()
}

/// `Rope::line_to_char`: the char index at which line `line` starts;
/// `len_lines()` gives one past the end. Panics beyond that.
#[verifier::external_body]
pub(crate) fn rope_line_to_char(r: &Rope, line: usize) -> (p: usize)
    requires
        line <= line_count(rope_text(*r)),
    ensures
        p == line_start(rope_text(*r), line as nat),
{
    r.line_to_char(line)
}

/// `Rope::line(line).len_chars()`: the number of chars of line `line`,
/// its line break included. Panics unless `line < len_lines()`.
#[verifier::external_body]
pub(crate) fn rope_line_len_chars(r: &Rope, line: usize) -> (n: usize)
    requires
        line < line_count(rope_text(*r)),
    ensures
        n == line_start(rope_text(*r), (line + 1) as nat) - line_start(rope_text(*r), line as nat),
{
    r.line(line).len_chars()
}

/// `Rope::char_to_line`: the number of line breaks before char index `pos`.
/// Panics beyond one past the end.
#[verifier::external_body]
pub(crate) fn rope_char_to_line(r: &Rope, pos: usize) -> (l: usize)
    requires
        pos <= rope_text(*r).len(),
    ensures
        l == line_of(rope_text(*r), pos as int),
{
    r.char_to_line(pos)
}

/// `Rope::char`: the char at `idx`. Panics out of bounds.
#[verifier::external_body]
pub(crate) fn rope_char(r: &Rope, idx: usize) -> (c: char)
    requires
        idx < rope_text(*r).len(),
    ensures
        c == rope_text(*r)[idx as int],
{
    r.char(idx)
}

/// `Rope::insert`: inserts the chars of `s` at char index `idx`. Panics
/// beyond the end; the resulting byte count must fit a `usize`.
#[verifier::external_body]
pub(crate) fn rope_insert(r: &mut Rope, idx: usize, s: &str)
    requires
        idx <= rope_text(*old(r)).len(),
        byte_len(rope_text(*old(r))) + byte_len(s@) <= usize::MAX,
    ensures
        rope_text(*final(r)) == rope_text(*old(r)).take(idx as int) + s@ + rope_text(
            *old(r),
        ).skip(idx as int),
{
    r.insert(idx, s)
}

/// `Rope::insert_char`: inserts `ch` at char index `idx`. Panics beyond the
/// end; the resulting byte count must fit a `usize`.
#[verifier::external_body]
pub(crate) fn rope_insert_char(r: &mut Rope, idx: usize, ch: char)
    requires
        idx <= rope_text(*old(r)).len(),
        byte_len(rope_text(*old(r))) + byte_len(seq![ch]) <= usize::MAX,
    ensures
        rope_text(*final(r)) == rope_text(*old(r)).take(idx as int) + seq![ch] + rope_text(
            *old(r),
        ).skip(idx as int),
{
    r.insert_char(idx, ch)
}

/// `Rope::remove` on `start..end`: removes those chars. Panics unless
/// `start <= end <= len_chars()`.
#[verifier::external_body]
pub(crate) fn rope_remove(r: &mut Rope, start: usize, end: usize)
    requires
        start <= end <= rope_text(*old(r)).len(),
    ensures
        rope_text(*final(r)) == rope_text(*old(r)).take(start as int) + rope_text(*old(r)).skip(
            end as int,
        ),
{
    r.remove(start..end)
}

/// `Rope::slice` on `start..end`, turned into a `String`: those chars.
/// Panics unless `start <= end <= len_chars()`.
#[verifier::external_body]
pub(crate) fn rope_slice_string(r: &Rope, start: usize, end: usize) -> (s: String)
    requires
        start <= end <= rope_text(*r).len(),
    ensures
        s@ == rope_text(*r).subrange(start as int, end as int),
{
    r.slice(start..end).into()
}

/// `Rope::chars`, collected into a `String`: all the chars.
#[verifier::external_body]
pub(crate) fn rope_to_string(r: &Rope) -> (s: String)
    ensures
        s@ == rope_text(*r),
{
    r.chars().collect()
}

/// `Rope::line_to_byte`: the byte offset at which line `line` starts (the
/// bytes of the chars before it); `len_lines()` gives `len_bytes()`.
/// Panics beyond that.
#[verifier::external_body]
pub(crate) fn rope_line_to_byte(r: &Rope, line: usize) -> (p: usize)
    requires
        line <= line_count(rope_text(*r)),
    ensures
        p == byte_len(rope_text(*r).take(line_start(rope_text(*r), line as nat))),
{
    r.line_to_byte(line)
}

/// `Rope::byte_to_char`: the index of the char that byte `b` belongs to
/// (`len_chars()` for `len_bytes()`). Panics beyond `len_bytes()`.
#[verifier::external_body]
pub(crate) fn rope_byte_to_char(r: &Rope, b: usize) -> (c: usize)
    requires
        b <= byte_len(rope_text(*r)),
    ensures
        c == char_at_byte(rope_text(*r), b as int),
{
    r.byte_to_char(b)
}

} // verus!
