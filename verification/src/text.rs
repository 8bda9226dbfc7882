//! Byte positions in UTF-8 text: character boundaries, what inserting and
//! removing bytes does to them, and the contracts of the `String` methods
//! that edit a string at a byte position.

use vstd::prelude::*;
use vstd::utf8::*;

verus! {

/// `text` with `inserted` put in front of the byte at `at`.
pub open spec fn splice(text: Seq<u8>, at: int, inserted: Seq<u8>) -> Seq<u8> {
    text.subrange(0, at) + inserted + text.subrange(at, text.len() as int)
}

/// `text` without the bytes from `from` up to, and without, `to`.
pub open spec fn cut(text: Seq<u8>, from: int, to: int) -> Seq<u8> {
    text.subrange(0, from) + text.subrange(to, text.len() as int)
}

/// The last character boundary of `text` before `index`: where the character
/// that ends at `index` starts.
pub open spec fn prev_boundary(text: Seq<u8>, index: int) -> int
    decreases index,
{
    if index <= 0 {
        0
    } else if is_char_boundary(text, index - 1) {
        index - 1
    } else {
        prev_boundary(text, index - 1)
    }
}

/// The first character boundary of `text` after `index`: where the character
/// that starts at `index` ends.
pub open spec fn next_boundary(text: Seq<u8>, index: int) -> int
    decreases text.len() - index,
{
    if index >= text.len() {
        text.len() as int
    } else if is_char_boundary(text, index + 1) {
        index + 1
    } else {
        next_boundary(text, index + 1)
    }
}

/// Whether `text` ends with a line feed.
pub open spec fn ends_with_newline(text: Seq<u8>) -> bool {
    text.len() > 0 && text.last() == 0x0a
}

/// Taken from the documentation of `String::insert_str`, not proved here:
/// it puts `string` in front of the byte at `idx`. It panics where `idx` is
/// no character boundary, and where the new length is beyond the
/// `isize::MAX` bytes that an allocation can have.
pub assume_specification[ String::insert_str ](s: &mut String, idx: usize, string: &str)
    requires
        is_char_boundary(encode_utf8(old(s)@), idx as int),
        encode_utf8(old(s)@).len() + encode_utf8(string@).len() <= isize::MAX,
    ensures
        encode_utf8(final(s)@) == splice(encode_utf8(old(s)@), idx as int, encode_utf8(string@)),
;

/// Taken from the documentation of `String::remove`, not proved here: it
/// takes out the character that starts at byte `idx`, with all its bytes,
/// and returns it. It panics where `idx` is no character boundary or is not
/// less than the length.
pub assume_specification[ String::remove ](s: &mut String, idx: usize) -> (c: char)
    requires
        idx < encode_utf8(old(s)@).len(),
        is_char_boundary(encode_utf8(old(s)@), idx as int),
    ensures
        c == decode_first_scalar(
            encode_utf8(old(s)@).subrange(idx as int, encode_utf8(old(s)@).len() as int),
        ) as char,
        encode_utf8(final(s)@) == cut(
            encode_utf8(old(s)@),
            idx as int,
            idx + length_of_first_scalar(
                encode_utf8(old(s)@).subrange(idx as int, encode_utf8(old(s)@).len() as int),
            ),
        ),
;

/// Taken from the documentation of `String::split_off`, not proved here: it
/// keeps the bytes before `at` and returns the rest as a new string. It
/// panics where `at` is no character boundary.
pub assume_specification[ String::split_off ](s: &mut String, at: usize) -> (tail: String)
    requires
        is_char_boundary(encode_utf8(old(s)@), at as int),
    ensures
        encode_utf8(final(s)@) == encode_utf8(old(s)@).subrange(0, at as int),
        encode_utf8(tail@) == encode_utf8(old(s)@).subrange(
            at as int,
            encode_utf8(old(s)@).len() as int,
        ),
;

/// Taken from the documentation of `String::push`, not proved here: it puts
/// the character behind the others. It panics where the new length is beyond
/// the `isize::MAX` bytes that an allocation can have.
pub assume_specification[ String::push ](s: &mut String, ch: char)
    requires
        encode_utf8(old(s)@).len() + encode_scalar(ch as u32).len() <= isize::MAX,
    ensures
        final(s)@ == old(s)@.push(ch),
;

/// Whether two strings hold the same text.
pub fn str_eq(a: &str, b: &str) -> (equal: bool)
    ensures
        equal == (a@ == b@),
{
    let x = a.as_bytes();
    let y = b.as_bytes();
    proof {
        encode_utf8_decode_utf8(a@);
        encode_utf8_decode_utf8(b@);
    }
    if x.len() != y.len() {
        return false;
    }
    let mut at: usize = 0;
    while at < x.len()
        invariant
            x@ == encode_utf8(a@),
            y@ == encode_utf8(b@),
            x@.len() == y@.len(),
            at <= x@.len(),
            forall|k: int| 0 <= k < at ==> x@[k] == y@[k],
        decreases x@.len() - at,
    {
        if x[at] != y[at] {
            return false;
        }
        at += 1;
    }
    assert(x@ =~= y@);
    true
}

/// Searches backwards from `index` for the start of the character that
/// ends there.
pub fn start_of_char_before(text: &str, index: usize) -> (start: usize)
    requires
        0 < index,
        is_char_boundary(encode_utf8(text@), index as int),
    ensures
        start == prev_boundary(encode_utf8(text@), index as int),
        start < index,
        is_char_boundary(encode_utf8(text@), start as int),
        forall|k: int| start < k < index ==> !is_char_boundary(encode_utf8(text@), k),
{
    proof {
        encode_utf8_valid_utf8(text@);
    }
    let mut start = index - 1;
    while !text.is_char_boundary(start)
        invariant
            valid_utf8(encode_utf8(text@)),
            start < index,
            forall|k: int| start < k < index ==> !is_char_boundary(encode_utf8(text@), k),
        decreases start,
    {
        start = start - 1;
    }
    proof {
        lemma_prev_boundary_is(encode_utf8(text@), index as int, start as int);
    }
    start
}

/// Searches forwards from `index` for the end of the character that starts
/// there.
pub fn end_of_char_at(text: &str, index: usize) -> (end: usize)
    requires
        index < encode_utf8(text@).len(),
        is_char_boundary(encode_utf8(text@), index as int),
    ensures
        end == next_boundary(encode_utf8(text@), index as int),
        index < end <= encode_utf8(text@).len(),
        is_char_boundary(encode_utf8(text@), end as int),
        forall|k: int| index < k < end ==> !is_char_boundary(encode_utf8(text@), k),
{
    let len = text.as_bytes().len();
    proof {
        encode_utf8_valid_utf8(text@);
        is_char_boundary_start_end_of_seq(encode_utf8(text@));
    }
    let mut end = index + 1;
    while !text.is_char_boundary(end)
        invariant
            valid_utf8(encode_utf8(text@)),
            len == encode_utf8(text@).len(),
            index < end <= len,
            is_char_boundary(encode_utf8(text@), len as int),
            forall|k: int| index < k < end ==> !is_char_boundary(encode_utf8(text@), k),
        decreases len - end,
    {
        end = end + 1;
    }
    proof {
        lemma_next_boundary_is(encode_utf8(text@), index as int, end as int);
    }
    end
}

/// A character boundary lies within the text.
pub proof fn lemma_boundary_in_range(text: Seq<u8>, index: int)
    requires
        valid_utf8(text),
        is_char_boundary(text, index),
    ensures
        0 <= index <= text.len(),
{
}

/// The boundaries of two texts put together are those of the first, and
/// behind it those of the second.
pub proof fn lemma_boundary_of_concat(x: Seq<u8>, y: Seq<u8>, index: int)
    requires
        valid_utf8(x),
        valid_utf8(y),
    ensures
        valid_utf8(x + y),
        is_char_boundary(x + y, index) == (if index <= x.len() {
            is_char_boundary(x, index)
        } else {
            is_char_boundary(y, index - x.len())
        }),
{
    let z = x + y;
    valid_utf8_concat(x, y);
    is_char_boundary_start_end_of_seq(x);
    is_char_boundary_start_end_of_seq(y);
    is_char_boundary_start_end_of_seq(z);
    if 0 <= index < z.len() {
        is_char_boundary_iff_not_is_continuation_byte(z, index);
        if index < x.len() {
            is_char_boundary_iff_not_is_continuation_byte(x, index);
        } else {
            is_char_boundary_iff_not_is_continuation_byte(y, index - x.len());
        }
    }
}

/// A text cut in two at a boundary: both parts are valid, and the
/// boundaries of the whole are those of the parts.
pub proof fn lemma_boundary_of_parts(text: Seq<u8>, at: int, index: int)
    requires
        valid_utf8(text),
        is_char_boundary(text, at),
    ensures
        valid_utf8(text.subrange(0, at)),
        valid_utf8(text.subrange(at, text.len() as int)),
        is_char_boundary(text, index) == (if index <= at {
            is_char_boundary(text.subrange(0, at), index)
        } else {
            is_char_boundary(text.subrange(at, text.len() as int), index - at)
        }),
{
    valid_utf8_split(text, at);
    let x = text.subrange(0, at);
    let y = text.subrange(at, text.len() as int);
    assert(x + y =~= text);
    lemma_boundary_of_concat(x, y, index);
}

/// Inserting valid text at a boundary gives valid text. Its boundaries are
/// the old ones before the insertion, those of the inserted text within it,
/// and the old ones, moved by its length, behind it.
pub proof fn lemma_splice_boundary(text: Seq<u8>, at: int, inserted: Seq<u8>, index: int)
    requires
        valid_utf8(text),
        valid_utf8(inserted),
        is_char_boundary(text, at),
    ensures
        valid_utf8(splice(text, at, inserted)),
        splice(text, at, inserted).len() == text.len() + inserted.len(),
        is_char_boundary(splice(text, at, inserted), index) == (if index <= at {
            is_char_boundary(text, index)
        } else if index <= at + inserted.len() {
            is_char_boundary(inserted, index - at)
        } else {
            is_char_boundary(text, index - inserted.len())
        }),
{
    let x = text.subrange(0, at);
    let y = text.subrange(at, text.len() as int);
    lemma_boundary_of_parts(text, at, index);
    lemma_boundary_of_parts(text, at, index - inserted.len());
    lemma_boundary_of_concat(x, inserted, index);
    lemma_boundary_of_concat(x + inserted, y, index);
}

/// Removing the bytes between two boundaries gives valid text. Its
/// boundaries are the old ones before the gap, and the old ones, moved by
/// its length, behind it.
pub proof fn lemma_cut_boundary(text: Seq<u8>, from: int, to: int, index: int)
    requires
        valid_utf8(text),
        is_char_boundary(text, from),
        is_char_boundary(text, to),
        from <= to,
    ensures
        valid_utf8(cut(text, from, to)),
        cut(text, from, to).len() == text.len() - (to - from),
        is_char_boundary(cut(text, from, to), index) == (if index <= from {
            is_char_boundary(text, index)
        } else {
            is_char_boundary(text, index - from + to)
        }),
{
    let x = text.subrange(0, from);
    let y = text.subrange(to, text.len() as int);
    lemma_boundary_of_parts(text, from, index);
    lemma_boundary_of_parts(text, to, index - from + to);
    lemma_boundary_of_concat(x, y, index);
}

/// The boundary before `index` is a boundary, lies before `index`, and no
/// boundary lies between the two.
pub proof fn lemma_prev_boundary(text: Seq<u8>, index: int)
    requires
        valid_utf8(text),
        0 < index,
    ensures
        0 <= prev_boundary(text, index) < index,
        is_char_boundary(text, prev_boundary(text, index)),
        forall|k: int| prev_boundary(text, index) < k < index ==> !is_char_boundary(text, k),
    decreases index,
{
    if index > 1 && !is_char_boundary(text, index - 1) {
        lemma_prev_boundary(text, index - 1);
    }
}

/// The boundary after `index` is a boundary, lies behind `index`, and no
/// boundary lies between the two.
pub proof fn lemma_next_boundary(text: Seq<u8>, index: int)
    requires
        valid_utf8(text),
        0 <= index < text.len(),
    ensures
        index < next_boundary(text, index) <= text.len(),
        is_char_boundary(text, next_boundary(text, index)),
        forall|k: int| index < k < next_boundary(text, index) ==> !is_char_boundary(text, k),
    decreases text.len() - index,
{
    is_char_boundary_start_end_of_seq(text);
    if index + 1 < text.len() && !is_char_boundary(text, index + 1) {
        lemma_next_boundary(text, index + 1);
    }
}

/// With a boundary at `start` and none between `start` and `index`,
/// `start` is the boundary before `index`.
pub proof fn lemma_prev_boundary_is(text: Seq<u8>, index: int, start: int)
    requires
        valid_utf8(text),
        0 <= start < index,
        is_char_boundary(text, start),
        forall|k: int| start < k < index ==> !is_char_boundary(text, k),
    ensures
        prev_boundary(text, index) == start,
    decreases index - start,
{
    if start < index - 1 {
        lemma_prev_boundary_is(text, index - 1, start);
    }
}

/// With a boundary at `end` and none between `index` and `end`, `end` is
/// the boundary after `index`.
pub proof fn lemma_next_boundary_is(text: Seq<u8>, index: int, end: int)
    requires
        valid_utf8(text),
        0 <= index < end,
        is_char_boundary(text, end),
        forall|k: int| index < k < end ==> !is_char_boundary(text, k),
    ensures
        next_boundary(text, index) == end,
    decreases end - index,
{
    if index + 1 < end {
        lemma_next_boundary_is(text, index + 1, end);
    }
}

/// The character that starts at a boundary ends at the next boundary.
pub proof fn lemma_first_scalar_ends_at_next_boundary(text: Seq<u8>, index: int)
    requires
        valid_utf8(text),
        is_char_boundary(text, index),
        index < text.len(),
    ensures
        index + length_of_first_scalar(text.subrange(index, text.len() as int)) == next_boundary(
            text,
            index,
        ),
        index < next_boundary(text, index) <= text.len(),
        is_char_boundary(text, next_boundary(text, index)),
{
    let rest = text.subrange(index, text.len() as int);
    let width = length_of_first_scalar(rest);
    lemma_boundary_of_parts(text, index, index);
    assert(is_char_boundary(rest, width)) by {
        reveal_with_fuel(is_char_boundary, 2);
    }
    assert forall|k: int| index < k < index + width implies !is_char_boundary(text, k) by {
        lemma_boundary_of_parts(text, index, k);
        is_char_boundary_iff_not_is_continuation_byte(rest, k - index);
    }
    lemma_boundary_of_parts(text, index, index + width);
    lemma_next_boundary_is(text, index, index + width);
}

} // verus!
