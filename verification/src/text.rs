//! Byte positions in UTF-8 text.
//!
//! A cursor is a byte offset into the UTF-8 encoding of a text, and it may
//! stand only where a character begins or at the end. This file says what
//! the neighbouring positions of a cursor are, and what inserting and
//! removing one character does to the bytes.

use vstd::prelude::*;
use vstd::utf8::*;
use vstd::string::*;

verus! {

/// `pos` is a position where a cursor may stand in `bytes`.
pub open spec fn is_cursor_position(bytes: Seq<u8>, pos: int) -> bool {
    0 <= pos <= bytes.len() && is_char_boundary(bytes, pos)
}

/// `from` and `to` are positions of a cursor with no other position
/// between them: they enclose one character.
pub open spec fn encloses_one_char(bytes: Seq<u8>, from: int, to: int) -> bool {
    &&& 0 <= from < to <= bytes.len()
    &&& is_char_boundary(bytes, from)
    &&& is_char_boundary(bytes, to)
    &&& forall|i: int| from < i < to ==> !#[trigger] is_char_boundary(bytes, i)
}

/// The bytes that follow position `pos`.
pub open spec fn bytes_from(bytes: Seq<u8>, pos: int) -> Seq<u8> {
    bytes.subrange(pos, bytes.len() as int)
}

/// The number of bytes of the character that begins at `pos`.
pub open spec fn char_width_at(bytes: Seq<u8>, pos: int) -> int {
    length_of_first_scalar(bytes_from(bytes, pos))
}

/// `bytes` with the encoding of `ch` put in at `pos`.
pub open spec fn bytes_with_insert(bytes: Seq<u8>, pos: int, ch: char) -> Seq<u8> {
    bytes.subrange(0, pos) + encode_scalar(ch as u32) + bytes_from(bytes, pos)
}

/// `bytes` without the `width` bytes that begin at `pos`.
pub open spec fn bytes_without(bytes: Seq<u8>, pos: int, width: int) -> Seq<u8> {
    bytes.subrange(0, pos) + bytes_from(bytes, pos + width)
}

/// The character that begins at a cursor position before the end is one to
/// four bytes wide, and the position behind it is the next one of a cursor.
pub proof fn lemma_char_width(bytes: Seq<u8>, pos: int)
    requires
        valid_utf8(bytes),
        is_cursor_position(bytes, pos),
        pos < bytes.len(),
    ensures
        1 <= char_width_at(bytes, pos) <= 4,
        encloses_one_char(bytes, pos, pos + char_width_at(bytes, pos)),
        valid_first_scalar(bytes_from(bytes, pos)),
{
    let tail = bytes_from(bytes, pos);
    let width = char_width_at(bytes, pos);
    valid_utf8_split(bytes, pos);
    assert(valid_first_scalar(tail));
    assert(pos + width <= bytes.len());
    assert forall|i: int| pos < i < pos + width implies !#[trigger] is_char_boundary(bytes, i) by {
        assert(bytes[i] == tail[i - pos]);
        is_char_boundary_iff_not_is_continuation_byte(bytes, i);
    }
    if pos + width == bytes.len() {
        is_char_boundary_start_end_of_seq(bytes);
    } else {
        let rest = pop_first_scalar(tail);
        assert(valid_utf8(rest));
        assert(valid_first_scalar(rest));
        assert(rest[0] == bytes[pos + width]);
        is_char_boundary_iff_not_is_continuation_byte(bytes, pos + width);
    }
}

/// A cursor has one next position.
pub proof fn lemma_next_position_unique(bytes: Seq<u8>, from: int, to: int, other: int)
    requires
        encloses_one_char(bytes, from, to),
        encloses_one_char(bytes, from, other),
    ensures
        to == other,
{
    if to < other {
        assert(is_char_boundary(bytes, to));
    } else if other < to {
        assert(is_char_boundary(bytes, other));
    }
}

/// A cursor has one previous position.
pub proof fn lemma_previous_position_unique(bytes: Seq<u8>, from: int, other: int, to: int)
    requires
        encloses_one_char(bytes, from, to),
        encloses_one_char(bytes, other, to),
    ensures
        from == other,
{
    if from < other {
        assert(is_char_boundary(bytes, other));
    } else if other < from {
        assert(is_char_boundary(bytes, from));
    }
}

/// The position behind the character at `pos`; `pos` itself at the end.
pub open spec fn next_position(bytes: Seq<u8>, pos: int) -> int {
    if 0 <= pos < bytes.len() {
        pos + char_width_at(bytes, pos)
    } else {
        pos
    }
}

/// The position before the character that ends at `pos`; 0 at the start.
pub open spec fn previous_position(bytes: Seq<u8>, pos: int) -> int {
    if pos <= 0 {
        0
    } else {
        choose|from: int| encloses_one_char(bytes, from, pos)
    }
}

proof fn lemma_previous_exists(bytes: Seq<u8>, pos: int, probe: int)
    requires
        valid_utf8(bytes),
        is_cursor_position(bytes, pos),
        0 <= probe < pos,
        forall|i: int| probe < i < pos ==> !#[trigger] is_char_boundary(bytes, i),
    ensures
        exists|from: int| encloses_one_char(bytes, from, pos),
    decreases probe,
{
    if is_char_boundary(bytes, probe) {
        assert(encloses_one_char(bytes, probe, pos));
    } else {
        lemma_previous_exists(bytes, pos, probe - 1);
    }
}

/// Before a cursor that is not at the start stands one character, and
/// `previous_position` is where it begins.
pub proof fn lemma_previous_position(bytes: Seq<u8>, pos: int)
    requires
        valid_utf8(bytes),
        is_cursor_position(bytes, pos),
        pos > 0,
    ensures
        encloses_one_char(bytes, previous_position(bytes, pos), pos),
{
    lemma_previous_exists(bytes, pos, pos - 1);
}

/// Stepping right and then left, or left and then right, comes back to
/// where the cursor stood.
pub proof fn lemma_steps_cancel(bytes: Seq<u8>, pos: int)
    requires
        valid_utf8(bytes),
        is_cursor_position(bytes, pos),
    ensures
        pos < bytes.len() ==> previous_position(bytes, next_position(bytes, pos)) == pos,
        pos > 0 ==> next_position(bytes, previous_position(bytes, pos)) == pos,
{
    if pos < bytes.len() {
        lemma_char_width(bytes, pos);
        let next = next_position(bytes, pos);
        lemma_previous_position(bytes, next);
        lemma_previous_position_unique(bytes, pos, previous_position(bytes, next), next);
    }
    if pos > 0 {
        lemma_previous_position(bytes, pos);
        let previous = previous_position(bytes, pos);
        lemma_char_width(bytes, previous);
        lemma_next_position_unique(bytes, previous, next_position(bytes, previous), pos);
    }
}

/// The number of characters that stand before position `pos`.
pub open spec fn chars_before(bytes: Seq<u8>, pos: int) -> int {
    decode_utf8(bytes.subrange(0, pos)).len() as int
}

/// The encoding of two texts in a row is their encodings in a row.
pub proof fn lemma_encode_concat(first: Seq<char>, second: Seq<char>)
    ensures
        encode_utf8(first + second) == encode_utf8(first) + encode_utf8(second),
    decreases first.len(),
{
    if first.len() == 0 {
        assert(first + second =~= second);
        assert(encode_utf8(first) + encode_utf8(second) =~= encode_utf8(second));
    } else {
        lemma_encode_concat(first.drop_first(), second);
        assert((first + second).drop_first() =~= first.drop_first() + second);
        assert(encode_utf8(first + second) =~= encode_utf8(first) + encode_utf8(second));
    }
}

/// A cursor position parts the text into the characters before it and
/// those behind it, and the bytes into their encodings.
pub proof fn lemma_split_at_position(text: Seq<char>, pos: int)
    requires
        is_cursor_position(encode_utf8(text), pos),
    ensures
        0 <= chars_before(encode_utf8(text), pos) <= text.len(),
        encode_utf8(text.take(chars_before(encode_utf8(text), pos))) == encode_utf8(
            text,
        ).subrange(0, pos),
        encode_utf8(text.skip(chars_before(encode_utf8(text), pos))) == bytes_from(
            encode_utf8(text),
            pos,
        ),
{
    let bytes = encode_utf8(text);
    let head = bytes.subrange(0, pos);
    let tail = bytes_from(bytes, pos);
    encode_utf8_valid_utf8(text);
    encode_utf8_decode_utf8(text);
    valid_utf8_split(bytes, pos);
    decode_utf8_split(bytes, pos);
    decode_utf8_encode_utf8(head);
    decode_utf8_encode_utf8(tail);
    let count = chars_before(bytes, pos);
    assert(text =~= decode_utf8(head) + decode_utf8(tail));
    assert(text.take(count) =~= decode_utf8(head));
    assert(text.skip(count) =~= decode_utf8(tail));
}

/// Putting the encoding of `ch` in at a cursor position puts `ch` in
/// among the characters, behind those that stood before the cursor.
pub proof fn lemma_insert_is_char_insert(text: Seq<char>, pos: int, ch: char)
    requires
        is_cursor_position(encode_utf8(text), pos),
    ensures
        decode_utf8(bytes_with_insert(encode_utf8(text), pos, ch)) == text.insert(
            chars_before(encode_utf8(text), pos),
            ch,
        ),
        chars_before(
            bytes_with_insert(encode_utf8(text), pos, ch),
            pos + encode_scalar(ch as u32).len(),
        ) == chars_before(encode_utf8(text), pos) + 1,
{
    let bytes = encode_utf8(text);
    let count = chars_before(bytes, pos);
    let after = bytes_with_insert(bytes, pos, ch);
    let encoded = encode_scalar(ch as u32);
    lemma_split_at_position(text, pos);
    lemma_encoded_char(ch);
    let head = text.take(count);
    let tail = text.skip(count);
    lemma_encode_concat(head, seq![ch]);
    lemma_encode_concat(head + seq![ch], tail);
    assert(text.insert(count, ch) =~= head + seq![ch] + tail);
    encode_utf8_decode_utf8(text.insert(count, ch));
    assert(after.subrange(0, pos + encoded.len()) =~= encode_utf8(head + seq![ch]));
    encode_utf8_decode_utf8(head + seq![ch]);
}

/// Taking out the bytes of the character at a cursor position takes out
/// the character that follows those standing before the cursor.
pub proof fn lemma_remove_is_char_remove(text: Seq<char>, pos: int)
    requires
        is_cursor_position(encode_utf8(text), pos),
        pos < encode_utf8(text).len(),
    ensures
        0 <= chars_before(encode_utf8(text), pos) < text.len(),
        char_width_at(encode_utf8(text), pos) == encode_scalar(
            text[chars_before(encode_utf8(text), pos)] as u32,
        ).len(),
        decode_utf8(
            bytes_without(encode_utf8(text), pos, char_width_at(encode_utf8(text), pos)),
        ) == text.remove(chars_before(encode_utf8(text), pos)),
        chars_before(encode_utf8(text), next_position(encode_utf8(text), pos)) == chars_before(
            encode_utf8(text),
            pos,
        ) + 1,
{
    let bytes = encode_utf8(text);
    let count = chars_before(bytes, pos);
    lemma_split_at_position(text, pos);
    let head = text.take(count);
    let tail = text.skip(count);
    assert(encode_utf8(Seq::<char>::empty()) == Seq::<u8>::empty());
    if count == text.len() {
        assert(tail =~= Seq::<char>::empty());
    }
    let rest = bytes_from(bytes, pos);
    assert(rest.len() > 0);
    assert(tail.len() > 0);
    encode_utf8_first_scalar(tail);
    let width = char_width_at(bytes, pos);
    assert(tail[0] == text[count]);
    assert(tail.drop_first() =~= text.skip(count + 1));
    assert(rest == encode_scalar(tail[0] as u32) + encode_utf8(tail.drop_first()));
    assert(rest.subrange(width, rest.len() as int) =~= encode_utf8(tail.drop_first()));
    assert(bytes_from(bytes, pos + width) =~= rest.subrange(width, rest.len() as int));
    lemma_encode_concat(head, text.skip(count + 1));
    assert(text.remove(count) =~= head + text.skip(count + 1));
    encode_utf8_decode_utf8(text.remove(count));
    lemma_encode_concat(head, seq![text[count]]);
    lemma_encoded_char(text[count]);
    assert(bytes.subrange(0, pos + width) =~= encode_utf8(head) + encode_scalar(
        text[count] as u32,
    ));
    encode_utf8_decode_utf8(head + seq![text[count]]);
}

/// `after` is `before` without the character `removed`, which began at
/// `pos`.
pub open spec fn removes_char(before: Seq<u8>, pos: int, removed: char, after: Seq<u8>) -> bool {
    let encoded = encode_scalar(removed as u32);
    &&& pos + encoded.len() <= before.len()
    &&& before.subrange(pos, pos + encoded.len()) == encoded
    &&& after == bytes_without(before, pos, encoded.len() as int)
}

/// The encoding of one character is one character wide.
pub proof fn lemma_encoded_char(ch: char)
    ensures
        encode_utf8(seq![ch]) == encode_scalar(ch as u32),
        valid_utf8(encode_scalar(ch as u32)),
        valid_first_scalar(encode_scalar(ch as u32)),
        length_of_first_scalar(encode_scalar(ch as u32)) == encode_scalar(ch as u32).len(),
        1 <= encode_scalar(ch as u32).len() <= 4,
{
    let one = seq![ch];
    assert(one.drop_first() == Seq::<char>::empty());
    assert(encode_utf8(Seq::<char>::empty()) == Seq::<u8>::empty());
    assert(encode_utf8(one) == encode_scalar(one[0] as u32) + encode_utf8(one.drop_first()));
    assert(encode_utf8(one) =~= encode_scalar(ch as u32));
    encode_utf8_first_scalar(one);
    encode_utf8_valid_utf8(one);
}

/// After a character has been put in at a cursor position, the cursor may
/// stand before it and behind it, and nowhere between.
pub proof fn lemma_insert_positions(before: Seq<u8>, pos: int, ch: char)
    requires
        valid_utf8(before),
        is_cursor_position(before, pos),
    ensures
        valid_utf8(bytes_with_insert(before, pos, ch)),
        encloses_one_char(
            bytes_with_insert(before, pos, ch),
            pos,
            pos + encode_scalar(ch as u32).len(),
        ),
{
    let encoded = encode_scalar(ch as u32);
    let after = bytes_with_insert(before, pos, ch);
    lemma_encoded_char(ch);
    valid_utf8_split(before, pos);
    valid_utf8_concat(before.subrange(0, pos), encoded);
    valid_utf8_concat(before.subrange(0, pos) + encoded, bytes_from(before, pos));
    assert(after[pos] == encoded[0]);
    is_char_boundary_iff_not_is_continuation_byte(after, pos);
    assert(bytes_from(after, pos)[0] == encoded[0]);
    lemma_char_width(after, pos);
}

/// Without the character at a cursor position the bytes are still a text,
/// and the cursor may still stand there.
pub proof fn lemma_without_positions(bytes: Seq<u8>, pos: int)
    requires
        valid_utf8(bytes),
        is_cursor_position(bytes, pos),
        pos < bytes.len(),
    ensures
        valid_utf8(bytes_without(bytes, pos, char_width_at(bytes, pos))),
        is_cursor_position(bytes_without(bytes, pos, char_width_at(bytes, pos)), pos),
        chars_before(bytes_without(bytes, pos, char_width_at(bytes, pos)), pos) == chars_before(
            bytes,
            pos,
        ),
{
    let width = char_width_at(bytes, pos);
    let after = bytes_without(bytes, pos, width);
    lemma_char_width(bytes, pos);
    valid_utf8_split(bytes, pos);
    valid_utf8_split(bytes, pos + width);
    valid_utf8_concat(bytes.subrange(0, pos), bytes_from(bytes, pos + width));
    assert(after.subrange(0, pos) =~= bytes.subrange(0, pos));
    if pos == after.len() {
        is_char_boundary_start_end_of_seq(after);
    } else {
        assert(after[pos] == bytes[pos + width]);
        is_char_boundary_iff_not_is_continuation_byte(bytes, pos + width);
        is_char_boundary_iff_not_is_continuation_byte(after, pos);
    }
}

/// After the character at a cursor position has been removed, the cursor
/// may still stand there; and the character was as wide as the encoding
/// of what was removed.
pub proof fn lemma_remove_positions(before: Seq<u8>, pos: int, removed: char, after: Seq<u8>)
    requires
        valid_utf8(before),
        is_cursor_position(before, pos),
        pos < before.len(),
        removes_char(before, pos, removed, after),
    ensures
        encode_scalar(removed as u32).len() == char_width_at(before, pos),
        after == bytes_without(before, pos, char_width_at(before, pos)),
        valid_utf8(after),
        is_cursor_position(after, pos),
{
    let encoded = encode_scalar(removed as u32);
    lemma_encoded_char(removed);
    assert(before.subrange(pos, pos + encoded.len())[0] == encoded[0]);
    assert(bytes_from(before, pos)[0] == encoded[0]);
    lemma_without_positions(before, pos);
}

/// Calls `String::insert`, which puts `ch` in at byte offset `pos`: the
/// bytes before `pos` stay, the encoding of `ch` follows, then the bytes
/// that were at and behind `pos`. `String::insert` panics where `pos` is
/// beyond the end or inside a character, which `requires` excludes.
#[verifier::external_body]
pub(crate) fn insert_char(text: &mut String, pos: usize, ch: char)
    requires
        is_cursor_position(encode_utf8(old(text)@), pos as int),
    ensures
        encode_utf8(final(text)@) == bytes_with_insert(encode_utf8(old(text)@), pos as int, ch),
{
    text.insert(pos, ch)
}

/// Calls `String::remove`, which takes out the character that begins at
/// byte offset `pos` and returns it: the bytes of its encoding leave, all
/// others stay in order. `String::remove` panics where `pos` is at or
/// beyond the end or inside a character, which `requires` excludes.
#[verifier::external_body]
pub(crate) fn remove_char(text: &mut String, pos: usize) -> (removed: char)
    requires
        is_cursor_position(encode_utf8(old(text)@), pos as int),
        pos < encode_utf8(old(text)@).len(),
    ensures
        removes_char(encode_utf8(old(text)@), pos as int, removed, encode_utf8(final(text)@)),
{
    text.remove(pos)
}

/// The length of `text` in bytes.
pub fn byte_len(text: &str) -> (len: usize)
    ensures
        len == text.spec_bytes().len(),
{
    text.as_bytes().len()
}

} // verus!
