//! Slicing text by byte positions of its UTF-8 form.
use vstd::prelude::*;
use vstd::string::*;
use vstd::utf8::*;

verus! {

/// The conditions under which the bytes from `start` up to `end` of the
/// UTF-8 form of `text` are a text of their own: both are boundaries
/// between characters, and `start` is not after `end`.
pub open spec fn sliceable(text: Seq<char>, start: int, end: int) -> bool {
    let bytes = encode_utf8(text);
    0 <= start <= end <= bytes.len() && is_char_boundary(bytes, start) && is_char_boundary(
        bytes,
        end,
    )
}

/// The text whose UTF-8 form is the bytes from `start` up to `end` of the
/// form of `text`.
pub open spec fn slice(text: Seq<char>, start: int, end: int) -> Seq<char> {
    decode_utf8(encode_utf8(text).subrange(start, end))
}

/// A boundary between characters of a text is one of every prefix that
/// reaches it and ends on a boundary itself.
proof fn lemma_boundary_in_prefix(bytes: Seq<u8>, start: int, end: int)
    requires
        valid_utf8(bytes),
        0 <= start <= end <= bytes.len(),
        is_char_boundary(bytes, start),
        is_char_boundary(bytes, end),
    ensures
        valid_utf8(bytes.subrange(0, end)),
        is_char_boundary(bytes.subrange(0, end), start),
{
    let head = bytes.subrange(0, end);
    valid_utf8_split(bytes, end);
    if start == end {
        is_char_boundary_start_end_of_seq(head);
    } else {
        is_char_boundary_iff_not_is_continuation_byte(bytes, start);
        assert(head[start] == bytes[start]);
        is_char_boundary_iff_not_is_continuation_byte(head, start);
    }
}

/// The part of `text` from byte `start` up to byte `end`, where that is a
/// text of its own.
pub fn slice_str<'a>(text: &'a str, start: usize, end: usize) -> (part: Option<&'a str>)
    ensures
        part is Some == sliceable(text@, start as int, end as int),
        part matches Some(found) ==> found@ == slice(text@, start as int, end as int),
{
    let len = text.as_bytes().len();
    if end < start || end > len {
        return None;
    }
    if !text.is_char_boundary(start) || !text.is_char_boundary(end) {
        return None;
    }
    let ghost bytes = encode_utf8(text@);
    proof {
        encode_utf8_valid_utf8(text@);
        lemma_boundary_in_prefix(bytes, start as int, end as int);
    }
    let (head, _) = text.split_at(end);
    let (_, middle) = head.split_at(start);
    proof {
        assert(middle.spec_bytes() =~= bytes.subrange(start as int, end as int));
        encode_utf8_decode_utf8(middle@);
    }
    Some(middle)
}

/// Whether byte position `at` of the UTF-8 form of `text` lies between two
/// characters, or at either end.
pub open spec fn boundary(text: Seq<char>, at: int) -> bool {
    0 <= at <= encode_utf8(text).len() && is_char_boundary(encode_utf8(text), at)
}

/// The bytes of the UTF-8 form of `text` from position `at` on.
pub open spec fn bytes_from(text: Seq<char>, at: int) -> Seq<u8> {
    encode_utf8(text).subrange(at, encode_utf8(text).len() as int)
}

/// The character whose UTF-8 form starts at byte position `at`.
pub open spec fn char_at(text: Seq<char>, at: int) -> char {
    decode_first_scalar(bytes_from(text, at)) as char
}

/// The number of bytes of the character whose UTF-8 form starts at `at`.
pub open spec fn width_at(text: Seq<char>, at: int) -> int {
    length_of_first_scalar(bytes_from(text, at))
}

/// A position that holds a byte is a boundary exactly if that byte does
/// not continue a character; the end of the text is a boundary.
pub proof fn lemma_boundary_by_byte(text: Seq<char>, at: int)
    requires
        0 <= at <= encode_utf8(text).len(),
    ensures
        at < encode_utf8(text).len() ==> (boundary(text, at) <==> !is_continuation_byte(
            encode_utf8(text)[at],
        )),
        at == encode_utf8(text).len() ==> boundary(text, at),
{
    let bytes = encode_utf8(text);
    encode_utf8_valid_utf8(text);
    if at < bytes.len() {
        is_char_boundary_iff_not_is_continuation_byte(bytes, at);
    } else {
        is_char_boundary_start_end_of_seq(bytes);
    }
}

/// A character that starts at a boundary before the end of the text takes
/// one to four bytes, all inside the text, and is followed by a boundary.
pub proof fn lemma_next_boundary(text: Seq<char>, at: int)
    requires
        boundary(text, at),
        at < encode_utf8(text).len(),
    ensures
        1 <= width_at(text, at) <= 4,
        at + width_at(text, at) <= encode_utf8(text).len(),
        boundary(text, at + width_at(text, at)),
        sliceable(text, at, at + width_at(text, at)),
        slice(text, at, at + width_at(text, at)) == seq![char_at(text, at)],
        !is_continuation_byte(encode_utf8(text)[at]),
        (encode_utf8(text)[at] < 0x80) == (width_at(text, at) == 1),
        encode_utf8(text)[at] < 0x80 ==> char_at(text, at) as u32 == encode_utf8(text)[at],
        encode_utf8(text)[at] >= 0x80 ==> char_at(text, at) as u32 >= 0x80,
{
    let bytes = encode_utf8(text);
    encode_utf8_valid_utf8(text);
    let rest = bytes.subrange(at, bytes.len() as int);
    valid_utf8_split(bytes, at);
    assert(valid_first_scalar(rest) && valid_utf8(pop_first_scalar(rest)));
    let width = length_of_first_scalar(rest);
    assert(rest[0] == bytes[at]);
    let after = pop_first_scalar(rest);
    if at + width < bytes.len() {
        assert(valid_first_scalar(after));
        assert(after[0] == bytes[at + width]);
        lemma_boundary_by_byte(text, at + width);
    } else {
        lemma_boundary_by_byte(text, at + width);
    }
    lemma_boundary_by_byte(text, at);
    let first = bytes.subrange(at, at + width);
    assert(first =~= take_first_scalar(rest));
    assert(valid_first_scalar(first)) by {
        assert(first[0] == rest[0]);
        if width >= 2 {
            assert(first[1] == rest[1]);
        }
        if width >= 3 {
            assert(first[2] == rest[2]);
        }
        if width >= 4 {
            assert(first[3] == rest[3]);
        }
    }
    assert(pop_first_scalar(first) =~= Seq::<u8>::empty());
    assert(valid_utf8(pop_first_scalar(first)));
    assert(valid_utf8(first));
    assert(decode_utf8(pop_first_scalar(first)) =~= Seq::<char>::empty());
    assert(decode_first_scalar(first) == decode_first_scalar(rest)) by {
        assert(first[0] == rest[0]);
        if width >= 2 {
            assert(first[1] == rest[1]);
        }
        if width >= 3 {
            assert(first[2] == rest[2]);
        }
        if width >= 4 {
            assert(first[3] == rest[3]);
        }
    }
    assert(decode_utf8(first) =~= seq![char_at(text, at)]);
    lemma_scalar_range(rest);
}

/// The first character of a text in UTF-8 is below 128 exactly if it takes
/// one byte, and then it is that byte.
proof fn lemma_scalar_range(bytes: Seq<u8>)
    requires
        valid_first_scalar(bytes),
    ensures
        bytes[0] < 0x80 ==> (decode_first_scalar(bytes) as char) as u32 == bytes[0],
        bytes[0] >= 0x80 ==> (decode_first_scalar(bytes) as char) as u32 >= 0x80,
{
    let value = decode_first_scalar(bytes);
    let first = bytes[0];
    if first < 0x80 {
        assert(value == first) by {
            assert((first & 0x7f) as u32 == first as u32) by (bit_vector)
                requires
                    first < 0x80u8,
            ;
        }
    } else {
        assert(value >= 0x80 && value <= 0x10ffff && !(0xD800 <= value <= 0xDFFF)) by {
            lemma_scalar_bound(bytes);
        }
    }
    if value <= 0x10ffff && !(0xD800 <= value <= 0xDFFF) {
        char_u32_cast(value as char, value);
    }
}

proof fn lemma_scalar_bound(bytes: Seq<u8>)
    requires
        valid_first_scalar(bytes),
        bytes[0] >= 0x80,
    ensures
        0x80 <= decode_first_scalar(bytes) <= 0x10ffff,
        !(0xD800 <= decode_first_scalar(bytes) <= 0xDFFF),
{
    let a = bytes[0];
    if is_leading_byte_width_2(a) {
        let b = bytes[1];
        assert((((a & 0x1f) as u32) << 6 | ((b & 0x3f) as u32)) <= 0x7ff) by (bit_vector);
    } else if is_leading_byte_width_3(a) {
        let b = bytes[1];
        let c = bytes[2];
        assert((((a & 0x0f) as u32) << 12 | ((b & 0x3f) as u32) << 6 | ((c & 0x3f) as u32))
            <= 0xffff) by (bit_vector);
    }
}

/// The character that starts at byte `at` of `text`, and the number of
/// bytes it takes.
pub fn first_char(text: &str, at: usize) -> (found: (char, usize))
    requires
        boundary(text@, at as int),
        at < encode_utf8(text@).len(),
    ensures
        found.0 == char_at(text@, at as int),
        found.1 == width_at(text@, at as int),
        at + found.1 <= encode_utf8(text@).len(),
{
    proof {
        lemma_next_boundary(text@, at as int);
    }
    let lead = text.as_bytes()[at];
    let width: usize = if lead < 0x80 {
        1
    } else if lead < 0xe0 {
        2
    } else if lead < 0xf0 {
        3
    } else {
        4
    };
    assert(width == width_at(text@, at as int)) by {
        let rest = bytes_from(text@, at as int);
        encode_utf8_valid_utf8(text@);
        valid_utf8_split(encode_utf8(text@), at as int);
        assert(valid_first_scalar(rest));
        assert(rest[0] == lead);
    }
    match slice_str(text, at, at + width) {
        Some(part) => (part.get_char(0), width),
        None => ('\0', width),
    }
}

} // verus!
