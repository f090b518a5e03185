//! Length-prefixed framing of protocol messages on a byte stream.
//!
//! A frame is the header `Content-Length: <decimal>`, a blank line, and then
//! exactly that many bytes of body.

use crate::buffer::{
    buffer_advance, buffer_bytes, buffer_extend, buffer_len, buffer_reserve, buffered,
};
use crate::bytes::{
    contains, find, first_index, first_occurrence, is_utf8, lemma_first_index,
    lemma_first_index_exists, lemma_occurs_in_prefix, occurs_at,
};
use crate::decimal::{
    all_digits, decimal_digits, is_digit, lemma_digits_round_trip, parse_length, parse_usize,
    push_decimal, unsigned_part,
};
use crate::json::{json_parse, json_view, parse_value};
use serde_json::Value;
use tokio_util::bytes::BytesMut;
use vstd::prelude::*;
use vstd::slice::slice_subrange;
use vstd::utf8::{encode_utf8, is_ascii_chars, valid_utf8};

verus! {

/// Why a frame could not be decoded.
#[derive(Clone, Copy, Debug, PartialEq, Eq, Structural)]
pub enum DecodeError {
    /// The bytes between the header name and the blank line are not UTF-8.
    LengthNotUtf8,
    /// The bytes between the header name and the blank line are no number.
    LengthNotNumeric,
    /// The body is no well-formed structured value.
    BodyNotJson,
}

/// Why a message could not be encoded.
#[derive(Debug)]
pub enum EncodeError {
    /// The message could not be serialized.
    NotSerialized(serde_json::Error),
    /// The buffer cannot take the frame.
    TooLarge,
}

/// What the bytes received so far amount to.
pub ghost enum Framing {
    /// More bytes are needed before anything can be said.
    Incomplete,
    /// The header is complete and wrong.
    Malformed(DecodeError),
    /// One whole frame is there: its body starts at `body_start` and is
    /// `body_len` bytes long.
    Complete { body_start: int, body_len: int },
}

/// The blank line that ends the header block: `\r\n\r\n`.
pub open spec fn terminator() -> Seq<u8> {
    seq![13u8, 10u8, 13u8, 10u8]
}

/// The header name with its separator: `Content-Length: `.
pub open spec fn header_prefix() -> Seq<u8> {
    seq![
        67u8, 111u8, 110u8, 116u8, 101u8, 110u8, 116u8, 45u8, 76u8, 101u8, 110u8, 103u8, 116u8,
        104u8, 58u8, 32u8,
    ]
}

/// The header block of `buf`: what precedes the first blank line.
pub open spec fn header_block(buf: Seq<u8>) -> Seq<u8> {
    buf.subrange(0, first_index(buf, terminator()))
}

/// Whether `buf` holds a whole header: a blank line, and the header name
/// before it.
pub open spec fn has_header(buf: Seq<u8>) -> bool {
    contains(buf, terminator()) && contains(header_block(buf), header_prefix())
}

/// The bytes that write the length: from the first header name to the blank
/// line.
pub open spec fn length_field(buf: Seq<u8>) -> Seq<u8> {
    header_block(buf).subrange(
        first_index(header_block(buf), header_prefix()) + header_prefix().len(),
        header_block(buf).len() as int,
    )
}

/// The index at which the body starts: just after the blank line.
pub open spec fn body_start(buf: Seq<u8>) -> int {
    first_index(buf, terminator()) + terminator().len()
}

/// The body length that the header of `buf` declares, where `buf` holds a
/// whole header that writes one.
pub open spec fn declared_length(buf: Seq<u8>) -> Option<usize> {
    if has_header(buf) && valid_utf8(length_field(buf)) {
        parse_length(length_field(buf))
    } else {
        None
    }
}

/// What the decoder makes of the bytes `buf`.
pub open spec fn framing(buf: Seq<u8>) -> Framing {
    if !has_header(buf) {
        Framing::Incomplete
    } else if !valid_utf8(length_field(buf)) {
        Framing::Malformed(DecodeError::LengthNotUtf8)
    } else {
        match parse_length(length_field(buf)) {
            None => Framing::Malformed(DecodeError::LengthNotNumeric),
            Some(n) => if buf.len() < body_start(buf) + n {
                Framing::Incomplete
            } else {
                Framing::Complete { body_start: body_start(buf), body_len: n as int }
            },
        }
    }
}

/// The frame that carries `body`.
pub open spec fn frame(body: Seq<u8>) -> Seq<u8> {
    header_prefix() + decimal_digits(body.len()) + terminator() + body
}

/// Takes one frame off the front of `src`, if a whole one is there.
///
/// Where more bytes are needed the result is `Ok(None)`, and where the header
/// is malformed it is the error; in both cases `src` is left as it was. Where
/// a whole frame is there, exactly its bytes are removed from `src`, and the
/// result is the value that the body writes, or `BodyNotJson`.
pub fn decode(src: &mut BytesMut) -> (decoded: Result<Option<Value>, DecodeError>)
    ensures
        match framing(buffered(*old(src))) {
            Framing::Incomplete => {
                &&& decoded matches Ok(None)
                &&& buffered(*final(src)) == buffered(*old(src))
            },
            Framing::Malformed(error) => {
                &&& decoded matches Err(e) && e == error
                &&& buffered(*final(src)) == buffered(*old(src))
            },
            Framing::Complete { body_start, body_len } => {
                &&& buffered(*final(src)) == buffered(*old(src)).subrange(
                    body_start + body_len,
                    buffered(*old(src)).len() as int,
                )
                &&& match json_parse(
                    buffered(*old(src)).subrange(body_start, body_start + body_len),
                ) {
                    Some(tree) => decoded matches Ok(Some(value)) && json_view(value) == tree,
                    None => decoded matches Err(e) && e == DecodeError::BodyNotJson,
                }
            },
        },
{
    let ghost buf = buffered(*src);
    let bytes = buffer_bytes(src);
    let available = bytes.len();
    let blank_line: [u8; 4] = [13, 10, 13, 10];
    assert(blank_line@ =~= terminator());
    let index = match find(bytes, blank_line.as_slice()) {
        None => {
            return Ok(None);
        },
        Some(index) => index,
    };
    proof {
        lemma_first_index(buf, terminator(), index as int);
        assert(terminator().len() == 4);
        assert(index + 4 <= buf.len());
    }
    let head = slice_subrange(bytes, 0, index);
    let name: [u8; 16] = [67, 111, 110, 116, 101, 110, 116, 45, 76, 101, 110, 103, 116, 104, 58, 32];
    assert(name@ =~= header_prefix());
    let header_index = match find(head, name.as_slice()) {
        None => {
            return Ok(None);
        },
        Some(header_index) => header_index,
    };
    proof {
        lemma_first_index(head@, header_prefix(), header_index as int);
        assert(header_prefix().len() == 16);
        assert(head@ == header_block(buf));
        assert(has_header(buf));
    }
    let field = slice_subrange(head, header_index + 16, index);
    assert(field@ == length_field(buf));
    if !is_utf8(field) {
        return Err(DecodeError::LengthNotUtf8);
    }
    let content_length = match parse_usize(field) {
        None => {
            return Err(DecodeError::LengthNotNumeric);
        },
        Some(content_length) => content_length,
    };
    let total_length = match (index + 4).checked_add(content_length) {
        None => {
            return Ok(None);
        },
        Some(total_length) => total_length,
    };
    if available < total_length {
        return Ok(None);
    }
    buffer_advance(src, index + 4);
    let parsed = parse_value(slice_subrange(buffer_bytes(src), 0, content_length));
    assert(buffered(*src).subrange(0, content_length as int) =~= buf.subrange(
        index + 4,
        index + 4 + content_length,
    ));
    buffer_advance(src, content_length);
    assert(buffered(*src) =~= buf.subrange(index + 4 + content_length, buf.len() as int));
    match parsed {
        Err(_) => Err(DecodeError::BodyNotJson),
        Ok(value) => Ok(Some(value)),
    }
}

/// Appends the bytes of `bytes` to `out`.
fn push_all(out: &mut Vec<u8>, bytes: &[u8])
    ensures
        final(out)@ == old(out)@ + bytes@,
{
    let mut i: usize = 0;
    while i < bytes.len()
        invariant
            i <= bytes@.len(),
            out@ == old(out)@ + bytes@.subrange(0, i as int),
        decreases bytes@.len() - i,
    {
        out.push(bytes[i]);
        i = i + 1;
        assert(out@ =~= old(out)@ + bytes@.subrange(0, i as int));
    }
    assert(bytes@.subrange(0, i as int) =~= bytes@);
}

/// Appends to `dst` the frame that carries the text `msg`.
///
/// Room for the whole frame is reserved before the first byte is written.
pub fn encode_frame(msg: &str, dst: &mut BytesMut)
    requires
        frame_fits(buffered(*old(dst)).len(), encode_utf8(msg@)),
    ensures
        buffered(*final(dst)) == buffered(*old(dst)) + frame(encode_utf8(msg@)),
{
    let body = msg.as_bytes();
    let length = body.len();
    proof {
        lemma_digits_len(length as nat);
    }
    buffer_reserve(dst, length + number_of_digits(length) + 20);
    let name: [u8; 16] = [67, 111, 110, 116, 101, 110, 116, 45, 76, 101, 110, 103, 116, 104, 58, 32];
    let blank_line: [u8; 4] = [13, 10, 13, 10];
    assert(name@ =~= header_prefix());
    assert(blank_line@ =~= terminator());
    let mut header: Vec<u8> = Vec::new();
    push_all(&mut header, name.as_slice());
    push_decimal(&mut header, length);
    push_all(&mut header, blank_line.as_slice());
    assert(header@ =~= header_prefix() + decimal_digits(length as nat) + terminator());
    buffer_extend(dst, header.as_slice());
    buffer_extend(dst, body);
    assert(buffered(*dst) =~= buffered(*old(dst)) + frame(encode_utf8(msg@)));
}

/// Whether a buffer that holds `held` bytes can take the frame of a body
/// of `body` bytes.
pub open spec fn frame_fits(held: nat, body: Seq<u8>) -> bool {
    held + frame(body).len() <= isize::MAX
}

/// Frames a message that has been serialized. Nothing is written unless
/// the whole frame can be: a serializer's error is handed on, and a frame
/// that the buffer cannot take is refused.
pub fn encode(serialized: Result<String, serde_json::Error>, dst: &mut BytesMut) -> (written: Result<
    (),
    EncodeError,
>)
    ensures
        match serialized {
            Ok(msg) => if frame_fits(buffered(*old(dst)).len(), encode_utf8(msg@)) {
                &&& written is Ok
                &&& buffered(*final(dst)) == buffered(*old(dst)) + frame(encode_utf8(msg@))
            } else {
                &&& written matches Err(EncodeError::TooLarge)
                &&& buffered(*final(dst)) == buffered(*old(dst))
            },
            Err(error) => {
                &&& written matches Err(EncodeError::NotSerialized(e)) && e == error
                &&& buffered(*final(dst)) == buffered(*old(dst))
            },
        },
{
    let msg = match serialized {
        Ok(msg) => msg,
        Err(error) => {
            return Err(EncodeError::NotSerialized(error));
        },
    };
    let length = msg.as_str().as_bytes().len();
    let digits = if length == 0 {
        1
    } else {
        number_of_digits(length)
    };
    proof {
        lemma_digits_len(length as nat);
        lemma_frame_len(encode_utf8(msg@));
        lemma_digit_count_le(length as nat);
    }
    let limit: usize = isize::MAX as usize;
    let held = buffer_len(dst);
    if length > limit - 20 || digits > limit - 20 - length || held > limit - 20 - length - digits {
        return Err(EncodeError::TooLarge);
    }
    encode_frame(msg.as_str(), dst);
    Ok(())
}

/// `decimal_digits` writes one byte for zero and `digit_count` bytes for any
/// other number.
pub proof fn lemma_digits_len(n: nat)
    ensures
        decimal_digits(n).len() == if n == 0 {
            1
        } else {
            digit_count(n)
        },
    decreases n,
{
    if n >= 10 {
        lemma_digits_len(n / 10);
    } else if n > 0 {
        assert(digit_count(n / 10) == 0);
    }
}

/// Digits are valid UTF-8.
proof fn lemma_digits_are_utf8(digits: Seq<u8>)
    requires
        all_digits(digits),
    ensures
        valid_utf8(digits),
{
    let chars = Seq::new(digits.len(), |i: int| digits[i] as char);
    assert(is_ascii_chars(chars)) by {
        assert forall|i: int| 0 <= i < chars.len() implies '\0' <= #[trigger] chars[i]
            <= '\u{7f}' by {
            assert(is_digit(digits[i]));
        }
    }
    vstd::utf8::is_ascii_chars_encode_utf8(chars);
    assert(encode_utf8(chars) =~= digits) by {
        assert forall|i: int| 0 <= i < digits.len() implies encode_utf8(chars)[i]
            == digits[i] by {
            assert(is_digit(digits[i]));
        }
    }
    vstd::utf8::encode_utf8_valid_utf8(chars);
}

/// The blank line of a buffer stays where it is when more bytes arrive.
proof fn lemma_terminator_is_stable(buf: Seq<u8>, more: Seq<u8>)
    requires
        contains(buf, terminator()),
    ensures
        contains(buf + more, terminator()),
        first_index(buf + more, terminator()) == first_index(buf, terminator()),
        header_block(buf + more) == header_block(buf),
{
    let end = first_index(buf, terminator());
    let grown = buf + more;
    lemma_first_index_exists(buf, terminator());
    assert(grown.subrange(0, buf.len() as int) =~= buf);
    assert forall|j: int| 0 <= j <= end implies occurs_at(grown, terminator(), j) == occurs_at(
        buf,
        terminator(),
        j,
    ) by {
        lemma_occurs_in_prefix(grown, terminator(), buf.len() as int, j);
    }
    assert(first_occurrence(grown, terminator(), end));
    lemma_first_index(grown, terminator(), end);
    assert(header_block(grown) =~= header_block(buf));
}

/// The blank line of a frame stands right after the digits of its header.
proof fn lemma_frame_terminator(body: Seq<u8>, rest: Seq<u8>)
    ensures
        first_occurrence(
            frame(body) + rest,
            terminator(),
            16 + decimal_digits(body.len()).len() as int,
        ),
{
    let digits = decimal_digits(body.len());
    let buf = frame(body) + rest;
    let end: int = 16 + digits.len() as int;
    lemma_digits_round_trip(body.len());
    assert(buf.subrange(end, end + 4) =~= terminator());
    assert forall|j: int| 0 <= j < end implies !occurs_at(buf, terminator(), j) by {
        if occurs_at(buf, terminator(), j) {
            assert(buf.subrange(j, j + 4)[0] == terminator()[0]);
            assert(buf[j] == 13);
            if j >= 16 {
                assert(buf[j] == digits[j - 16]);
                assert(is_digit(digits[j - 16]));
            } else {
                assert(buf[j] == header_prefix()[j]);
            }
        }
    }
}

/// The header block of a frame is the header name and the digits.
proof fn lemma_frame_header_block(body: Seq<u8>, rest: Seq<u8>)
    ensures
        contains(frame(body) + rest, terminator()),
        first_index(frame(body) + rest, terminator()) == 16 + decimal_digits(body.len()).len(),
        header_block(frame(body) + rest) == header_prefix() + decimal_digits(body.len()),
{
    let digits = decimal_digits(body.len());
    let buf = frame(body) + rest;
    let end: int = 16 + digits.len() as int;
    lemma_frame_terminator(body, rest);
    lemma_first_index(buf, terminator(), end);
    assert(buf.subrange(0, end) =~= header_prefix() + digits);
}

/// In a header block made of the header name and a field, the field is
/// what follows the name.
proof fn lemma_field_after_name(field: Seq<u8>)
    ensures
        contains(header_prefix() + field, header_prefix()),
        first_index(header_prefix() + field, header_prefix()) == 0,
        (header_prefix() + field).subrange(16, 16 + field.len() as int) == field,
{
    let head = header_prefix() + field;
    assert(head.subrange(0, 16) =~= header_prefix());
    assert(first_occurrence(head, header_prefix(), 0));
    lemma_first_index(head, header_prefix(), 0);
    assert(head.subrange(16, 16 + field.len() as int) =~= field);
}

/// The length field of a frame holds the digits of the body's length.
proof fn lemma_frame_header(body: Seq<u8>, rest: Seq<u8>)
    ensures
        has_header(frame(body) + rest),
        body_start(frame(body) + rest) == 20 + decimal_digits(body.len()).len(),
        length_field(frame(body) + rest) == decimal_digits(body.len()),
{
    let digits = decimal_digits(body.len());
    let buf = frame(body) + rest;
    let head = header_block(buf);
    lemma_frame_header_block(body, rest);
    lemma_field_after_name(digits);
    lemma_marker_lengths();
    assert(head == header_prefix() + digits);
    assert(head.len() == 16 + digits.len());
    assert(length_field(buf) == head.subrange(16, head.len() as int));
}

/// The header name has 16 bytes and the blank line 4.
proof fn lemma_marker_lengths()
    ensures
        header_prefix().len() == 16,
        terminator().len() == 4,
{
}

/// The digits of a length are read back as that length.
proof fn lemma_length_round_trip(n: nat)
    requires
        n <= usize::MAX,
    ensures
        valid_utf8(decimal_digits(n)),
        parse_length(decimal_digits(n)) == Some(n as usize),
{
    let digits = decimal_digits(n);
    lemma_digits_round_trip(n);
    lemma_digits_are_utf8(digits);
    assert(is_digit(digits[0]));
    assert(unsigned_part(digits, false) == digits);
}

/// The length of a frame: header name, digits, blank line, body.
proof fn lemma_frame_len(body: Seq<u8>)
    ensures
        frame(body).len() == 20 + decimal_digits(body.len()).len() + body.len(),
{
    assert(header_prefix().len() == 16);
    assert(terminator().len() == 4);
}

/// Encoding, then decoding: the frame of `body`, whatever follows it in the
/// buffer, is decoded as one whole frame whose body is `body`, and what
/// followed is what stays in the buffer.
pub proof fn lemma_frame_decodes(body: Seq<u8>, rest: Seq<u8>)
    requires
        body.len() <= usize::MAX,
    ensures
        framing(frame(body) + rest) == (Framing::Complete {
            body_start: frame(body).len() - body.len(),
            body_len: body.len() as int,
        }),
        (frame(body) + rest).subrange(
            frame(body).len() - body.len(),
            frame(body).len() as int,
        ) == body,
        (frame(body) + rest).subrange(
            frame(body).len() as int,
            (frame(body) + rest).len() as int,
        ) == rest,
{
    let buf = frame(body) + rest;
    let start = frame(body).len() - body.len();
    lemma_frame_header(body, rest);
    lemma_length_round_trip(body.len());
    lemma_frame_len(body);
    assert(framing(buf) == (Framing::Complete { body_start: start, body_len: body.len() as int }));
    assert(buf.subrange(start, frame(body).len() as int) =~= body) by {
        assert(frame(body).subrange(start, frame(body).len() as int) =~= body);
        assert(buf.subrange(0, frame(body).len() as int) =~= frame(body));
    }
    assert(buf.subrange(frame(body).len() as int, buf.len() as int) =~= rest);
}

/// Partial input: while less than a whole frame has arrived, the decoder
/// asks for more and takes nothing, wherever the bytes were cut.
pub proof fn lemma_prefix_incomplete(buf: Seq<u8>, k: int)
    requires
        framing(buf) matches Framing::Complete { body_start, body_len } && 0 <= k < body_start
            + body_len,
    ensures
        framing(buf.subrange(0, k)) == Framing::Incomplete,
{
    let end = first_index(buf, terminator());
    let part = buf.subrange(0, k);
    assert(terminator().len() == 4);
    lemma_first_index_exists(buf, terminator());
    if k < end + 4 {
        assert forall|i: int| !occurs_at(part, terminator(), i) by {
            if occurs_at(part, terminator(), i) {
                lemma_occurs_in_prefix(buf, terminator(), k, i);
            }
        }
    } else {
        assert(part + buf.subrange(k, buf.len() as int) =~= buf);
        assert forall|i: int| 0 <= i <= end implies occurs_at(part, terminator(), i)
            == occurs_at(buf, terminator(), i) by {
            lemma_occurs_in_prefix(buf, terminator(), k, i);
        }
        assert(first_occurrence(part, terminator(), end));
        lemma_first_index(part, terminator(), end);
        assert(header_block(part) =~= header_block(buf));
    }
}

/// A declared length is honoured: once the header has arrived, more bytes
/// change neither the length it declares nor where the body starts; no
/// message is yielded while fewer bytes than declared are there, and the
/// message that is yielded at last has exactly the declared length.
pub proof fn lemma_declared_length_is_honoured(buf: Seq<u8>, more: Seq<u8>)
    requires
        declared_length(buf) is Some,
    ensures
        declared_length(buf + more) == declared_length(buf),
        body_start(buf + more) == body_start(buf),
        (buf + more).len() < body_start(buf) + declared_length(buf)->0 ==> framing(buf + more)
            == Framing::Incomplete,
        (buf + more).len() >= body_start(buf) + declared_length(buf)->0 ==> framing(buf + more)
            == (Framing::Complete {
            body_start: body_start(buf),
            body_len: declared_length(buf)->0 as int,
        }),
{
    lemma_terminator_is_stable(buf, more);
}

/// Ten to the power `e`.
pub open spec fn pow10(e: nat) -> nat
    decreases e,
{
    if e == 0 {
        1
    } else {
        10 * pow10((e - 1) as nat)
    }
}

/// The number of decimal digits of `n`, where zero has none.
pub open spec fn digit_count(n: nat) -> nat
    decreases n,
{
    if n == 0 {
        0
    } else {
        1 + digit_count(n / 10)
    }
}

/// `digit_count(n)` is the least exponent whose power of ten exceeds `n`.
pub proof fn lemma_digit_count_bounds(n: nat)
    ensures
        n < pow10(digit_count(n)),
        digit_count(n) > 0 ==> pow10((digit_count(n) - 1) as nat) <= n,
    decreases n,
{
    if n != 0 {
        lemma_digit_count_bounds(n / 10);
    }
}

/// A number has no more digits than its value.
proof fn lemma_digit_count_le(n: nat)
    ensures
        digit_count(n) <= n,
    decreases n,
{
    if n != 0 {
        lemma_digit_count_le(n / 10);
    }
}

/// Counts the decimal digits of `n`; zero has no digits.
pub fn number_of_digits(n: usize) -> (num_digits: usize)
    ensures
        num_digits == digit_count(n as nat),
        n < pow10(num_digits as nat),
        num_digits > 0 ==> pow10((num_digits - 1) as nat) <= n,
{
    let mut rest: usize = n;
    let mut num_digits: usize = 0;
    proof {
        lemma_digit_count_le(n as nat);
    }
    while rest > 0
        invariant
            num_digits + digit_count(rest as nat) == digit_count(n as nat),
            digit_count(n as nat) <= n,
        decreases rest,
    {
        rest = rest / 10;
        num_digits = num_digits + 1;
    }
    proof {
        lemma_digit_count_bounds(n as nat);
    }
    num_digits
}

} // verus!
