//! Byte strings as text: the lossy reading of bytes as UTF-8, and the
//! quoted form in which a byte string is shown.

use vstd::prelude::*;
use vstd::utf8::{valid_utf8, decode_utf8, encode_utf8, encode_scalar};
use vstd::utf8::{encode_utf8_valid_utf8, encode_utf8_decode_utf8, char_is_scalar};
use crate::content::{NUL, until_nul, terminated, lemma_round_trip};

verus! {

/// The text that `String::from_utf8_lossy` makes of `bytes`: the text that
/// the bytes encode where they are valid UTF-8, and else that text with
/// U+FFFD put for each ill-formed part.
pub uninterp spec fn lossy_text(bytes: Seq<u8>) -> Seq<char>;

/// Reads bytes as UTF-8, with U+FFFD for what is not.
///
/// Trusted: calls `String::from_utf8_lossy` and makes the result an owned
/// `String`. The result is a function of the bytes alone, named
/// [`lossy_text`]; of valid UTF-8 it is the text that the bytes encode.
#[verifier::external_body]
pub(crate) fn decode_lossy(bytes: &[u8]) -> (text: String)
    ensures
        text@ == lossy_text(bytes@),
        valid_utf8(bytes@) ==> text@ == decode_utf8(bytes@),
{
    String::from_utf8_lossy(bytes).into_owned()
}

/// The character whose UTF-8 encoding is the zero byte.
pub open spec fn nul_char() -> char {
    0u8 as char
}

/// A character below 128 is encoded in one byte, which is zero only for
/// the character of code zero.
proof fn lemma_one_byte_encoding(c: u32)
    by (bit_vector)
    requires
        c <= 0x7F,
    ensures
        ((c & 0x7F) as u8 == 0u8) <==> c == 0,
{
}

/// The bytes of a longer encoding carry a mark in their high bits and are
/// never zero.
proof fn lemma_marked_byte_is_not_zero(c: u32)
    by (bit_vector)
    ensures
        0xC0u8 | ((c >> 6) & 0x1F) as u8 != 0u8,
        0xE0u8 | ((c >> 12) & 0x0F) as u8 != 0u8,
        0xF0u8 | ((c >> 18) & 0x7) as u8 != 0u8,
        0x80u8 | (c & 0x3F) as u8 != 0u8,
        0x80u8 | ((c >> 6) & 0x3F) as u8 != 0u8,
        0x80u8 | ((c >> 12) & 0x3F) as u8 != 0u8,
{
}

/// The encoding of a character holds a zero byte only if the character is
/// the one with code zero.
pub proof fn lemma_zero_byte_in_scalar(c: char)
    ensures
        encode_scalar(c as u32).contains(NUL) <==> c == nul_char(),
{
    let v = c as u32;
    let bytes = encode_scalar(v);
    char_is_scalar(c);
    lemma_marked_byte_is_not_zero(v);
    if v <= 0x7F {
        lemma_one_byte_encoding(v);
        assert(bytes =~= seq![(v & 0x7F) as u8]);
        if v == 0 {
            assert(bytes[0] == NUL);
        }
    }
    if bytes.contains(NUL) {
        let i = choose|i: int| 0 <= i < bytes.len() && bytes[i] == NUL;
        assert(bytes[i] == NUL);
    }
}

/// The UTF-8 encoding of a text holds a zero byte exactly where the text
/// holds the character with code zero.
pub proof fn lemma_zero_byte_in_text(text: Seq<char>)
    ensures
        encode_utf8(text).contains(NUL) <==> text.contains(nul_char()),
    decreases text.len(),
{
    if text.len() == 0 {
        assert(encode_utf8(text) =~= Seq::<u8>::empty());
    } else {
        let head = encode_scalar(text[0] as u32);
        let rest = text.drop_first();
        let tail = encode_utf8(rest);
        lemma_zero_byte_in_scalar(text[0]);
        lemma_zero_byte_in_text(rest);
        let all = encode_utf8(text);
        assert(all == head + tail);
        if all.contains(NUL) {
            let i = choose|i: int| 0 <= i < all.len() && all[i] == NUL;
            if i < head.len() {
                assert(head[i] == NUL);
            } else {
                assert(tail[i - head.len()] == NUL);
            }
        }
        if head.contains(NUL) {
            let i = choose|i: int| 0 <= i < head.len() && head[i] == NUL;
            assert(all[i] == NUL);
        }
        if tail.contains(NUL) {
            let i = choose|i: int| 0 <= i < tail.len() && tail[i] == NUL;
            assert(all[i + head.len()] == NUL);
        }
        if text.contains(nul_char()) {
            let i = choose|i: int| 0 <= i < text.len() && text[i] == nul_char();
            if i > 0 {
                assert(rest[i - 1] == nul_char());
            }
        }
        if rest.contains(nul_char()) {
            let i = choose|i: int| 0 <= i < rest.len() && rest[i] == nul_char();
            assert(text[i + 1] == nul_char());
        }
    }
}

/// Round trip for text: a text with no character of code zero, stored
/// with a terminator and read back up to it, is valid UTF-8 that decodes to
/// the text.
pub proof fn lemma_text_round_trip(text: Seq<char>)
    requires
        !text.contains(nul_char()),
    ensures
        until_nul(terminated(encode_utf8(text))) == encode_utf8(text),
        valid_utf8(encode_utf8(text)),
        decode_utf8(encode_utf8(text)) == text,
{
    lemma_zero_byte_in_text(text);
    lemma_round_trip(encode_utf8(text));
    encode_utf8_valid_utf8(text);
    encode_utf8_decode_utf8(text);
}

/// `std::fmt::Formatter`, the place that formatting writes to. Opaque:
/// nothing is known of what it holds.
#[verifier::external_type_specification]
#[verifier::external_body]
pub struct ExFormatter<'a>(std::fmt::Formatter<'a>);

/// `std::fmt::Error`, the error of a formatter that could not be written
/// to.
#[verifier::external_type_specification]
#[verifier::external_body]
pub struct ExFmtError(std::fmt::Error);

/// Writes text to a formatter.
///
/// Trusted: calls `Formatter::write_str`, which hands the text on to the
/// formatter's writer and returns that writer's answer. Nothing is claimed
/// of the answer nor of the formatter afterwards.
#[verifier::external_body]
pub(crate) fn write_text(f: &mut std::fmt::Formatter<'_>, text: &str) -> (written: Result<
    (),
    std::fmt::Error,
>) {
    f.write_str(text)
}

/// `String::push` puts one character at the end of the string.
pub assume_specification[ String::push ](text: &mut String, c: char)
    ensures
        final(text)@ == old(text)@.push(c),
;

/// The digit for `n`, below sixteen, in lower-case hexadecimal.
pub open spec fn hex_digit(n: u8) -> char {
    if n < 10 {
        (48 + n) as u8 as char
    } else {
        (87 + n) as u8 as char
    }
}

/// Whether a byte is shown as itself: the printable ASCII characters but
/// the two quotes and the backslash.
pub open spec fn shown_plain(b: u8) -> bool {
    0x20 <= b <= 0x7e && b != 0x22 && b != 0x27 && b != 0x5c
}

/// The characters that show one byte: the byte itself where it is
/// [`shown_plain`]; a backslash and a letter for tab, line feed and
/// carriage return; a backslash before a quote or a backslash; and for
/// every other byte `\x` and its two hexadecimal digits.
pub open spec fn escape_byte(b: u8) -> Seq<char> {
    if b == 0x09 {
        seq!['\\', 't']
    } else if b == 0x0a {
        seq!['\\', 'n']
    } else if b == 0x0d {
        seq!['\\', 'r']
    } else if b == 0x22 {
        seq!['\\', '"']
    } else if b == 0x27 {
        seq!['\\', '\'']
    } else if b == 0x5c {
        seq!['\\', '\\']
    } else if shown_plain(b) {
        seq![b as char]
    } else {
        seq!['\\', 'x', hex_digit(b / 16), hex_digit(b % 16)]
    }
}

/// The characters that show a byte string, byte by byte.
pub open spec fn escaped(bytes: Seq<u8>) -> Seq<char>
    decreases bytes.len(),
{
    if bytes.len() == 0 {
        Seq::empty()
    } else {
        escaped(bytes.drop_last()) + escape_byte(bytes.last())
    }
}

/// A byte string as it is shown: escaped, between double quotes.
pub open spec fn quoted(bytes: Seq<u8>) -> Seq<char> {
    seq!['"'] + escaped(bytes) + seq!['"']
}

/// Bytes that are all shown plain are shown as the characters they are.
pub proof fn lemma_plain_bytes_shown_as_they_are(bytes: Seq<u8>)
    requires
        forall|i: int| 0 <= i < bytes.len() ==> shown_plain(#[trigger] bytes[i]),
    ensures
        escaped(bytes) == Seq::new(bytes.len(), |i: int| bytes[i] as char),
    decreases bytes.len(),
{
    if bytes.len() > 0 {
        lemma_plain_bytes_shown_as_they_are(bytes.drop_last());
    }
    assert(escaped(bytes) =~= Seq::new(bytes.len(), |i: int| bytes[i] as char));
}

/// The digit for `n`, below sixteen, in lower-case hexadecimal.
fn hex_char(n: u8) -> (c: char)
    requires
        n < 16,
    ensures
        c == hex_digit(n),
{
    if n < 10 {
        (48 + n) as char
    } else {
        (87 + n) as char
    }
}

/// Puts the characters that show one byte at the end of `text`.
pub fn push_escaped(text: &mut String, b: u8)
    ensures
        final(text)@ == old(text)@ + escape_byte(b),
{
    let ghost before = text@;
    if b == 0x09 {
        text.push('\\');
        text.push('t');
    } else if b == 0x0a {
        text.push('\\');
        text.push('n');
    } else if b == 0x0d {
        text.push('\\');
        text.push('r');
    } else if b == 0x22 {
        text.push('\\');
        text.push('"');
    } else if b == 0x27 {
        text.push('\\');
        text.push('\'');
    } else if b == 0x5c {
        text.push('\\');
        text.push('\\');
    } else if 0x20 <= b && b <= 0x7e {
        text.push(b as char);
    } else {
        text.push('\\');
        text.push('x');
        text.push(hex_char(b / 16));
        text.push(hex_char(b % 16));
    }
    assert(text@ =~= before + escape_byte(b));
}

/// Shows a byte string: escaped, between double quotes.
pub fn quote(bytes: &[u8]) -> (text: String)
    ensures
        text@ == quoted(bytes@),
{
    let mut text = String::new();
    text.push('"');
    let mut i: usize = 0;
    while i < bytes.len()
        invariant
            i <= bytes@.len(),
            text@ == seq!['"'] + escaped(bytes@.take(i as int)),
        decreases bytes@.len() - i,
    {
        push_escaped(&mut text, bytes[i]);
        proof {
            let upto = bytes@.take(i + 1);
            assert(upto.drop_last() =~= bytes@.take(i as int));
            assert(upto.last() == bytes@[i as int]);
            assert(text@ =~= seq!['"'] + escaped(upto));
        }
        i += 1;
    }
    text.push('"');
    proof {
        assert(bytes@.take(i as int) =~= bytes@);
        assert(text@ =~= quoted(bytes@));
    }
    text
}

} // verus!
