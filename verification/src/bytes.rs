//! Byte-level readers shared by the parsers: little-endian words, bit
//! tests, and the NUL-padded text fields of the file format.

use vstd::prelude::*;
use vstd::slice::slice_subrange;

verus! {

/// Value of the little-endian 16-bit word at `off`.
pub open spec fn u16_at(b: Seq<u8>, off: int) -> int {
    b[off] + 256 * b[off + 1]
}

/// Value of the little-endian 32-bit word at `off`.
pub open spec fn u32_at(b: Seq<u8>, off: int) -> int {
    b[off] + 256 * b[off + 1] + 65536 * b[off + 2] + 16777216 * b[off + 3]
}

/// Read the little-endian 16-bit word at `off`.
pub fn read_u16_le(b: &[u8], off: usize) -> (r: u16)
    requires
        off + 2 <= b@.len(),
    ensures
        r == u16_at(b@, off as int),
{
    b[off] as u16 + (b[off + 1] as u16) * 256
}

/// Read the little-endian 32-bit word at `off`.
pub fn read_u32_le(b: &[u8], off: usize) -> (r: u32)
    requires
        off + 4 <= b@.len(),
    ensures
        r == u32_at(b@, off as int),
{
    b[off] as u32 + (b[off + 1] as u32) * 256 + (b[off + 2] as u32) * 65536
        + (b[off + 3] as u32) * 16777216
}

/// Whether the bit of weight `weight` (a power of two) is set in `byte`.
pub open spec fn has_bit(byte: int, weight: int) -> bool {
    (byte / weight) % 2 == 1
}

/// The bytes of `b` that come before its first NUL, or all of them.
pub open spec fn until_nul(b: Seq<u8>) -> Seq<u8>
    decreases b.len(),
{
    if b.len() == 0 || b[0] == 0 {
        Seq::empty()
    } else {
        seq![b[0]] + until_nul(b.drop_first())
    }
}

/// What lossy UTF-8 decoding makes of a byte string.
pub uninterp spec fn utf8_lossy(b: Seq<u8>) -> Seq<char>;

/// Unicode's `White_Space` property.
pub open spec fn is_white_space(c: char) -> bool {
    let u = c as u32;
    ||| 0x9 <= u <= 0xD
    ||| u == 0x20
    ||| u == 0x85
    ||| u == 0xA0
    ||| u == 0x1680
    ||| 0x2000 <= u <= 0x200A
    ||| u == 0x2028
    ||| u == 0x2029
    ||| u == 0x202F
    ||| u == 0x205F
    ||| u == 0x3000
}

/// `s` without the white space it ends in.
pub open spec fn trimmed_end(s: Seq<char>) -> Seq<char>
    decreases s.len(),
{
    if s.len() > 0 && is_white_space(s.last()) {
        trimmed_end(s.drop_last())
    } else {
        s
    }
}

/// Whether every byte is a 7-bit code.
pub open spec fn all_ascii(b: Seq<u8>) -> bool {
    forall|i: int| 0 <= i < b.len() ==> b[i] < 128
}

/// The characters whose codes are the bytes of `b`.
pub open spec fn ascii_chars(b: Seq<u8>) -> Seq<char> {
    Seq::new(b.len(), |i: int| b[i] as char)
}

/// The text a NUL-padded field holds: what precedes the first NUL, decoded,
/// without trailing white space.
pub open spec fn padded_text(b: Seq<u8>) -> Seq<char> {
    let text = until_nul(b);
    trimmed_end(
        if all_ascii(text) {
            ascii_chars(text)
        } else {
            utf8_lossy(text)
        },
    )
}

/// `String::from_utf8_lossy`. The contract names the result, since it is a
/// function of the bytes alone, and adds that pure ASCII input decodes to
/// the characters with the same codes. How ill-formed sequences are
/// replaced by U+FFFD is left to the name.
#[verifier::external_body]
fn decode_utf8_lossy(b: &[u8]) -> (r: String)
    ensures
        r@ == utf8_lossy(b@),
        all_ascii(b@) ==> r@ == ascii_chars(b@),
{
    String::from_utf8_lossy(b).into_owned()
}

/// `str::trim_end`: drops the trailing characters that have Unicode's
/// `White_Space` property, and nothing else.
pub assume_specification[ str::trim_end ](s: &str) -> (r: &str)
    ensures
        r@ == trimmed_end(s@),
;

/// Decode a NUL-padded text field.
pub fn read_padded_ascii(bytes: &[u8]) -> (r: String)
    ensures
        r@ == padded_text(bytes@),
{
    let mut end: usize = 0;
    proof {
        assert(bytes@.skip(0) == bytes@);
        assert(bytes@.take(0) == Seq::<u8>::empty());
    }
    while end < bytes.len() && bytes[end] != 0
        invariant
            end <= bytes@.len(),
            until_nul(bytes@) == bytes@.take(end as int) + until_nul(bytes@.skip(end as int)),
        decreases bytes@.len() - end,
    {
        proof {
            let rest = bytes@.skip(end as int);
            assert(rest.drop_first() == bytes@.skip(end + 1));
            assert(bytes@.take(end as int) + (seq![rest[0]] + until_nul(rest.drop_first()))
                == bytes@.take(end + 1) + until_nul(rest.drop_first()));
        }
        end = end + 1;
    }
    assert(until_nul(bytes@) == bytes@.take(end as int)) by {
        assert(until_nul(bytes@.skip(end as int)) == Seq::<u8>::empty());
    }
    let field = slice_subrange(bytes, 0, end);
    let text = decode_utf8_lossy(field);
    text.as_str().trim_end().to_owned()
}

/// Words are little-endian: the first byte is the remainder by 256, and the
/// later ones come with the higher powers.
pub proof fn law_words_are_little_endian(b: Seq<u8>, off: int, word: int)
    ensures
        u16_at(b, off) % 256 == b[off],
        u16_at(b, off) / 256 == b[off + 1],
        u32_at(b, off) % 65536 == u16_at(b, off),
        u32_at(b, off) / 65536 == u16_at(b, off + 2),
        0 <= word < 65536 && b[off] == word % 256 && b[off + 1] == word / 256 ==> u16_at(b, off)
            == word,
{
}

/// A bit is set where masking with its weight leaves something.
pub proof fn law_bits_are_mask_bits(byte: u8)
    ensures
        has_bit(byte as int, 1) <==> byte & 1 != 0,
        has_bit(byte as int, 2) <==> byte & 2 != 0,
        has_bit(byte as int, 4) <==> byte & 4 != 0,
        has_bit(byte as int, 8) <==> byte & 8 != 0,
        has_bit(byte as int, 16) <==> byte & 16 != 0,
        has_bit(byte as int, 32) <==> byte & 32 != 0,
        has_bit(byte as int, 64) <==> byte & 64 != 0,
        has_bit(byte as int, 128) <==> byte & 128 != 0,
{
    assert(((byte / 1) % 2 == 1 <==> byte & 1 != 0) && ((byte / 2) % 2 == 1 <==> byte & 2 != 0) && ((
    byte / 4) % 2 == 1 <==> byte & 4 != 0) && ((byte / 8) % 2 == 1 <==> byte & 8 != 0) && ((byte / 16)
        % 2 == 1 <==> byte & 16 != 0) && ((byte / 32) % 2 == 1 <==> byte & 32 != 0) && ((byte / 64) % 2
        == 1 <==> byte & 64 != 0) && ((byte / 128) % 2 == 1 <==> byte & 128 != 0)) by (bit_vector);
}

/// A text field holds the characters before its first NUL: an ASCII text
/// that does not end in white space comes back whatever follows the NUL, and
/// also where it fills the field.
pub proof fn law_padded_text_reads_back(text: Seq<u8>, padding: Seq<u8>)
    requires
        forall|i: int| 0 <= i < text.len() ==> 0 < #[trigger] text[i] < 128,
        text.len() > 0 ==> 0x20 < text.last() < 0x7F,
        padding.len() > 0 ==> padding[0] == 0,
    ensures
        padded_text(text + padding).len() == text.len(),
        forall|i: int|
            0 <= i < text.len() ==> (#[trigger] padded_text(text + padding)[i]) as int == text[i],
{
    lemma_until_nul(text, padding);
    assert(ascii_chars(text).len() == text.len());
    if text.len() > 0 {
        assert(ascii_chars(text).last() == text.last() as char);
    }
}

proof fn lemma_until_nul(text: Seq<u8>, padding: Seq<u8>)
    requires
        forall|i: int| 0 <= i < text.len() ==> 0 < #[trigger] text[i],
        padding.len() > 0 ==> padding[0] == 0,
    ensures
        until_nul(text + padding) == text,
    decreases text.len(),
{
    if text.len() > 0 {
        let rest = text.drop_first();
        assert((text + padding).drop_first() == rest + padding);
        assert forall|i: int| 0 <= i < rest.len() implies 0 < #[trigger] rest[i] by {
            assert(rest[i] == text[i + 1]);
        }
        lemma_until_nul(rest, padding);
        assert(seq![text[0]] + rest == text);
    } else {
        assert(text + padding == padding);
    }
}

/// Trailing blanks are no part of a text field.
pub proof fn law_padded_text_has_no_trailing_blank(b: Seq<u8>)
    ensures
        padded_text(b).len() > 0 ==> padded_text(b).last() != ' ',
{
    let text = until_nul(b);
    lemma_trimmed_end(
        if all_ascii(text) {
            ascii_chars(text)
        } else {
            utf8_lossy(text)
        },
    );
}

proof fn lemma_trimmed_end(s: Seq<char>)
    ensures
        trimmed_end(s).len() > 0 ==> !is_white_space(trimmed_end(s).last()),
    decreases s.len(),
{
    if s.len() > 0 && is_white_space(s.last()) {
        lemma_trimmed_end(s.drop_last());
    }
}

} // verus!
