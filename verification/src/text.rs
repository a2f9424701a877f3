//! Text as bytes: equality of strings, and what a byte offset into UTF-8 text
//! means in characters.

use vstd::prelude::*;
use vstd::string::StringSliceAdditionalSpecFns;
use vstd::utf8::{
    decode_utf8, decode_utf8_encode_utf8, decode_utf8_split, encode_utf8, encode_utf8_decode_utf8,
    encode_utf8_valid_utf8, is_ascii_chars, is_ascii_chars_encode_utf8, is_char_boundary,
    valid_utf8_split,
};

verus! {

/// Two texts have the same UTF-8 bytes only if they are the same text.
pub proof fn lemma_encode_utf8_injective(a: Seq<char>, b: Seq<char>)
    requires
        encode_utf8(a) == encode_utf8(b),
    ensures
        a == b,
{
    encode_utf8_decode_utf8(a);
    encode_utf8_decode_utf8(b);
}

/// Whether `a` and `b` are the same text.
pub fn str_eq(a: &str, b: &str) -> (r: bool)
    ensures
        r == (a@ == b@),
{
    let x = a.as_bytes();
    let y = b.as_bytes();
    if x.len() != y.len() {
        return false;
    }
    let n = x.len();
    let mut i: usize = 0;
    while i < n
        invariant
            0 <= i <= n,
            n == x@.len(),
            n == y@.len(),
            x@ == a.spec_bytes(),
            y@ == b.spec_bytes(),
            forall|k: int| 0 <= k < i ==> x@[k] == y@[k],
        decreases n - i,
    {
        if x[i] != y[i] {
            return false;
        }
        i += 1;
    }
    proof {
        assert(x@ =~= y@);
        lemma_encode_utf8_injective(a@, b@);
    }
    true
}

/// The length of a text in bytes of UTF-8.
pub open spec fn byte_len(s: Seq<char>) -> nat {
    encode_utf8(s).len()
}

/// Byte offset `pos` into the UTF-8 form of `s` is where a character starts,
/// or the end of the text.
pub open spec fn on_char_boundary(s: Seq<char>, pos: int) -> bool {
    is_char_boundary(encode_utf8(s), pos)
}

/// The characters of `s` whose bytes lie before byte offset `pos`.
pub open spec fn chars_before(s: Seq<char>, pos: int) -> Seq<char> {
    decode_utf8(encode_utf8(s).subrange(0, pos))
}

/// The characters of `s` whose bytes lie at or after byte offset `pos`.
pub open spec fn chars_from(s: Seq<char>, pos: int) -> Seq<char> {
    decode_utf8(encode_utf8(s).subrange(pos, encode_utf8(s).len() as int))
}

/// The text `s` with `ch` put in at byte offset `pos`.
pub open spec fn inserted_at(s: Seq<char>, pos: int, ch: char) -> Seq<char> {
    chars_before(s, pos).push(ch) + chars_from(s, pos)
}

/// The text `s` without the character that starts at byte offset `pos`.
pub open spec fn removed_at(s: Seq<char>, pos: int) -> Seq<char> {
    chars_before(s, pos) + chars_from(s, pos).drop_first()
}

/// A boundary cuts a text in two: the characters before it and those from it
/// on make up the text, and the first part is as many bytes long as the
/// offset says.
pub proof fn lemma_boundary_splits(s: Seq<char>, pos: int)
    requires
        on_char_boundary(s, pos),
    ensures
        0 <= pos <= byte_len(s),
        chars_before(s, pos) + chars_from(s, pos) == s,
        chars_before(s, pos) == s.take(chars_before(s, pos).len() as int),
        chars_from(s, pos) == s.skip(chars_before(s, pos).len() as int),
        byte_len(chars_before(s, pos)) == pos,
        byte_len(chars_from(s, pos)) == byte_len(s) - pos,
{
    let bytes = encode_utf8(s);
    encode_utf8_valid_utf8(s);
    encode_utf8_decode_utf8(s);
    valid_utf8_split(bytes, pos);
    decode_utf8_split(bytes, pos);
    decode_utf8_encode_utf8(bytes.subrange(0, pos));
    decode_utf8_encode_utf8(bytes.subrange(pos, bytes.len() as int));
    let head = chars_before(s, pos);
    let tail = chars_from(s, pos);
    assert(head + tail == s);
    assert(head =~= s.take(head.len() as int));
    assert(tail =~= s.skip(head.len() as int));
    assert(0 <= pos <= bytes.len()) by {
        reveal_with_fuel(is_char_boundary, 1);
    }
}

/// The bytes of a text made of two parts are the bytes of the one followed by
/// the bytes of the other.
pub proof fn lemma_encode_utf8_concat(a: Seq<char>, b: Seq<char>)
    ensures
        encode_utf8(a + b) == encode_utf8(a) + encode_utf8(b),
    decreases a.len(),
{
    if a.len() == 0 {
        assert(a + b =~= b);
        assert(encode_utf8(a) + encode_utf8(b) =~= encode_utf8(b));
    } else {
        assert((a + b).drop_first() =~= a.drop_first() + b);
        lemma_encode_utf8_concat(a.drop_first(), b);
        assert(encode_utf8(a + b) =~= encode_utf8(a) + encode_utf8(b));
    }
}

/// In a text made of two parts, the second part starts on a boundary.
pub proof fn lemma_boundary_after_prefix(a: Seq<char>, b: Seq<char>)
    ensures
        on_char_boundary(a + b, byte_len(a) as int),
    decreases a.len(),
{
    let bytes = encode_utf8(a + b);
    encode_utf8_valid_utf8(a + b);
    if a.len() > 0 {
        let rest = a.drop_first();
        assert((a + b).drop_first() =~= rest + b);
        vstd::utf8::encode_utf8_first_scalar(a + b);
        assert(vstd::utf8::pop_first_scalar(bytes) =~= encode_utf8(rest + b));
        lemma_encode_utf8_concat(a, b);
        lemma_boundary_after_prefix(rest, b);
    }
}

/// Cutting a text made of two parts where the second part starts gives back
/// the two parts.
pub proof fn lemma_split_at_join(a: Seq<char>, b: Seq<char>)
    ensures
        on_char_boundary(a + b, byte_len(a) as int),
        chars_before(a + b, byte_len(a) as int) == a,
        chars_from(a + b, byte_len(a) as int) == b,
{
    let bytes = encode_utf8(a + b);
    lemma_boundary_after_prefix(a, b);
    lemma_encode_utf8_concat(a, b);
    assert(bytes.subrange(0, byte_len(a) as int) =~= encode_utf8(a));
    assert(bytes.subrange(byte_len(a) as int, bytes.len() as int) =~= encode_utf8(b));
    encode_utf8_decode_utf8(a);
    encode_utf8_decode_utf8(b);
}

/// A character put in at a boundary starts there, and removing it again gives
/// back the text.
pub proof fn lemma_remove_undoes_insert(s: Seq<char>, pos: int, ch: char)
    requires
        on_char_boundary(s, pos),
    ensures
        pos < byte_len(inserted_at(s, pos, ch)),
        on_char_boundary(inserted_at(s, pos, ch), pos),
        chars_from(inserted_at(s, pos, ch), pos)[0] == ch,
        removed_at(inserted_at(s, pos, ch), pos) == s,
{
    let head = chars_before(s, pos);
    let tail = chars_from(s, pos);
    lemma_boundary_splits(s, pos);
    assert(inserted_at(s, pos, ch) =~= head + (seq![ch] + tail));
    lemma_split_at_join(head, seq![ch] + tail);
    lemma_encode_utf8_concat(head, seq![ch] + tail);
    lemma_encode_utf8_concat(seq![ch], tail);
    assert(byte_len(seq![ch]) > 0) by {
        reveal_with_fuel(encode_utf8, 2);
    }
    assert((seq![ch] + tail).drop_first() =~= tail);
}

/// In ASCII text every character is one byte, so every offset up to the
/// length is a boundary.
pub proof fn lemma_ascii_boundaries(s: Seq<char>, pos: int)
    requires
        is_ascii_chars(s),
    ensures
        byte_len(s) == s.len(),
        on_char_boundary(s, pos) <==> 0 <= pos <= s.len(),
{
    let bytes = encode_utf8(s);
    encode_utf8_valid_utf8(s);
    is_ascii_chars_encode_utf8(s);
    if 0 <= pos < s.len() {
        assert(bytes[pos] == s[pos] as u8);
        vstd::utf8::is_char_boundary_iff_not_is_continuation_byte(bytes, pos);
    } else if pos == s.len() {
        vstd::utf8::is_char_boundary_start_end_of_seq(bytes);
    } else {
        reveal_with_fuel(is_char_boundary, 1);
    }
}

/// The length of a text in bytes.
pub fn byte_length(s: &str) -> (n: usize)
    ensures
        n == byte_len(s@),
{
    s.as_bytes().len()
}

/// The number of bytes that `c` takes in UTF-8, from 1 to 4.
pub fn utf8_width(c: char) -> (n: usize)
    ensures
        n == byte_len(seq![c]),
        1 <= n <= 4,
{
    proof {
        assert(seq![c].drop_first() =~= Seq::<char>::empty());
        reveal_with_fuel(encode_utf8, 2);
        vstd::utf8::char_is_scalar(c);
    }
    let v = c as u32;
    if v < 0x80 {
        1
    } else if v < 0x800 {
        2
    } else if v < 0x10000 {
        3
    } else {
        4
    }
}

/// `String::insert`: puts `ch` into the text at byte offset `idx`, which must
/// be on a character boundary. What stood before the offset stays before the
/// new character, what stood from it on follows.
#[verifier::external_body]
pub(crate) fn string_insert(s: &mut String, idx: usize, ch: char)
    requires
        on_char_boundary(old(s)@, idx as int),
    ensures
        final(s)@ == inserted_at(old(s)@, idx as int, ch),
{
    s.insert(idx, ch)
}

/// `String::remove`: takes out the character that starts at byte offset
/// `idx`, which must be inside the text and on a character boundary, and
/// returns it. The rest closes up.
#[verifier::external_body]
pub(crate) fn string_remove(s: &mut String, idx: usize) -> (ch: char)
    requires
        idx < byte_len(old(s)@),
        on_char_boundary(old(s)@, idx as int),
    ensures
        ch == chars_from(old(s)@, idx as int)[0],
        final(s)@ == removed_at(old(s)@, idx as int),
{
    s.remove(idx)
}

} // verus!
