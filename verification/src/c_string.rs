//! Strings as C takes them: the bytes of the text, closed by a zero byte.
use vstd::prelude::*;

verus! {

/// The bytes of a C string with this text.
pub open spec fn c_bytes(text: Seq<char>) -> Seq<u8> {
    vstd::utf8::encode_utf8(text).push(0)
}

/// A zero byte in the encoding of a character comes of the zero character only.
proof fn lemma_encode_scalar_zero(c: char)
    ensures
        vstd::utf8::encode_scalar(c as u32).contains(0u8) <==> c == '\0',
{
    let v = c as u32;
    let bytes = vstd::utf8::encode_scalar(v);
    assert(v <= 0x7F ==> ((v & 0x7F) as u8 == 0 <==> v == 0)) by (bit_vector);
    assert(0xC0 | ((v >> 6) & 0x1F) as u8 != 0) by (bit_vector);
    assert(0xE0 | ((v >> 12) & 0x0F) as u8 != 0) by (bit_vector);
    assert(0xF0 | ((v >> 18) & 0x7) as u8 != 0) by (bit_vector);
    assert(0x80 | (v & 0x3F) as u8 != 0) by (bit_vector);
    assert(0x80 | ((v >> 6) & 0x3F) as u8 != 0) by (bit_vector);
    assert(0x80 | ((v >> 12) & 0x3F) as u8 != 0) by (bit_vector);
    if v == 0 {
        assert(bytes[0] == 0u8);
    }
}

/// The encoding of a text holds a zero byte exactly where the text holds a zero
/// character.
pub(crate) proof fn lemma_encode_utf8_zero(text: Seq<char>)
    ensures
        vstd::utf8::encode_utf8(text).contains(0u8) <==> text.contains('\0'),
    decreases text.len(),
{
    if text.len() > 0 {
        let head = vstd::utf8::encode_scalar(text[0] as u32);
        let rest = vstd::utf8::encode_utf8(text.drop_first());
        lemma_encode_scalar_zero(text[0]);
        lemma_encode_utf8_zero(text.drop_first());
        assert(text =~= seq![text[0]] + text.drop_first());
        assert((head + rest).contains(0u8) <==> head.contains(0u8) || rest.contains(0u8)) by {
            if head.contains(0u8) {
                let i = head.index_of(0u8);
                assert((head + rest)[i] == 0u8);
            }
            if rest.contains(0u8) {
                let i = rest.index_of(0u8);
                assert((head + rest)[head.len() + i] == 0u8);
            }
        }
        assert(text.contains('\0') <==> text[0] == '\0' || text.drop_first().contains('\0')) by {
            if text.drop_first().contains('\0') {
                let i = text.drop_first().index_of('\0');
                assert(text[i + 1] == '\0');
            }
            if text.contains('\0') && text[0] != '\0' {
                let i = text.index_of('\0');
                assert(text.drop_first()[i - 1] == '\0');
            }
        }
    }
}

/// The text as a C string. A text with a zero character in it has none, for C
/// would take it to end there.
pub fn to_c_bytes(text: &str) -> (res: Result<Vec<u8>, ()>)
    ensures
        res is Err <==> text@.contains('\0'),
        res matches Ok(bytes) ==> bytes@ == c_bytes(text@),
{
    let mut bytes: Vec<u8> = text.as_bytes_vec();
    proof {
        lemma_encode_utf8_zero(text@);
    }
    let mut i: usize = 0;
    while i < bytes.len()
        invariant
            i <= bytes@.len(),
            bytes@ == vstd::utf8::encode_utf8(text@),
            vstd::utf8::encode_utf8(text@).contains(0u8) <==> text@.contains('\0'),
            forall|j: int| 0 <= j < i ==> bytes@[j] != 0,
        decreases bytes@.len() - i,
    {
        if bytes[i] == 0 {
            assert(bytes@[i as int] == 0u8);
            return Err(());
        }
        i = i + 1;
    }
    bytes.push(0);
    Ok(bytes)
}

} // verus!
