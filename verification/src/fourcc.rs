//! Four-character codes: the keys and type tags of the sensor controller.

use vstd::prelude::*;
use vstd::string::StringSliceAdditionalSpecFns;
use vstd::utf8::{
    decode_utf8, decode_utf8_encode_utf8, encode_utf8, encode_utf8_decode_utf8, valid_utf8,
};

verus! {

/// The 32-bit code of a byte string: its bytes folded big-endian, each new
/// byte pushing the earlier ones up by eight bits (bits pushed past the top
/// are lost).
pub open spec fn fourcc_of(bytes: Seq<u8>) -> u32
    decreases bytes.len(),
{
    if bytes.len() == 0 {
        0
    } else {
        ((fourcc_of(bytes.drop_last()) as int * 256 + bytes.last() as int) % 0x1_0000_0000) as u32
    }
}

/// Folds the bytes of `s` into its 32-bit code.
pub fn fourcc_str_to_u32(s: &str) -> (code: u32)
    ensures
        code == fourcc_of(s.spec_bytes()),
{
    let bytes = s.as_bytes();
    let mut acc: u32 = 0;
    let mut i: usize = 0;
    while i < bytes.len()
        invariant
            i <= bytes@.len(),
            bytes@ == s.spec_bytes(),
            acc == fourcc_of(bytes@.take(i as int)),
        decreases bytes@.len() - i,
    {
        let b: u8 = bytes[i];
        let next: u32 = (acc << 8) | (b as u32);
        proof {
            assert(((acc << 8) | (b as u32)) as u64 == ((acc as u64) * 256 + (b as u64))
                % 0x1_0000_0000) by (bit_vector);
            let pre = bytes@.take(i as int + 1);
            assert(pre.drop_last() =~= bytes@.take(i as int));
            assert(pre.last() == b);
        }
        acc = next;
        i += 1;
    }
    proof {
        assert(bytes@.take(i as int) =~= bytes@);
    }
    acc
}

/// The four bytes of a code, the most significant first.
pub open spec fn code_bytes(code: u32) -> Seq<u8> {
    seq![
        (code / 0x100_0000) as u8,
        (code / 0x1_0000 % 0x100) as u8,
        (code / 0x100 % 0x100) as u8,
        (code % 0x100) as u8,
    ]
}

/// The text that the four bytes of a code spell, where they are UTF-8.
pub open spec fn code_text(code: u32) -> Option<Seq<char>> {
    if valid_utf8(code_bytes(code)) {
        Some(decode_utf8(code_bytes(code)))
    } else {
        None
    }
}

/// Reads `bytes` as UTF-8 text, with `std::str::from_utf8`: that function
/// checks whether the bytes are valid UTF-8 and, where they are, hands the
/// same bytes back as a string slice. So there is a result exactly where
/// the bytes are valid, and its bytes are `bytes`.
#[verifier::external_body]
fn utf8_text(bytes: &[u8]) -> (r: Option<&str>)
    ensures
        r is Some <==> valid_utf8(bytes@),
        r matches Some(s) ==> s.spec_bytes() == bytes@,
{
    std::str::from_utf8(bytes).ok()
}

/// The text that the four bytes of `code` spell, the most significant byte
/// first; none where they are not UTF-8.
pub fn fourcc_text(code: u32) -> (r: Option<String>)
    ensures
        match r {
            Some(s) => code_text(code) == Some(s@),
            None => code_text(code) is None,
        },
{
    let b0: u8 = (code >> 24) as u8;
    let b1: u8 = ((code >> 16) & 0xff) as u8;
    let b2: u8 = ((code >> 8) & 0xff) as u8;
    let b3: u8 = (code & 0xff) as u8;
    assert(b0 == code / 0x100_0000 && b1 == code / 0x1_0000 % 0x100 && b2 == code / 0x100 % 0x100
        && b3 == code % 0x100) by (bit_vector)
        requires
            b0 == (code >> 24) as u8,
            b1 == ((code >> 16) & 0xff) as u8,
            b2 == ((code >> 8) & 0xff) as u8,
            b3 == (code & 0xff) as u8,
    ;
    let bytes: [u8; 4] = [b0, b1, b2, b3];
    assert(bytes@ =~= code_bytes(code));
    match utf8_text(&bytes) {
        Some(s) => {
            proof {
                encode_utf8_decode_utf8(s@);
            }
            Some(s.to_owned())
        },
        None => None,
    }
}

/// A key that the service names can be asked for: where the four bytes of
/// a code spell a text, the text is four bytes long, and its code is the
/// code it was spelled from.
pub proof fn law_text_keeps_code(code: u32)
    requires
        code_text(code) is Some,
    ensures
        encode_utf8(code_text(code)->Some_0) == code_bytes(code),
        encode_utf8(code_text(code)->Some_0).len() == 4,
        fourcc_of(encode_utf8(code_text(code)->Some_0)) == code,
{
    let b = code_bytes(code);
    decode_utf8_encode_utf8(b);
    lemma_fourcc_of_four(b);
}

/// The code of four bytes is the number they spell, the first byte being
/// the most significant.
pub proof fn lemma_fourcc_of_four(b: Seq<u8>)
    requires
        b.len() == 4,
    ensures
        fourcc_of(b) == b[0] * 0x100_0000 + b[1] * 0x1_0000 + b[2] * 0x100 + b[3],
{
    let b3 = b.drop_last();
    let b2 = b3.drop_last();
    let b1 = b2.drop_last();
    assert(b1.drop_last().len() == 0);
    assert(fourcc_of(b1.drop_last()) == 0);
    assert(fourcc_of(b1) == b[0]);
    assert(fourcc_of(b2) == b[0] * 0x100 + b[1]);
    assert(fourcc_of(b3) == b[0] * 0x1_0000 + b[1] * 0x100 + b[2]);
}

/// A key can be spelled back from its code: the code of a text of four
/// bytes spells that text.
pub proof fn law_code_keeps_text(s: Seq<char>)
    requires
        encode_utf8(s).len() == 4,
    ensures
        code_text(fourcc_of(encode_utf8(s))) == Some(s),
{
    let b = encode_utf8(s);
    lemma_fourcc_of_four(b);
    lemma_bytes_of_code(b[0], b[1], b[2], b[3], fourcc_of(b));
    assert(code_bytes(fourcc_of(b)) =~= b);
    vstd::utf8::encode_utf8_valid_utf8(s);
    encode_utf8_decode_utf8(s);
}

proof fn lemma_bytes_of_code(b0: u8, b1: u8, b2: u8, b3: u8, code: u32)
    requires
        code == b0 * 0x100_0000 + b1 * 0x1_0000 + b2 * 0x100 + b3,
    ensures
        code / 0x100_0000 == b0,
        code / 0x1_0000 % 0x100 == b1,
        code / 0x100 % 0x100 == b2,
        code % 0x100 == b3,
{
    assert(code / 0x100_0000 == b0 && code / 0x1_0000 % 0x100 == b1 && code / 0x100 % 0x100 == b2
        && code % 0x100 == b3) by (bit_vector)
        requires
            code == (b0 as u32) * 0x100_0000 + (b1 as u32) * 0x1_0000 + (b2 as u32) * 0x100 + (
            b3 as u32),
    ;
}

} // verus!
