//! The decoder: an instruction word split into its nibble fields.

use vstd::prelude::*;

verus! {

/// The fields of one 16-bit instruction word.
///
/// `n1` is the most significant nibble and `n4` the least significant one;
/// `nn` is the low byte and `nnn` the low twelve bits.
#[derive(Clone, Copy, Debug, PartialEq, Eq, Structural)]
pub struct Fields {
    pub n1: u8,
    pub n2: u8,
    pub n3: u8,
    pub n4: u8,
    pub nn: u8,
    pub nnn: u16,
}

/// The fields of `word`, read as a number written in base sixteen.
pub open spec fn fields(word: u16) -> Fields {
    Fields {
        n1: (word / 0x1000) as u8,
        n2: (word / 0x100 % 0x10) as u8,
        n3: (word / 0x10 % 0x10) as u8,
        n4: (word % 0x10) as u8,
        nn: (word % 0x100) as u8,
        nnn: word % 0x1000,
    }
}

/// Splits an instruction word into its fields.
pub fn decode(word: u16) -> (f: Fields)
    ensures
        f == fields(word),
{
    let n1: u8 = ((word >> 12) & 0xf) as u8;
    let n2: u8 = ((word >> 8) & 0xf) as u8;
    let n3: u8 = ((word >> 4) & 0xf) as u8;
    let n4: u8 = (word & 0xf) as u8;
    let nn: u8 = (word & 0xff) as u8;
    let nnn: u16 = word & 0xfff;
    assert(((word >> 12) & 0xf) as u8 == (word / 0x1000) as u8) by (bit_vector);
    assert(((word >> 8) & 0xf) as u8 == (word / 0x100 % 0x10) as u8) by (bit_vector);
    assert(((word >> 4) & 0xf) as u8 == (word / 0x10 % 0x10) as u8) by (bit_vector);
    assert((word & 0xf) as u8 == (word % 0x10) as u8) by (bit_vector);
    assert((word & 0xff) as u8 == (word % 0x100) as u8) by (bit_vector);
    assert(word & 0xfff == word % 0x1000) by (bit_vector);
    Fields { n1, n2, n3, n4, nn, nnn }
}

/// Every field lies within its width, and the fields put together give the
/// word back.
pub proof fn lemma_fields_recompose(word: u16)
    ensures
        fields(word).n1 < 16,
        fields(word).n2 < 16,
        fields(word).n3 < 16,
        fields(word).n4 < 16,
        fields(word).nnn < 0x1000,
        fields(word).nn == fields(word).n3 * 16 + fields(word).n4,
        fields(word).nnn == fields(word).n2 * 256 + fields(word).nn,
        word == fields(word).n1 * 0x1000 + fields(word).nnn,
{
    assert(word / 0x1000 < 16) by (bit_vector);
    assert(word / 0x100 % 0x10 < 16) by (bit_vector);
    assert(word / 0x10 % 0x10 < 16) by (bit_vector);
    assert(word % 0x100 == (word / 0x10 % 0x10) * 16 + word % 0x10) by (bit_vector);
    assert(word % 0x1000 == (word / 0x100 % 0x10) * 256 + word % 0x100) by (bit_vector);
    assert(word == (word / 0x1000) * 0x1000 + word % 0x1000) by (bit_vector);
}

/// The instruction word with the four nibbles `n1`, `n2`, `n3`, `n4`, most
/// significant first.
pub open spec fn encode(n1: u8, n2: u8, n3: u8, n4: u8) -> u16 {
    (n1 * 0x1000 + n2 * 0x100 + n3 * 0x10 + n4) as u16
}

/// The instruction word with the nibbles `n1` and `n2` and the low byte
/// `nn`.
pub open spec fn encode_byte(n1: u8, n2: u8, nn: u8) -> u16 {
    (n1 * 0x1000 + n2 * 0x100 + nn) as u16
}

/// The instruction word with the nibble `n1` and the low twelve bits `nnn`.
pub open spec fn encode_address(n1: u8, nnn: u16) -> u16 {
    (n1 * 0x1000 + nnn) as u16
}

/// A word put together from four nibbles decodes to them.
pub proof fn lemma_fields_of_encode(n1: u8, n2: u8, n3: u8, n4: u8)
    requires
        n1 < 16,
        n2 < 16,
        n3 < 16,
        n4 < 16,
    ensures
        fields(encode(n1, n2, n3, n4)) == (Fields {
            n1,
            n2,
            n3,
            n4,
            nn: (n3 * 16 + n4) as u8,
            nnn: (n2 * 256 + n3 * 16 + n4) as u16,
        }),
{
    let word: u16 = (n1 as u16 * 0x1000 + n2 as u16 * 0x100 + n3 as u16 * 0x10 + n4 as u16) as u16;
    assert(word == encode(n1, n2, n3, n4));
    let a: u16 = n1 as u16;
    let b: u16 = n2 as u16;
    let c: u16 = n3 as u16;
    let d: u16 = n4 as u16;
    assert(word / 0x1000 == a && word / 0x100 % 0x10 == b && word / 0x10 % 0x10 == c && word % 0x10
        == d && word % 0x100 == c * 16 + d && word % 0x1000 == b * 256 + c * 16 + d)
        by (bit_vector)
        requires
            a < 16,
            b < 16,
            c < 16,
            d < 16,
            word == a * 0x1000 + b * 0x100 + c * 0x10 + d,
    ;
}

/// A word put together from two nibbles and a byte decodes to them.
pub proof fn lemma_fields_of_encode_byte(n1: u8, n2: u8, nn: u8)
    requires
        n1 < 16,
        n2 < 16,
    ensures
        fields(encode_byte(n1, n2, nn)).n1 == n1,
        fields(encode_byte(n1, n2, nn)).n2 == n2,
        fields(encode_byte(n1, n2, nn)).nn == nn,
        fields(encode_byte(n1, n2, nn)).n3 == nn / 16,
        fields(encode_byte(n1, n2, nn)).n4 == nn % 16,
        fields(encode_byte(n1, n2, nn)).nnn == n2 * 256 + nn,
{
    let word: u16 = (n1 as u16 * 0x1000 + n2 as u16 * 0x100 + nn as u16) as u16;
    assert(word == encode_byte(n1, n2, nn));
    let a: u16 = n1 as u16;
    let b: u16 = n2 as u16;
    let c: u16 = nn as u16;
    assert(word / 0x1000 == a && word / 0x100 % 0x10 == b && word / 0x10 % 0x10 == c / 16 && word
        % 0x10 == c % 16 && word % 0x100 == c && word % 0x1000 == b * 256 + c) by (bit_vector)
        requires
            a < 16,
            b < 16,
            c < 256,
            word == a * 0x1000 + b * 0x100 + c,
    ;
}

/// A word put together from a nibble and an address decodes to them.
pub proof fn lemma_fields_of_encode_address(n1: u8, nnn: u16)
    requires
        n1 < 16,
        nnn < 0x1000,
    ensures
        fields(encode_address(n1, nnn)).n1 == n1,
        fields(encode_address(n1, nnn)).nnn == nnn,
{
    let word: u16 = (n1 as u16 * 0x1000 + nnn) as u16;
    assert(word == encode_address(n1, nnn));
    let a: u16 = n1 as u16;
    assert(word / 0x1000 == a && word % 0x1000 == nnn) by (bit_vector)
        requires
            a < 16,
            nnn < 0x1000,
            word == a * 0x1000 + nnn,
    ;
}

} // verus!
