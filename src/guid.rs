use vstd::prelude::*;
use vstd::string::StringExecFns;

verus! {

/// Where byte `i` of a GUID's on-disk (mixed-endian) form comes from in its
/// canonical form: the first three fields are stored little-endian, the last
/// two as they are.
pub open spec fn mixed_index(i: int) -> int {
    if i < 4 {
        3 - i
    } else if i < 6 {
        9 - i
    } else if i < 8 {
        13 - i
    } else {
        i
    }
}

/// The mixed-endian form of a 16-byte GUID. The same reordering turns the
/// on-disk form back into the canonical one.
pub open spec fn mixed_endian(g: Seq<u8>) -> Seq<u8> {
    Seq::new(16, |i: int| g[mixed_index(i)])
}

/// The lowercase hexadecimal digit of `n` (below 16).
pub open spec fn hex_char(n: u8) -> char {
    if n == 0 { '0' } else if n == 1 { '1' } else if n == 2 { '2' } else if n == 3 { '3' }
    else if n == 4 { '4' } else if n == 5 { '5' } else if n == 6 { '6' } else if n == 7 { '7' }
    else if n == 8 { '8' } else if n == 9 { '9' } else if n == 10 { 'a' } else if n == 11 { 'b' }
    else if n == 12 { 'c' } else if n == 13 { 'd' } else if n == 14 { 'e' } else { 'f' }
}

/// Two lowercase hexadecimal digits of a byte.
pub open spec fn hex_byte(b: u8) -> Seq<char> {
    seq![hex_char(b >> 4u8), hex_char(b & 15u8)]
}

/// Which hexadecimal digit of a GUID stands at position `i` of its text,
/// where the text is 8-4-4-4-12 digits joined by hyphens.
pub open spec fn guid_digit_index(i: int) -> int {
    if i < 8 {
        i
    } else if i < 13 {
        i - 1
    } else if i < 18 {
        i - 2
    } else if i < 23 {
        i - 3
    } else {
        i - 4
    }
}

/// Digit `k` of the 32 hexadecimal digits of `g`, most significant first.
pub open spec fn guid_digit(g: Seq<u8>, k: int) -> char {
    if k % 2 == 0 {
        hex_char(g[k / 2] >> 4u8)
    } else {
        hex_char(g[k / 2] & 15u8)
    }
}

/// The lowercase hyphenated text of a GUID in canonical byte order.
pub open spec fn guid_text(g: Seq<u8>) -> Seq<char> {
    Seq::new(
        36,
        |i: int|
            if i == 8 || i == 13 || i == 18 || i == 23 {
                '-'
            } else {
                guid_digit(g, guid_digit_index(i))
            },
    )
}

/// Relies on uuid's `Uuid::from_bytes` and `Uuid::to_bytes_le`: the first
/// three fields reversed, the rest kept.
#[verifier::external_body]
fn uuid_to_bytes_le(g: [u8; 16]) -> (r: [u8; 16])
    ensures
        r@ == mixed_endian(g@),
{
    uuid::Uuid::from_bytes(g).to_bytes_le()
}

/// Relies on uuid's `Uuid::from_bytes_le` and `Uuid::into_bytes`: the
/// first three fields reversed, the rest kept.
#[verifier::external_body]
fn uuid_from_bytes_le(b: [u8; 16]) -> (r: [u8; 16])
    ensures
        r@ == mixed_endian(b@),
{
    uuid::Uuid::from_bytes_le(b).into_bytes()
}

/// Relies on uuid's `Uuid::new_v4`: random bytes, with the version nibble
/// set to 4 and the variant bits to RFC 4122.
#[verifier::external_body]
fn uuid_new_v4() -> (r: [u8; 16])
    ensures
        r@[6] & 0xF0u8 == 0x40u8,
        r@[8] & 0xC0u8 == 0x80u8,
{
    uuid::Uuid::new_v4().into_bytes()
}

/// Relies on uuid's `Display` for `Uuid`: lowercase hexadecimal digits in
/// groups of 8-4-4-4-12, joined by hyphens.
#[verifier::external_body]
fn uuid_to_string(g: [u8; 16]) -> (r: String)
    ensures
        r@ == guid_text(g@),
{
    uuid::Uuid::from_bytes(g).to_string()
}

/// The on-disk (mixed-endian) form of a GUID given in canonical byte order.
pub fn encode_gpt_guid(g: &[u8; 16]) -> (r: [u8; 16])
    ensures
        r@ == mixed_endian(g@),
{
    uuid_to_bytes_le(*g)
}

/// The canonical byte order of a GUID read from disk in mixed-endian form.
pub fn decode_gpt_guid(b: &[u8; 16]) -> (r: [u8; 16])
    ensures
        r@ == mixed_endian(b@),
{
    uuid_from_bytes_le(*b)
}

/// A fresh random (version 4) GUID, in canonical byte order.
pub fn random_guid() -> (r: [u8; 16])
    ensures
        r@[6] & 0xF0u8 == 0x40u8,
        r@[8] & 0xC0u8 == 0x80u8,
{
    uuid_new_v4()
}

/// The lowercase hyphenated text of a GUID given in canonical byte order.
pub fn guid_to_string(g: &[u8; 16]) -> (r: String)
    ensures
        r@ == guid_text(g@),
{
    uuid_to_string(*g)
}

/// Decoding a GUID's on-disk form gives back the GUID: the mixed-endian
/// reordering undoes itself.
pub proof fn lemma_guid_round_trip(g: Seq<u8>)
    requires
        g.len() == 16,
    ensures
        mixed_endian(mixed_endian(g)) == g,
{
    assert(mixed_endian(mixed_endian(g)) =~= g);
}

/// The one-character text of the hexadecimal digit `n`.
fn hex_digit_str(n: u8) -> (r: &'static str)
    requires
        n < 16,
    ensures
        r@ == seq![hex_char(n)],
{
    let r = if n == 0 { "0" } else if n == 1 { "1" } else if n == 2 { "2" } else if n == 3 { "3" }
    else if n == 4 { "4" } else if n == 5 { "5" } else if n == 6 { "6" } else if n == 7 { "7" }
    else if n == 8 { "8" } else if n == 9 { "9" } else if n == 10 { "a" } else if n == 11 { "b" }
    else if n == 12 { "c" } else if n == 13 { "d" } else if n == 14 { "e" } else { "f" };
    proof {
        reveal_strlit("0"); reveal_strlit("1"); reveal_strlit("2"); reveal_strlit("3");
        reveal_strlit("4"); reveal_strlit("5"); reveal_strlit("6"); reveal_strlit("7");
        reveal_strlit("8"); reveal_strlit("9"); reveal_strlit("a"); reveal_strlit("b");
        reveal_strlit("c"); reveal_strlit("d"); reveal_strlit("e"); reveal_strlit("f");
    }
    assert(r@ =~= seq![hex_char(n)]);
    r
}

/// Appends the two lowercase hexadecimal digits of `b` to `s`.
pub fn push_hex_byte(s: &mut String, b: u8)
    ensures
        final(s)@ == old(s)@ + hex_byte(b),
{
    let hi = b >> 4u8;
    let lo = b & 15u8;
    assert(hi < 16) by (bit_vector)
        requires
            hi == b >> 4u8,
    ;
    assert(lo < 16) by (bit_vector)
        requires
            lo == b & 15u8,
    ;
    s.append(hex_digit_str(hi));
    s.append(hex_digit_str(lo));
    assert(s@ =~= old(s)@ + hex_byte(b));
}

} // verus!
