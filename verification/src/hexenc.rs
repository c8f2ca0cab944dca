//! Hex encoding of identifier bytes, used for persistence file names and the
//! dashboard summary.

use vstd::prelude::*;

verus! {

/// Lowercase hexadecimal digit for a value in `0..16`: `0..=9` map to
/// `'0'..='9'` (codes 48..=57), `10..=15` map to `'a'..='f'` (codes 97..=102).
pub open spec fn spec_hex_digit(n: int) -> u8 {
    if n < 10 {
        (48 + n) as u8
    } else {
        (87 + n) as u8
    }
}

/// Lowercase hex encoding of a byte sequence: two digits per byte, most
/// significant digit first.
pub open spec fn spec_hex_of(s: Seq<u8>) -> Seq<u8>
    decreases s.len(),
{
    if s.len() == 0 {
        Seq::empty()
    } else {
        seq![spec_hex_digit(s.first() as int / 16), spec_hex_digit(s.first() as int % 16)]
            + spec_hex_of(s.drop_first())
    }
}

/// Relies on `hex::encode`: it returns the lowercase hex encoding of the
/// input, two digits per byte, most significant digit first.
#[verifier::external_body]
pub(crate) fn hex_encode_bytes(b: &Vec<u8>) -> (r: Vec<u8>)
    ensures
        r@ == spec_hex_of(b@),
{
    hex::encode(b).into_bytes()
}

/// The hex encoding of a sequence has exactly two digits per input byte.
pub proof fn lemma_hex_len(s: Seq<u8>)
    ensures
        spec_hex_of(s).len() == 2 * s.len(),
    decreases s.len(),
{
    if s.len() > 0 {
        lemma_hex_len(s.drop_first());
    }
}

/// The digit images of two nibbles agree only when the nibbles do.
proof fn lemma_hex_digit_injective(x: int, y: int)
    requires
        0 <= x < 16,
        0 <= y < 16,
        spec_hex_digit(x) == spec_hex_digit(y),
    ensures
        x == y,
{
}

/// Hex encoding is injective: two byte sequences with the same encoding
/// are the same sequence.
pub proof fn lemma_hex_injective(a: Seq<u8>, b: Seq<u8>)
    requires
        spec_hex_of(a) == spec_hex_of(b),
    ensures
        a == b,
    decreases a.len(),
{
    lemma_hex_len(a);
    lemma_hex_len(b);
    if a.len() == 0 {
        assert(a =~= b);
    } else {
        let ha = spec_hex_of(a);
        let hb = spec_hex_of(b);
        let fa = a.first() as int;
        let fb = b.first() as int;
        assert(ha[0] == spec_hex_digit(fa / 16) && ha[1] == spec_hex_digit(fa % 16));
        assert(hb[0] == spec_hex_digit(fb / 16) && hb[1] == spec_hex_digit(fb % 16));
        lemma_hex_digit_injective(fa / 16, fb / 16);
        lemma_hex_digit_injective(fa % 16, fb % 16);
        vstd::arithmetic::div_mod::lemma_fundamental_div_mod(fa, 16);
        vstd::arithmetic::div_mod::lemma_fundamental_div_mod(fb, 16);
        assert(a.first() == b.first());
        assert(ha.skip(2) =~= spec_hex_of(a.drop_first()));
        assert(hb.skip(2) =~= spec_hex_of(b.drop_first()));
        lemma_hex_injective(a.drop_first(), b.drop_first());
        assert forall|i: int| 0 <= i < a.len() implies a[i] == b[i] by {
            if i > 0 {
                assert(a.drop_first()[i - 1] == a[i]);
                assert(b.drop_first()[i - 1] == b[i]);
            }
        };
        assert(a =~= b);
    }
}

} // verus!
