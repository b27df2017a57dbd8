//! Canonical identities: the lowercase hexadecimal text of a key identifier.

use vstd::prelude::*;
use vstd::string::*;

verus! {

/// The hexadecimal digit of a value below sixteen, in lower case.
pub open spec fn hex_digit(n: u8) -> char {
    seq!['0', '1', '2', '3', '4', '5', '6', '7', '8', '9', 'a', 'b', 'c', 'd', 'e', 'f'][n as int]
}

/// Two lowercase hexadecimal digits per byte, high nibble first.
pub open spec fn hex_text(b: Seq<u8>) -> Seq<char>
    decreases b.len(),
{
    if b.len() == 0 {
        seq![]
    } else {
        hex_text(b.drop_last()) + seq![hex_digit(b.last() / 16), hex_digit(b.last() % 16)]
    }
}

pub open spec fn is_hex_char(c: char) -> bool {
    ('0' <= c && c <= '9') || ('a' <= c && c <= 'f')
}

/// A well-formed identity: the lowercase hexadecimal text of an eight-byte
/// key id.
pub open spec fn is_identity(s: Seq<char>) -> bool {
    s.len() == 16 && forall|i: int| 0 <= i < s.len() ==> is_hex_char(#[trigger] s[i])
}

pub proof fn lemma_hex_text_len(b: Seq<u8>)
    ensures
        hex_text(b).len() == 2 * b.len(),
    decreases b.len(),
{
    if b.len() > 0 {
        lemma_hex_text_len(b.drop_last());
    }
}

pub proof fn lemma_hex_text_chars(b: Seq<u8>)
    ensures
        forall|i: int| 0 <= i < hex_text(b).len() ==> is_hex_char(#[trigger] hex_text(b)[i]),
    decreases b.len(),
{
    if b.len() > 0 {
        lemma_hex_text_chars(b.drop_last());
        lemma_hex_text_len(b.drop_last());
        let hi = b.last() / 16;
        let lo = b.last() % 16;
        assert(is_hex_char(hex_digit(hi)) && is_hex_char(hex_digit(lo))) by {
            reveal_with_fuel(hex_digit, 1);
        }
    }
}

/// Hex text of an eight-byte key id is a well-formed identity.
pub proof fn lemma_hex_text_is_identity(b: Seq<u8>)
    requires
        b.len() == 8,
    ensures
        is_identity(hex_text(b)),
{
    lemma_hex_text_len(b);
    lemma_hex_text_chars(b);
}

/// Relies on hex::encode: two lowercase digits for each byte, in order.
#[verifier::external_body]
fn hex_encode(b: &[u8]) -> (r: String)
    ensures
        r@ == hex_text(b@),
{
    hex::encode(b)
}

/// The canonical text of a key identifier.
pub fn key_id_to_text(key_id: &[u8]) -> (r: String)
    ensures
        r@ == hex_text(key_id@),
        key_id@.len() == 8 ==> is_identity(r@),
{
    proof {
        if key_id@.len() == 8 {
            lemma_hex_text_is_identity(key_id@);
        }
    }
    hex_encode(key_id)
}

/// Whether `s` is a well-formed identity.
pub fn is_canonical_identity(s: &str) -> (r: bool)
    ensures
        r == is_identity(s@),
{
    let n = s.unicode_len();
    if n != 16 {
        return false;
    }
    let mut i: usize = 0;
    while i < n
        invariant
            n == s@.len(),
            i <= n,
            forall|k: int| 0 <= k < i ==> is_hex_char(#[trigger] s@[k]),
        decreases n - i,
    {
        let c = s.get_char(i);
        if !(('0' <= c && c <= '9') || ('a' <= c && c <= 'f')) {
            return false;
        }
        i += 1;
    }
    true
}

} // verus!
