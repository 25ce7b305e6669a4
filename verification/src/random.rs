//! Random secrets in their printable form: bytes from the operating
//! system's random source, written out as lowercase hexadecimal.
use rand::rngs::SysRng;
use rand::TryRng;
use vstd::prelude::*;

verus! {

/// The lowercase hexadecimal digit for a value below sixteen.
pub open spec fn hex_digit(value: u8) -> char {
    if value < 10 {
        (('0' as u8) + value) as char
    } else {
        (('a' as u8) + value - 10) as char
    }
}

/// Two lowercase hexadecimal digits per byte, high nibble first.
pub open spec fn hex_of(bytes: Seq<u8>) -> Seq<char>
    decreases bytes.len(),
{
    if bytes.len() == 0 {
        Seq::empty()
    } else {
        hex_of(bytes.drop_last()) + seq![
            hex_digit(bytes.last() / 16),
            hex_digit(bytes.last() % 16),
        ]
    }
}

/// Whether every character is a lowercase hexadecimal digit.
pub open spec fn is_lower_hex(text: Seq<char>) -> bool {
    forall|i: int|
        0 <= i < text.len() ==> ('0' <= #[trigger] text[i] <= '9' || 'a' <= text[i] <= 'f')
}

/// `hex::encode`: the bytes as lowercase hexadecimal, two digits per byte.
#[verifier::external_body]
pub(crate) fn hex_encode(bytes: &[u8]) -> (text: String)
    ensures
        text@ == hex_of(bytes@),
{
    hex::encode(bytes)
}

/// `SysRng.try_fill_bytes(..)` on a buffer of `count` zero bytes: that many
/// bytes from the operating system's random source, or `None` where that
/// source reports a failure. Which bytes come out, and whether the source
/// fails, is left unsaid: both rest on the operating system.
#[verifier::external_body]
pub(crate) fn random_bytes(count: usize) -> (bytes: Option<Vec<u8>>)
    requires
        count <= isize::MAX,
    ensures
        bytes matches Some(b) ==> b@.len() == count,
{
    let mut bytes = vec![0_u8; count];
    match SysRng.try_fill_bytes(&mut bytes[..]) {
        Ok(()) => Some(bytes),
        Err(_) => None,
    }
}

pub proof fn lemma_hex_shape(bytes: Seq<u8>)
    ensures
        hex_of(bytes).len() == 2 * bytes.len(),
        is_lower_hex(hex_of(bytes)),
    decreases bytes.len(),
{
    if bytes.len() > 0 {
        lemma_hex_shape(bytes.drop_last());
        let prefix = hex_of(bytes.drop_last());
        let hi = hex_digit(bytes.last() / 16);
        let lo = hex_digit(bytes.last() % 16);
        assert(hex_of(bytes) == prefix + seq![hi, lo]);
        assert forall|i: int| 0 <= i < hex_of(bytes).len() implies ('0' <= #[trigger] hex_of(
            bytes,
        )[i] <= '9' || 'a' <= hex_of(bytes)[i] <= 'f') by {
            if i < prefix.len() {
                assert(hex_of(bytes)[i] == prefix[i]);
            }
        }
    }
}

/// A fresh random secret of `count` bytes, written as `2 * count` lowercase
/// hexadecimal digits; `None` where the operating system's random source
/// failed.
pub fn random_hex(count: usize) -> (secret: Option<String>)
    requires
        count <= isize::MAX,
    ensures
        secret matches Some(s) ==> (exists|bytes: Seq<u8>| bytes.len() == count && s@ == hex_of(bytes))
            && s@.len() == 2 * count && is_lower_hex(s@),
{
    match random_bytes(count) {
        Some(bytes) => {
            let secret = hex_encode(bytes.as_slice());
            proof {
                lemma_hex_shape(bytes@);
            }
            Some(secret)
        },
        None => None,
    }
}

} // verus!
