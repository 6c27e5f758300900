//! Generation of high-entropy configuration secrets.
use vstd::prelude::*;
use rand::Rng;

verus! {

/// The lowercase hexadecimal digit for a value below 16.
pub open spec fn hex_digit(n: u8) -> char
    recommends
        n < 16,
{
    if n < 10 {
        (48 + n) as char
    } else {
        (87 + n) as char
    }
}

/// The lowercase hexadecimal rendering of a byte sequence: two digits per
/// byte, high nibble first.
pub open spec fn hex_of(b: Seq<u8>) -> Seq<char> {
    Seq::new(
        2 * b.len(),
        |i: int|
            if i % 2 == 0 {
                hex_digit(b[i / 2] / 16)
            } else {
                hex_digit(b[i / 2] % 16)
            },
    )
}

/// Relies on hex::encode: renders each byte as two lowercase hexadecimal
/// digits, high nibble first.
#[verifier::external_body]
fn hex_encode(bytes: &Vec<u8>) -> (r: String)
    ensures
        r@ == hex_of(bytes@),
{
    hex::encode(bytes)
}

/// Relies on rand::Rng::fill over rand::thread_rng: fills a 32-byte buffer;
/// nothing is assumed of the drawn values.
#[verifier::external_body]
fn random_32_bytes() -> (r: Vec<u8>)
    ensures
        r@.len() == 32,
{
    let mut bytes = [0u8; 32];
    rand::thread_rng().fill(&mut bytes);
    bytes.to_vec()
}

/// Relies on rand::Rng::gen over rand::thread_rng: one random 64-bit
/// value; nothing is assumed of it.
#[verifier::external_body]
pub(crate) fn random_nonce() -> (r: u64) {
    rand::thread_rng().gen()
}

/// Draw 32 random bytes and render them as a 64-character hexadecimal
/// string, suitable as a default secret: the hex form of some 32-byte
/// value, from which every byte is recoverable.
pub fn compute_random_32_bytes_key() -> (r: String)
    ensures
        r@.len() == 64,
        exists|b: Seq<u8>| b.len() == 32 && r@ == #[trigger] hex_of(b),
{
    let bytes = random_32_bytes();
    hex_encode(&bytes)
}

/// Relies on chrono::Utc::now: the seconds since the Unix epoch as the
/// system clock reports them; nothing is assumed of the value.
#[verifier::external_body]
fn utc_timestamp() -> (r: i64) {
    chrono::Utc::now().timestamp()
}

/// The current instant in seconds since the Unix epoch, clamped at zero
/// for a clock set before the epoch. Callers hand this to the token codec
/// and the rotation protocol, which are specified for every value of it.
pub fn current_timestamp() -> (r: u64) {
    let ts = utc_timestamp();
    if ts < 0 {
        0
    } else {
        ts as u64
    }
}

} // verus!
