//! Process-wide configuration: hashing pepper, signing secrets, and token
//! lifetimes.
use vstd::prelude::*;
use crate::utils::{compute_random_32_bytes_key, hex_of};

verus! {

/// Secrets and token lifetimes. The pepper keys password hashing; the two
/// signing secrets are independent so that compromise of one cannot forge
/// tokens under the other.
pub struct Config {
    pub argon_secret: String,
    pub access_token_secret: String,
    pub refresh_token_secret: String,
    pub refresh_token_ttl_sec: u64,
    pub access_token_ttl_sec: u64,
}

impl Default for Config {
    /// Fresh high-entropy secrets, a two-day refresh lifetime and a
    /// one-hour access lifetime. Each secret is the hexadecimal form of
    /// some 32-byte value of its own draw.
    fn default() -> (c: Config)
        ensures
            c.argon_secret@.len() == 64,
            c.access_token_secret@.len() == 64,
            c.refresh_token_secret@.len() == 64,
            exists|b: Seq<u8>| b.len() == 32 && c.argon_secret@ == #[trigger] hex_of(b),
            exists|b: Seq<u8>| b.len() == 32 && c.access_token_secret@ == #[trigger] hex_of(b),
            exists|b: Seq<u8>| b.len() == 32 && c.refresh_token_secret@ == #[trigger] hex_of(b),
            c.refresh_token_ttl_sec == 172800,
            c.access_token_ttl_sec == 3600,
    {
        Config {
            argon_secret: compute_random_32_bytes_key(),
            access_token_secret: compute_random_32_bytes_key(),
            refresh_token_secret: compute_random_32_bytes_key(),
            refresh_token_ttl_sec: 172800,
            access_token_ttl_sec: 3600,
        }
    }
}

} // verus!
