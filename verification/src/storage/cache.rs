//! Posters kept on this device, each under a name made from its address.
//! Where the files live and reading and writing them is the front end's.

use vstd::prelude::*;
use crate::client::anubis::{hex_encode, hex_lower, sha256_digest, sha256_of};
use crate::text::{chars_of, push_str, string_of};

verus! {

/// The poster cache.
pub struct ImageCache;

impl ImageCache {
    /// The file a poster at `url` is kept in: the SHA-256 of the address in
    /// lowercase hex, with `.img` after it.
    pub fn file_name(url: &str) -> (r: String)
        ensures
            r@ == hex_lower(sha256_digest(url@)) + ".img"@,
    {
        let digest = sha256_of(url);
        let hex = hex_encode(digest.as_slice());
        let mut out = chars_of(hex.as_str());
        push_str(&mut out, ".img");
        string_of(out.as_slice())
    }
}

} // verus!
