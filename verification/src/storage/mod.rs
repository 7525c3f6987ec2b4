//! What the client keeps on this device for each account, and how each
//! stored value changes. Reading and writing the files is the front end's.

pub mod search_history;
pub mod seen_notifications;
pub mod settings;
pub mod history;
pub mod cache;

use vstd::prelude::*;
use vstd::utf8::encode_utf8;
use crate::client::anubis::{hex_encode, hex_lower};
use crate::text::{chars_of, push_all, string_of};

verus! {

/// The directory an account's files are kept in: `user-` and the user id's
/// UTF-8 bytes in lowercase hex, so that no provider id ever becomes a path
/// of its own.
pub fn account_dir(user_id: &str) -> (r: String)
    ensures
        r@ == "user-"@ + hex_lower(encode_utf8(user_id@)),
{
    let hex = hex_encode(user_id.as_bytes());
    let mut out = chars_of("user-");
    push_all(&mut out, &chars_of(hex.as_str()));
    string_of(out.as_slice())
}

} // verus!
