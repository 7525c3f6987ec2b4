//! The checks a stored session passes before the session takes it back, and
//! the text it is kept under.

use vstd::prelude::*;
use crate::client::session::OFFICIAL_MIRROR;
use crate::client::session::cookies::{authenticated_user, parses_as_url, signed_in_user, url_parses, StoredCookie};
use crate::client::stream::{host_of, url_host};
use crate::text::{chars_of, is_str, opt_view, owned, push_all, push_str, string_of};

verus! {

/// The format a stored session is written in.
pub const SESSION_VERSION: u8 = 1;

/// A signed-in session as it is stored: the format, the provider, the user
/// and the cookies that sign the user in.
pub struct SessionSecret {
    pub version: u8,
    pub provider: String,
    pub user_id: String,
    pub cookies: Vec<StoredCookie>,
}

/// The reason every malformed or foreign stored session is turned down with.
pub open spec fn invalid_message() -> Seq<char> {
    "Stored session is invalid"@
}

/// What the session may export: the cookies of the user signed in, or
/// nothing when nobody is.
pub fn export_secret(authenticated: Option<String>, cookies: Vec<StoredCookie>) -> (r: Result<SessionSecret, String>)
    ensures
        match authenticated {
            Some(u) => r matches Ok(s) && s.version == SESSION_VERSION && s.provider@ == OFFICIAL_MIRROR@
                && s.user_id@ == u@ && s.cookies@ == cookies@,
            None => r matches Err(e) && e@ == "Authentication required"@,
        },
{
    match authenticated {
        Some(user_id) => Ok(SessionSecret {
            version: SESSION_VERSION,
            provider: owned(OFFICIAL_MIRROR),
            user_id,
            cookies,
        }),
        None => Err(owned("Authentication required")),
    }
}

/// A stored session the session may import: the current format, the
/// official provider, a user and at least one cookie.
pub open spec fn importable(secret: SessionSecret) -> bool {
    &&& secret.version == SESSION_VERSION
    &&& secret.provider@ == OFFICIAL_MIRROR@
    &&& secret.user_id@.len() > 0
    &&& secret.cookies@.len() > 0
}

/// Turns down a stored session that is not [`importable`].
pub fn check_import(secret: &SessionSecret) -> (r: Result<(), String>)
    ensures
        r is Ok <==> importable(*secret),
        r matches Err(e) ==> e@ == invalid_message(),
{
    let user = chars_of(secret.user_id.as_str());
    if secret.version != SESSION_VERSION || !is_str(&chars_of(secret.provider.as_str()), OFFICIAL_MIRROR)
        || user.len() == 0 || secret.cookies.len() == 0 {
        return Err(owned("Stored session is invalid"));
    }
    Ok(())
}

/// Whether the cookies the jar holds once a stored session was put in sign
/// in the user that session is for.
pub fn signs_in(user_id: &str, header: Option<&str>) -> (r: bool)
    ensures
        r == match header {
            Some(h) => signed_in_user(h@) == Some(user_id@),
            None => false,
        },
{
    match authenticated_user(header) {
        Some(u) => is_str(&chars_of(u.as_str()), user_id),
        None => false,
    }
}

/// A session kept in the system keyring may be restored for `user_id` when
/// it is in the current format, for the official provider and that user.
pub open spec fn restorable_for(secret: SessionSecret, user_id: Seq<char>) -> bool {
    &&& secret.version == SESSION_VERSION
    &&& secret.provider@ == OFFICIAL_MIRROR@
    &&& secret.user_id@ == user_id
}

/// Turns down a kept session that is not [`restorable_for`] the account.
pub fn check_restore(secret: &SessionSecret, user_id: &str) -> (r: Result<(), String>)
    ensures
        r is Ok <==> restorable_for(*secret, user_id@),
        r matches Err(e) ==> e@ == "Stored session does not match the requested account"@,
{
    if secret.version != SESSION_VERSION || !is_str(&chars_of(secret.provider.as_str()), OFFICIAL_MIRROR)
        || !is_str(&chars_of(secret.user_id.as_str()), user_id) {
        return Err(owned("Stored session does not match the requested account"));
    }
    Ok(())
}

/// Only a session with the official provider, signed in as `user_id`, may
/// be kept in the keyring.
pub fn check_persist(base_url: &str, user_id: &str, header: Option<&str>) -> (r: Result<(), String>)
    ensures
        base_url@ != OFFICIAL_MIRROR@ ==> (r matches Err(e) && e@ == "Only official-provider sessions can be persisted"@),
        base_url@ == OFFICIAL_MIRROR@ ==> match header {
            Some(h) => if signed_in_user(h@) == Some(user_id@) {
                r is Ok
            } else {
                r matches Err(e) && e@ == "Cannot persist an unverified session"@
            },
            None => r matches Err(e) && e@ == "Cannot persist an unverified session"@,
        },
{
    if !is_str(&chars_of(base_url), OFFICIAL_MIRROR) {
        return Err(owned("Only official-provider sessions can be persisted"));
    }
    if !signs_in(user_id, header) {
        return Err(owned("Cannot persist an unverified session"));
    }
    Ok(())
}

/// The keyring account a user's session is kept under.
pub fn keyring_account(user_id: &str) -> (r: String)
    ensures
        r@ == "hdrzk.org:"@ + user_id@,
{
    let mut out = chars_of("hdrzk.org:");
    push_all(&mut out, &chars_of(user_id));
    string_of(out.as_slice())
}

/// What clearing the stored session reports, from whether the old cookie
/// file and the keyring entry are gone.
pub open spec fn clear_message(legacy_removed: bool, keyring_removed: bool) -> Option<Seq<char>> {
    if legacy_removed && keyring_removed {
        None
    } else if keyring_removed {
        Some("Legacy session file could not be removed"@)
    } else if legacy_removed {
        Some("System keyring is unavailable; stored session was not removed"@)
    } else {
        Some("Stored session could not be fully removed from disk or the system keyring"@)
    }
}

pub fn clear_outcome(legacy_removed: bool, keyring_removed: bool) -> (r: Result<(), String>)
    ensures
        match clear_message(legacy_removed, keyring_removed) {
            None => r is Ok,
            Some(m) => r matches Err(e) && e@ == m,
        },
{
    if legacy_removed && keyring_removed {
        Ok(())
    } else if keyring_removed {
        Err(owned("Legacy session file could not be removed"))
    } else if legacy_removed {
        Err(owned("System keyring is unavailable; stored session was not removed"))
    } else {
        Err(owned("Stored session could not be fully removed from disk or the system keyring"))
    }
}

/// The cookie an old cookie file's `name` and `value` become: set for the
/// provider's host, on every path, secure and hidden from scripts.
pub open spec fn legacy_header(host: Seq<char>, name: Seq<char>, value: Seq<char>) -> Seq<char> {
    name + "="@ + value + "; Domain="@ + host + "; Path=/; Secure; HttpOnly"@
}

/// The cookies an old cookie file held for the provider, in the order given.
pub fn legacy_cookies(url: &str, host: &str, pairs: &Vec<(String, String)>) -> (r: Vec<StoredCookie>)
    ensures
        r@.len() == pairs@.len(),
        forall|i: int| 0 <= i < pairs@.len() ==> #[trigger] r@[i].url@ == url@
            && r@[i].header@ == legacy_header(host@, pairs@[i].0@, pairs@[i].1@),
{
    let mut out: Vec<StoredCookie> = Vec::new();
    let mut i: usize = 0;
    proof {
        reveal_strlit("=");
        reveal_strlit("; Domain=");
        reveal_strlit("; Path=/; Secure; HttpOnly");
    }
    while i < pairs.len()
        invariant
            i <= pairs.len(),
            out@.len() == i,
            forall|j: int| 0 <= j < i ==> #[trigger] out@[j].url@ == url@
                && out@[j].header@ == legacy_header(host@, pairs@[j].0@, pairs@[j].1@),
        decreases pairs.len() - i,
    {
        let mut h = chars_of(pairs[i].0.as_str());
        push_str(&mut h, "=");
        push_all(&mut h, &chars_of(pairs[i].1.as_str()));
        push_str(&mut h, "; Domain=");
        push_all(&mut h, &chars_of(host));
        push_str(&mut h, "; Path=/; Secure; HttpOnly");
        out.push(StoredCookie { url: owned(url), header: string_of(h.as_slice()) });
        i += 1;
    }
    out
}

/// What an old cookie file signs in, once its cookies are in the jar: the
/// user they name, unless none is named or it is not the one expected.
pub fn legacy_outcome(expected: Option<&str>, header: Option<&str>) -> (r: Result<String, String>)
    ensures
        match (match header {
            Some(h) => signed_in_user(h@),
            None => None,
        }) {
            None => r matches Err(e) && e@ == "Legacy session is incomplete"@,
            Some(u) => match expected {
                Some(x) => if x@ == u {
                    r matches Ok(v) && v@ == u
                } else {
                    r matches Err(e) && e@ == "Legacy session belongs to another account"@
                },
                None => r matches Ok(v) && v@ == u,
            },
        },
{
    let user = match authenticated_user(header) {
        Some(u) => u,
        None => return Err(owned("Legacy session is incomplete")),
    };
    match expected {
        Some(x) => {
            if !is_str(&chars_of(user.as_str()), x) {
                return Err(owned("Legacy session belongs to another account"));
            }
        },
        None => {},
    }
    Ok(user)
}


/// A session exported while a user is signed in, with at least one cookie,
/// passes the import check and may be restored for that same user.
pub proof fn law_exported_session_is_accepted(secret: SessionSecret, user_id: Seq<char>)
    requires
        secret.version == SESSION_VERSION,
        secret.provider@ == OFFICIAL_MIRROR@,
        secret.user_id@ == user_id,
        user_id.len() > 0,
        secret.cookies@.len() > 0,
    ensures
        importable(secret),
        restorable_for(secret, user_id),
{
}

/// The host an old cookie file kept the provider's cookies under: the host
/// of the provider's address, which must read as an address with a host.
pub fn provider_host(base_url: &str) -> (r: Result<String, String>)
    ensures
        !url_parses(base_url@) ==> (r matches Err(e) && e@ == "Official provider URL is invalid"@),
        url_parses(base_url@) ==> match url_host(base_url@) {
            Some(h) => r matches Ok(x) && x@ == h,
            None => r matches Err(e) && e@ == "Official provider URL has no host"@,
        },
{
    if !parses_as_url(base_url) {
        return Err(owned("Official provider URL is invalid"));
    }
    match host_of(base_url) {
        Some(h) => Ok(h),
        None => Err(owned("Official provider URL has no host")),
    }
}

} // verus!
