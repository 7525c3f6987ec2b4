//! Everything the client reads from the provider and decides about it.

pub mod models;
pub mod anubis;
pub mod auth;
pub mod catalog;
pub mod cdn;
pub mod details;
pub mod search;
pub mod countries;
pub mod stream;
pub mod session;
pub mod history_sync;
pub mod requests;
pub mod account;
pub mod storyboard;

use vstd::prelude::*;
use crate::client::models::{item_from, MediaItem, UserProfile};
use crate::client::session::cookies::signed_in_user;
use crate::error::ClientError;
use crate::text::{owned, string_views};

verus! {

/// Why a stored session could not be restored.
pub struct RestoreError {
    pub error: ClientError,
    /// Whether the stored session is worthless from here on. One the provider
    /// turned down is; one whose check never reached the provider is not, and
    /// discarding it would sign the account out over a lost connection.
    pub is_rejected: bool,
}

impl RestoreError {
    /// The provider turned the stored session down.
    pub fn rejected(error: ClientError) -> (r: RestoreError)
        ensures
            r.error == error,
            r.is_rejected,
    {
        RestoreError { error, is_rejected: true }
    }

    /// The check did not get an answer; the stored session may still be good.
    pub fn retryable(error: ClientError) -> (r: RestoreError)
        ensures
            r.error == error,
            !r.is_rejected,
    {
        RestoreError { error, is_rejected: false }
    }
}

/// The count after one more change, wrapping.
pub open spec fn next_generation(g: u64) -> u64 {
    if g == u64::MAX {
        0
    } else {
        (g + 1) as u64
    }
}

/// The count a caller sees: the account's own plus the session's, wrapping.
pub open spec fn combined_generation(g: u64, auth_epoch: u64) -> u64 {
    ((g as int + auth_epoch as int) % 0x1_0000_0000_0000_0000) as u64
}

/// Signing in or out, and clearing the session's cookies, each change the
/// count a caller sees: one that read it before reads another after.
pub proof fn law_account_changes_are_seen(g: u64, auth_epoch: u64)
    ensures
        combined_generation(next_generation(g), auth_epoch) != combined_generation(g, auth_epoch),
        combined_generation(g, next_generation(auth_epoch)) != combined_generation(g, auth_epoch),
{
}

/// The signed-in account, and a count that moves on every change of it so
/// that a caller can tell whether what it read is still current.
pub struct AccountState {
    pub user: Option<UserProfile>,
    pub generation: u64,
}

impl AccountState {
    /// Nobody signed in yet.
    pub fn new() -> (r: AccountState)
        ensures
            r.user is None,
            r.generation == 0,
    {
        AccountState { user: None, generation: 0 }
    }

    /// Signs `user` in, or everybody out; the count moves on, wrapping.
    pub fn set_account(&mut self, user: Option<UserProfile>)
        ensures
            final(self).user == user,
            final(self).generation == next_generation(old(self).generation),
    {
        self.user = user;
        self.generation = self.generation.wrapping_add(1);
    }

    /// The count a caller compares, made of this one and the session's own,
    /// which moves whenever the session's cookies are cleared.
    pub fn account_generation(&self, auth_epoch: u64) -> (r: u64)
        ensures
            r == combined_generation(self.generation, auth_epoch),
    {
        let r = self.generation.wrapping_add(auth_epoch);
        assert(r == combined_generation(self.generation, auth_epoch));
        r
    }

    /// Whether the account is still signed in: a user is set and the
    /// session's cookies sign that same user in.
    pub open spec fn signed_in(&self, header: Option<Seq<char>>) -> bool {
        &&& self.user is Some
        &&& header is Some
        &&& signed_in_user(header->0) == Some(self.user->0.user_id@)
    }

    /// The signed-in user, when the session's cookies `header` still sign it
    /// in.
    pub fn user(&self, header: Option<&str>) -> (r: Option<&UserProfile>)
        ensures
            self.signed_in(match header {
                Some(h) => Some(h@),
                None => None,
            }) ==> r == Some(&self.user->0),
            !self.signed_in(match header {
                Some(h) => Some(h@),
                None => None,
            }) ==> r is None,
    {
        match &self.user {
            Some(user) => if crate::client::session::credentials::signs_in(user.user_id.as_str(), header) {
                Some(user)
            } else {
                None
            },
            None => None,
        }
    }

    /// Refuses an account operation unless a user is set and the session
    /// still signs that user in.
    pub fn ensure_signed_in(&self, header: Option<&str>) -> (r: Result<(), String>)
        ensures
            self.user is None ==> (r matches Err(e) && e@ == "Authentication required"@),
            self.user is Some ==> (r is Ok <==> self.signed_in(match header {
                Some(h) => Some(h@),
                None => None,
            })),
            (self.user is Some && r is Err) ==> (r matches Err(e) && e@ == "Authenticated session is no longer valid"@),
    {
        match &self.user {
            None => Err(owned("Authentication required")),
            Some(user) => if crate::client::session::credentials::signs_in(user.user_id.as_str(), header) {
                Ok(())
            } else {
                Err(owned("Authenticated session is no longer valid"))
            },
        }
    }
}

/// Whether the favorites of a title already say what was asked: listed in
/// the collection exactly when it should be.
pub fn favorite_settled(category_ids: &Vec<i64>, category_id: i64, favorite: bool) -> (r: bool)
    ensures
        r == (category_ids@.contains(category_id) == favorite),
{
    let mut i: usize = 0;
    let mut found = false;
    while i < category_ids.len()
        invariant
            i <= category_ids.len(),
            found == category_ids@.subrange(0, i as int).contains(category_id),
        decreases category_ids.len() - i,
    {
        if category_ids[i] == category_id {
            found = true;
            assert(category_ids@.subrange(0, i + 1)[i as int] == category_id);
        } else {
            assert(category_ids@.subrange(0, i + 1) =~= category_ids@.subrange(0, i as int).push(category_ids@[i as int]));
        }
        i += 1;
    }
    assert(category_ids@.subrange(0, category_ids.len() as int) =~= category_ids@);
    found == favorite
}

/// The items not from any of the countries `hidden`, in their order.
pub open spec fn shown_items(items: Seq<MediaItem>, hidden: Seq<Seq<char>>) -> Seq<MediaItem>
    decreases items.len(),
{
    if items.len() == 0 {
        seq![]
    } else {
        let init = shown_items(items.drop_last(), hidden);
        if item_from(items.last(), hidden) {
            init
        } else {
            init.push(items.last())
        }
    }
}

/// A listing with the titles from the countries `hidden` left out, as
/// [`MediaItem::is_from`] tells them; every other title keeps its place.
pub fn shown(items: Vec<MediaItem>, hidden: &Vec<String>) -> (r: Vec<MediaItem>)
    ensures
        r@ == shown_items(items@, string_views(hidden@)),
{
    let ghost all = items@;
    let ghost hv = string_views(hidden@);
    let n = items.len();
    let mut rest = items;
    let mut reversed: Vec<MediaItem> = Vec::new();
    while rest.len() > 0
        invariant
            rest@.len() + reversed@.len() == n,
            n == all.len(),
            rest@ == all.subrange(0, rest@.len() as int),
            forall|j: int| 0 <= j < reversed@.len() ==> #[trigger] reversed@[j] == all[n - 1 - j],
        decreases rest@.len(),
    {
        let item = rest.pop().unwrap();
        assert(rest@ =~= all.subrange(0, rest@.len() as int));
        reversed.push(item);
    }
    let mut out: Vec<MediaItem> = Vec::new();
    while reversed.len() > 0
        invariant
            reversed@.len() <= n,
            n == all.len(),
            hv == string_views(hidden@),
            forall|j: int| 0 <= j < reversed@.len() ==> #[trigger] reversed@[j] == all[n - 1 - j],
            out@ == shown_items(all.subrange(0, n - reversed@.len()), hv),
        decreases reversed@.len(),
    {
        let ghost k = n - reversed@.len();
        let item = reversed.pop().unwrap();
        assert(item == all[k]);
        assert(all.subrange(0, k + 1).drop_last() =~= all.subrange(0, k));
        if !item.is_from(hidden) {
            out.push(item);
        }
    }
    assert(all.subrange(0, n as int) =~= all);
    out
}

} // verus!
