//! The decisions of signing in and out that do not depend on the provider:
//! what a restore tries next, and what a sign-out reports.

use vstd::prelude::*;
use crate::error::{classified, ClientError};
use crate::text::owned;

verus! {

/// What restoring a session does after asking the system keyring.
pub enum KeyringRestore {
    /// A session was restored: check it with the provider.
    Verify,
    /// Nothing usable was kept there: try the old cookie file.
    TryLegacy,
    /// The keyring failed and there is no old cookie file to fall back on.
    Fail(String),
}

/// The next step of a restore, from what the keyring gave back and whether
/// an old cookie file exists.
pub fn after_keyring(restored: Result<bool, String>, legacy_file_exists: bool) -> (r: KeyringRestore)
    ensures
        match restored {
            Ok(true) => r is Verify,
            Ok(false) => r is TryLegacy,
            Err(e) => if legacy_file_exists {
                r is TryLegacy
            } else {
                r matches KeyringRestore::Fail(m) && m == e
            },
        },
{
    match restored {
        Ok(true) => KeyringRestore::Verify,
        Ok(false) => KeyringRestore::TryLegacy,
        Err(e) => if legacy_file_exists {
            KeyringRestore::TryLegacy
        } else {
            KeyringRestore::Fail(e)
        },
    }
}

/// What signing out reports, from how clearing the stored session went and
/// whether the account selection was cleared from the settings.
pub fn logout_outcome(cleared: Result<(), ClientError>, settings_cleared: bool) -> (r: Result<(), ClientError>)
    ensures
        (cleared is Ok && settings_cleared) ==> r is Ok,
        (cleared is Err && settings_cleared) ==> r == cleared,
        (cleared is Ok && !settings_cleared) ==> (r matches Err(e) && e.message@
            == "Account selection could not be cleared"@ && e.kind == classified(e.message@)),
        (cleared is Err && !settings_cleared) ==> (r matches Err(e) && e.message@
            == "Stored session and account selection could not be fully cleared"@ && e.kind == classified(
            e.message@,
        )),
{
    match (cleared, settings_cleared) {
        (Ok(()), true) => Ok(()),
        (Err(error), true) => Err(error),
        (Ok(()), false) => Err(ClientError::from_message(owned("Account selection could not be cleared"))),
        (Err(_), false) => Err(
            ClientError::from_message(owned("Stored session and account selection could not be fully cleared")),
        ),
    }
}

/// Where a restore of the stored session stands.
pub enum RestoreState {
    /// Nothing asked yet.
    Start,
    /// The keyring was asked for the selected account's session.
    AwaitKeyring { selected: String },
    /// The old cookie file was asked for a session, for the selected
    /// account if there is one.
    AwaitLegacy { selected: Option<String> },
    /// The provider was asked who the restored session signs in; `legacy`
    /// when the session came from the old cookie file.
    AwaitCheck { legacy: bool },
    /// Nothing more to ask.
    Finished,
}

/// What a restore learns at each step.
pub enum RestoreEvent {
    /// The account the settings select, if any.
    Started { selected: Option<String> },
    /// What the keyring gave back, and whether an old cookie file exists.
    Keyring { restored: Result<bool, String>, legacy_file_exists: bool },
    /// What the old cookie file gave: the account it signs in, if any.
    Legacy { loaded: Result<Option<String>, String> },
    /// Whether the provider recognised a signed-in account.
    Checked { found: Result<bool, String> },
}

/// What a restore does next.
pub enum RestoreAction {
    /// Ask the keyring for this account's session.
    AskKeyring(String),
    /// Ask the old cookie file, expecting this account if one is given.
    LoadLegacy(Option<String>),
    /// Ask the provider who the session signs in.
    Verify { legacy: bool },
    /// Select this account in the settings, then ask the provider who the
    /// session from the old cookie file signs in.
    SelectAndVerify(String),
    /// Take the account the provider named; when the session came from the
    /// old cookie file, move it to the keyring and remove the file.
    Keep { persist: bool },
    /// Sign out, clear the stored session and the selection: nothing was
    /// restored.
    Forget,
    /// The same, reporting why.
    ForgetWith(String),
    /// Clear the selection and sign out: the selected account's session is
    /// nowhere to be found.
    Unselect,
    /// Nothing to restore.
    Done,
    /// The restore failed.
    Fail(String),
}

/// The event a restore waits for in `state`.
pub open spec fn awaited(state: RestoreState, event: RestoreEvent) -> bool {
    match state {
        RestoreState::Start => event is Started,
        RestoreState::AwaitKeyring { .. } => event is Keyring,
        RestoreState::AwaitLegacy { .. } => event is Legacy,
        RestoreState::AwaitCheck { .. } => event is Checked,
        RestoreState::Finished => false,
    }
}

/// The next state and action of a restore.
pub open spec fn restore_next(state: RestoreState, event: RestoreEvent) -> (RestoreState, RestoreAction) {
    match (state, event) {
        (RestoreState::Start, RestoreEvent::Started { selected }) => match selected {
            Some(u) => (RestoreState::AwaitKeyring { selected: u }, RestoreAction::AskKeyring(u)),
            None => (RestoreState::AwaitLegacy { selected: None }, RestoreAction::LoadLegacy(None)),
        },
        (RestoreState::AwaitKeyring { selected }, RestoreEvent::Keyring { restored, legacy_file_exists }) => match restored {
            Ok(true) => (RestoreState::AwaitCheck { legacy: false }, RestoreAction::Verify { legacy: false }),
            Ok(false) => (RestoreState::AwaitLegacy { selected: Some(selected) }, RestoreAction::LoadLegacy(Some(selected))),
            Err(e) => if legacy_file_exists {
                (RestoreState::AwaitLegacy { selected: Some(selected) }, RestoreAction::LoadLegacy(Some(selected)))
            } else {
                (RestoreState::Finished, RestoreAction::Fail(e))
            },
        },
        (RestoreState::AwaitLegacy { selected }, RestoreEvent::Legacy { loaded }) => match loaded {
            Err(e) => (RestoreState::Finished, RestoreAction::Fail(e)),
            Ok(Some(id)) => if selected is Some {
                (RestoreState::AwaitCheck { legacy: true }, RestoreAction::Verify { legacy: true })
            } else {
                (RestoreState::AwaitCheck { legacy: true }, RestoreAction::SelectAndVerify(id))
            },
            Ok(None) => if selected is Some {
                (RestoreState::Finished, RestoreAction::Unselect)
            } else {
                (RestoreState::Finished, RestoreAction::Done)
            },
        },
        (RestoreState::AwaitCheck { legacy }, RestoreEvent::Checked { found }) => match found {
            Ok(true) => (RestoreState::Finished, RestoreAction::Keep { persist: legacy }),
            Ok(false) => (RestoreState::Finished, RestoreAction::Forget),
            Err(e) => (RestoreState::Finished, RestoreAction::ForgetWith(e)),
        },
        _ => (RestoreState::Finished, RestoreAction::Done),
    }
}

/// One step of restoring the stored session: the keyring first for the
/// selected account, the old cookie file when the keyring has nothing,
/// and the provider's word on who the session signs in before it is kept.
pub fn restore_step(state: RestoreState, event: RestoreEvent) -> (r: (RestoreState, RestoreAction))
    requires
        awaited(state, event),
    ensures
        r == restore_next(state, event),
{
    match state {
        RestoreState::Start => match event {
            RestoreEvent::Started { selected } => match selected {
                Some(u) => (RestoreState::AwaitKeyring { selected: u.clone() }, RestoreAction::AskKeyring(u)),
                None => (RestoreState::AwaitLegacy { selected: None }, RestoreAction::LoadLegacy(None)),
            },
            _ => (RestoreState::Finished, RestoreAction::Done),
        },
        RestoreState::AwaitKeyring { selected } => match event {
            RestoreEvent::Keyring { restored, legacy_file_exists } => match after_keyring(restored, legacy_file_exists) {
                KeyringRestore::Verify => (RestoreState::AwaitCheck { legacy: false }, RestoreAction::Verify { legacy: false }),
                KeyringRestore::TryLegacy => (
                    RestoreState::AwaitLegacy { selected: Some(selected.clone()) },
                    RestoreAction::LoadLegacy(Some(selected)),
                ),
                KeyringRestore::Fail(e) => (RestoreState::Finished, RestoreAction::Fail(e)),
            },
            _ => (RestoreState::Finished, RestoreAction::Done),
        },
        RestoreState::AwaitLegacy { selected } => match event {
            RestoreEvent::Legacy { loaded } => match loaded {
                Err(e) => (RestoreState::Finished, RestoreAction::Fail(e)),
                Ok(Some(id)) => if selected.is_some() {
                    (RestoreState::AwaitCheck { legacy: true }, RestoreAction::Verify { legacy: true })
                } else {
                    (RestoreState::AwaitCheck { legacy: true }, RestoreAction::SelectAndVerify(id))
                },
                Ok(None) => if selected.is_some() {
                    (RestoreState::Finished, RestoreAction::Unselect)
                } else {
                    (RestoreState::Finished, RestoreAction::Done)
                },
            },
            _ => (RestoreState::Finished, RestoreAction::Done),
        },
        RestoreState::AwaitCheck { legacy } => match event {
            RestoreEvent::Checked { found } => match found {
                Ok(true) => (RestoreState::Finished, RestoreAction::Keep { persist: legacy }),
                Ok(false) => (RestoreState::Finished, RestoreAction::Forget),
                Err(e) => (RestoreState::Finished, RestoreAction::ForgetWith(e)),
            },
            _ => (RestoreState::Finished, RestoreAction::Done),
        },
        RestoreState::Finished => (RestoreState::Finished, RestoreAction::Done),
    }
}

} // verus!
