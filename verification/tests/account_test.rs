use movo_core::client::account::{restore_step, RestoreAction, RestoreEvent, RestoreState};

#[test]
fn a_selected_account_is_restored_from_the_keyring_and_checked() {
    let (state, action) = restore_step(RestoreState::Start, RestoreEvent::Started { selected: Some("7".to_string()) });
    assert!(matches!(&action, RestoreAction::AskKeyring(id) if id == "7"));
    let (state, action) = restore_step(state, RestoreEvent::Keyring { restored: Ok(true), legacy_file_exists: false });
    assert!(matches!(action, RestoreAction::Verify { legacy: false }));
    let (state, action) = restore_step(state, RestoreEvent::Checked { found: Ok(true) });
    assert!(matches!(action, RestoreAction::Keep { persist: false }));
    assert!(matches!(state, RestoreState::Finished));
}

#[test]
fn a_keyring_failure_falls_back_to_the_old_cookie_file_only_when_there_is_one() {
    let start = || restore_step(RestoreState::Start, RestoreEvent::Started { selected: Some("7".to_string()) }).0;
    let (_, action) = restore_step(
        start(),
        RestoreEvent::Keyring { restored: Err("System keyring is unavailable".to_string()), legacy_file_exists: false },
    );
    assert!(matches!(&action, RestoreAction::Fail(e) if e == "System keyring is unavailable"));

    let (state, action) = restore_step(
        start(),
        RestoreEvent::Keyring { restored: Err("System keyring is unavailable".to_string()), legacy_file_exists: true },
    );
    assert!(matches!(&action, RestoreAction::LoadLegacy(Some(id)) if id == "7"));
    let (state, action) = restore_step(state, RestoreEvent::Legacy { loaded: Ok(Some("7".to_string())) });
    assert!(matches!(action, RestoreAction::Verify { legacy: true }));
    let (_, action) = restore_step(state, RestoreEvent::Checked { found: Ok(true) });
    assert!(matches!(action, RestoreAction::Keep { persist: true }));
}

#[test]
fn a_selected_account_with_no_session_anywhere_is_unselected() {
    let (state, _) = restore_step(RestoreState::Start, RestoreEvent::Started { selected: Some("7".to_string()) });
    let (state, _) = restore_step(state, RestoreEvent::Keyring { restored: Ok(false), legacy_file_exists: false });
    let (_, action) = restore_step(state, RestoreEvent::Legacy { loaded: Ok(None) });
    assert!(matches!(action, RestoreAction::Unselect));
}

#[test]
fn without_a_selection_the_old_cookie_file_selects_the_account() {
    let (state, action) = restore_step(RestoreState::Start, RestoreEvent::Started { selected: None });
    assert!(matches!(action, RestoreAction::LoadLegacy(None)));
    let (state, action) = restore_step(state, RestoreEvent::Legacy { loaded: Ok(Some("9".to_string())) });
    assert!(matches!(&action, RestoreAction::SelectAndVerify(id) if id == "9"));
    let (_, action) = restore_step(state, RestoreEvent::Checked { found: Err("Timed out".to_string()) });
    assert!(matches!(&action, RestoreAction::ForgetWith(e) if e == "Timed out"));

    let (state, _) = restore_step(RestoreState::Start, RestoreEvent::Started { selected: None });
    let (_, action) = restore_step(state, RestoreEvent::Legacy { loaded: Ok(None) });
    assert!(matches!(action, RestoreAction::Done));
}

#[test]
fn a_session_the_provider_does_not_recognise_is_forgotten() {
    let (_, action) = restore_step(RestoreState::AwaitCheck { legacy: false }, RestoreEvent::Checked { found: Ok(false) });
    assert!(matches!(action, RestoreAction::Forget));
    let (_, action) = restore_step(
        RestoreState::AwaitLegacy { selected: None },
        RestoreEvent::Legacy { loaded: Err("Legacy session is invalid".to_string()) },
    );
    assert!(matches!(&action, RestoreAction::Fail(e) if e == "Legacy session is invalid"));
}
