use std::{cell::RefCell, rc::Rc};

use privacy_aperture::command_center::{
    autostart_change, replace_registration, tray_presentation, ProtectionState,
};

#[test]
fn autostart_sync_changes_only_mismatched_state() {
    assert_eq!(autostart_change(false, false), None);
    assert_eq!(autostart_change(true, true), None);
    assert_eq!(autostart_change(false, true), Some(true));
    assert_eq!(autostart_change(true, false), Some(false));
}

#[test]
fn shortcut_conflict_keeps_previous_registration() {
    let calls = Rc::new(RefCell::new(Vec::new()));
    let register_calls = calls.clone();
    let unregister_calls = calls.clone();
    let result = replace_registration(
        Some(1),
        2,
        Some(2),
        move |value| {
            register_calls.borrow_mut().push(("register", value));
            Ok(())
        },
        move |value| {
            unregister_calls.borrow_mut().push(("unregister", value));
            Ok(())
        },
    );
    assert!(result.is_err());
    assert!(calls.borrow().is_empty());
}

#[test]
fn failed_old_unregistration_removes_new_shortcut() {
    let calls = Rc::new(RefCell::new(Vec::new()));
    let register_calls = calls.clone();
    let unregister_calls = calls.clone();
    let result = replace_registration(
        Some(1),
        2,
        None,
        move |value| {
            register_calls.borrow_mut().push(("register", value));
            Ok(())
        },
        move |value| {
            unregister_calls.borrow_mut().push(("unregister", value));
            if value == 1 {
                Err("old registration busy".into())
            } else {
                Ok(())
            }
        },
    );
    assert!(result.is_err());
    assert_eq!(
        calls.borrow().as_slice(),
        &[("register", 2), ("unregister", 1), ("unregister", 2)]
    );
}

#[test]
fn replacement_outcomes() {
    assert_eq!(
        replace_registration(Some(3), 3, None, |_| Err("no".into()), |_| Err("no".into())),
        Ok(())
    );
    assert_eq!(
        replace_registration(None, 3, Some(3), |_| Ok(()), |_| Ok(())),
        Err("Shortcut conflicts with Peek shortcut".to_string())
    );
    assert_eq!(
        replace_registration(None, 3, None, |_| Err("taken".into()), |_| Ok(())),
        Err("taken".to_string())
    );
    assert_eq!(replace_registration(None, 3, Some(4), |_| Ok(()), |_| Ok(())), Ok(()));
    assert_eq!(replace_registration(Some(2), 3, None, |_| Ok(()), |_| Ok(())), Ok(()));
    assert_eq!(
        replace_registration(Some(2), 3, None, |_| Ok(()), |_| Err("stuck".into())),
        Err("stuck; shortcut rollback failed: stuck".to_string())
    );
}

#[test]
fn tray_reflects_state_and_pause() {
    let p = tray_presentation(ProtectionState::PeekActive, true);
    assert_eq!(p.symbol, "◉");
    assert_eq!(p.label, "Peek active");
    assert_eq!(p.peek_label, "End Peek");
    assert_eq!(p.pause_label, "Pause All Protection");
    let p = tray_presentation(ProtectionState::Paused, false);
    assert_eq!(p.symbol, "Ⅱ");
    assert_eq!(p.label, "Paused");
    assert_eq!(p.peek_label, "Temporarily Peek");
    assert_eq!(p.pause_label, "Resume Protection");
    assert_eq!(tray_presentation(ProtectionState::Error, true).label, "Protection error");
    assert_eq!(tray_presentation(ProtectionState::PrivacyActive, true).symbol, "●");
    assert_eq!(tray_presentation(ProtectionState::Watching, true).symbol, "○");
}

use privacy_aperture::command_center::{register_peek, shortcut_response, ShortcutResponse};
use std::collections::BTreeSet;

#[test]
fn successive_replacements_move_the_registration() {
    let registry = Rc::new(RefCell::new(BTreeSet::from([7u32])));
    let busy = Rc::new(RefCell::new(BTreeSet::from([9u32])));
    let mut current = None;
    for (replacement, expected_ok) in [(1u32, true), (2, true), (9, false), (2, true), (3, true)] {
        let add = registry.clone();
        let blocked = busy.clone();
        let remove = registry.clone();
        let result = replace_registration(
            current,
            replacement,
            Some(7),
            move |id| {
                if blocked.borrow().contains(&id) {
                    return Err("taken".to_string());
                }
                add.borrow_mut().insert(id);
                Ok(())
            },
            move |id| {
                remove.borrow_mut().remove(&id);
                Ok(())
            },
        );
        assert_eq!(result.is_ok(), expected_ok);
        if result.is_ok() {
            current = Some(replacement);
        }
        let mut expected = BTreeSet::from([7u32]);
        if let Some(id) = current {
            expected.insert(id);
        }
        assert_eq!(*registry.borrow(), expected);
    }
}

#[test]
fn failed_release_keeps_the_previous_registration() {
    let registry = Rc::new(RefCell::new(BTreeSet::from([1u32])));
    let add = registry.clone();
    let remove = registry.clone();
    let result = replace_registration(
        Some(1),
        2,
        None,
        move |id| {
            add.borrow_mut().insert(id);
            Ok(())
        },
        move |id| {
            if id == 1 {
                return Err("busy".to_string());
            }
            remove.borrow_mut().remove(&id);
            Ok(())
        },
    );
    assert_eq!(result, Err("busy".to_string()));
    assert_eq!(*registry.borrow(), BTreeSet::from([1u32]));
    assert_eq!(
        replace_registration(Some(1), 2, None, |_| Ok(()), |id| Err(format!("stuck {id}"))),
        Err("stuck 1; shortcut rollback failed: stuck 2".to_string())
    );
}

#[test]
fn peek_registration_at_start_up() {
    assert_eq!(register_peek(None, Some(1), 2, |_| Ok(())), (Some(2), Ok(())));
    assert_eq!(
        register_peek(None, Some(2), 2, |_| Ok(())),
        (None, Err("Peek shortcut conflicts with emergency shortcut".to_string()))
    );
    assert_eq!(
        register_peek(Some("Invalid emergency shortcut: x".to_string()), None, 2, |_| Err(
            "in use".to_string()
        )),
        (
            None,
            Err("Invalid emergency shortcut: x; Peek shortcut is unavailable: in use".to_string())
        )
    );
    assert_eq!(
        register_peek(Some("busy".to_string()), None, 2, |_| Ok(())),
        (Some(2), Err("busy".to_string()))
    );
}

#[test]
fn shortcut_events_pause_or_peek() {
    assert_eq!(shortcut_response(1, Some(1), Some(2), true), ShortcutResponse::Pause);
    assert_eq!(shortcut_response(1, Some(1), Some(2), false), ShortcutResponse::Ignore);
    assert_eq!(shortcut_response(2, Some(1), Some(2), true), ShortcutResponse::Peek(true));
    assert_eq!(shortcut_response(2, Some(1), Some(2), false), ShortcutResponse::Peek(false));
    assert_eq!(shortcut_response(3, Some(1), Some(2), true), ShortcutResponse::Ignore);
    assert_eq!(shortcut_response(3, None, None, true), ShortcutResponse::Ignore);
}

use privacy_aperture::command_center::{next_registration_call, RegistrationCall};

#[test]
fn replacement_calls_follow_the_step_function() {
    assert_eq!(next_registration_call(Some(1), 1, None, &vec![]), None);
    assert_eq!(next_registration_call(None, 1, Some(1), &vec![]), None);
    assert_eq!(next_registration_call(Some(1), 2, None, &vec![]), Some(RegistrationCall::Register(2)));
    assert_eq!(next_registration_call(Some(1), 2, None, &vec![false]), None);
    assert_eq!(next_registration_call(Some(1), 2, None, &vec![true]), Some(RegistrationCall::Release(1)));
    assert_eq!(next_registration_call(None, 2, None, &vec![true]), None);
    assert_eq!(next_registration_call(Some(1), 2, None, &vec![true, true]), None);
    assert_eq!(
        next_registration_call(Some(1), 2, None, &vec![true, false]),
        Some(RegistrationCall::Release(2))
    );
    assert_eq!(next_registration_call(Some(1), 2, None, &vec![true, false, false]), None);
}
