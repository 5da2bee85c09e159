use mouseutility::app_state::{
    copy_status, device_count, refresh_due, status_expired, AppEvent, AppState, Key, KeyAction, Modal, ReceiverInfo,
};
use mouseutility::device::Device;

fn receiver(pid: u16, slots: &[u8]) -> ReceiverInfo {
    let devices = slots.iter().map(|&i| Device::listed(i, format!("mouse {i}"), 0x4000 + i as u16, "mouse")).collect();
    ReceiverInfo { pid, kind: "Unifying", devices }
}

fn scanned(app: &mut AppState, rs: Vec<ReceiverInfo>) -> Option<String> {
    app.on_event(AppEvent::Scanned(Ok(rs)))
}

#[test]
fn new_state_is_idle() {
    let s = AppState::new(true);
    assert!(matches!(s.modal, Modal::Closed));
    assert!(s.auto_update);
    assert!(!s.quit && !s.scanning && !s.restart_requested);
    assert_eq!(s.sel, 0);
    assert!(s.devices().is_empty());
    assert!(s.selected().is_none());
}

#[test]
fn devices_flatten_receivers_in_order() {
    let mut s = AppState::new(false);
    scanned(&mut s, vec![receiver(0xc52b, &[1, 2]), receiver(0xc548, &[]), receiver(0xc547, &[3])]);
    let v = s.devices();
    let got: Vec<(usize, u8)> = v.iter().map(|(i, d)| (*i, d.index)).collect();
    assert_eq!(got, vec![(0, 1), (0, 2), (2, 3)]);
    assert_eq!(device_count(&s.receivers), 3);
    s.sel = 2;
    let (ri, d) = s.selected().unwrap();
    assert_eq!((ri, d.index), (2, 3));
    s.sel = 3;
    assert!(s.selected().is_none());
}

#[test]
fn first_scan_logs_its_counts() {
    let mut s = AppState::new(false);
    assert!(s.begin_scan());
    assert!(!s.begin_scan());
    let log = scanned(&mut s, vec![receiver(0xc52b, &[1, 2]), receiver(0xc548, &[1])]);
    assert_eq!(log.as_deref(), Some("scan: 2 receiver(s), 3 device(s)"));
    assert!(!s.scanning);
    let again = scanned(&mut s, vec![receiver(0xc52b, &[1])]);
    assert_eq!(again, None);
}

#[test]
fn empty_scan_logs_zeroes_and_next_scan_logs_again() {
    let mut s = AppState::new(false);
    let log = scanned(&mut s, vec![]);
    assert_eq!(log.as_deref(), Some("scan: 0 receiver(s), 0 device(s)"));
    let log = scanned(&mut s, vec![receiver(0xc52b, &[])]);
    assert_eq!(log.as_deref(), Some("scan: 1 receiver(s), 0 device(s)"));
}

#[test]
fn scan_holds_selection_within_new_list() {
    let mut s = AppState::new(false);
    scanned(&mut s, vec![receiver(0xc52b, &[1, 2, 3, 4])]);
    s.sel = 3;
    scanned(&mut s, vec![receiver(0xc52b, &[1, 2])]);
    assert_eq!(s.sel, 1);
    scanned(&mut s, vec![receiver(0xc52b, &[])]);
    assert_eq!(s.sel, 0);
    s.sel = 0;
    scanned(&mut s, vec![receiver(0xc52b, &[1, 2, 3])]);
    assert_eq!(s.sel, 0);
}

#[test]
fn failed_scan_keeps_list_and_records_error() {
    let mut s = AppState::new(false);
    scanned(&mut s, vec![receiver(0xc52b, &[1, 2])]);
    s.sel = 1;
    s.begin_scan();
    let log = s.on_event(AppEvent::Scanned(Err("no access".to_string())));
    assert_eq!(log, None);
    assert!(!s.scanning);
    assert_eq!(s.scan_error.as_deref(), Some("no access"));
    assert_eq!(s.devices().len(), 2);
    assert_eq!(s.sel, 1);
    scanned(&mut s, vec![receiver(0xc52b, &[1])]);
    assert_eq!(s.scan_error, None);
}

#[test]
fn release_and_update_progress_events() {
    let mut s = AppState::new(false);
    s.on_event(AppEvent::LatestRelease(Some("v1.2.0".to_string())));
    assert_eq!(s.update.as_deref(), Some("v1.2.0"));
    // Progress without the update modal changes nothing.
    s.on_event(AppEvent::Progress("downloading".to_string()));
    assert!(matches!(s.modal, Modal::Closed));
    assert_eq!(s.on_key(Key::Char('U'), false, false), KeyAction::StartUpdate);
    s.on_event(AppEvent::Progress("downloading".to_string()));
    s.on_event(AppEvent::Progress("verifying".to_string()));
    s.on_event(AppEvent::Finished(Ok("updated to v1.2.0".to_string())));
    match &s.modal {
        Modal::Update { steps, done } => {
            assert_eq!(steps, &vec!["downloading".to_string(), "verifying".to_string()]);
            assert_eq!(done, &Some(Ok("updated to v1.2.0".to_string())));
        }
        _ => panic!("update modal expected"),
    }
    s.on_event(AppEvent::LatestRelease(None));
    assert_eq!(s.update, None);
}

#[test]
fn quit_keys() {
    for (k, ctrl) in [(Key::Char('q'), false), (Key::Esc, false), (Key::Char('c'), true)] {
        let mut s = AppState::new(false);
        assert_eq!(s.on_key(k, ctrl, false), KeyAction::Nothing);
        assert!(s.quit);
    }
    let mut s = AppState::new(false);
    assert_eq!(s.on_key(Key::Char('c'), false, false), KeyAction::CopyLog);
    assert!(!s.quit);
}

#[test]
fn help_modal_closes_on_any_key() {
    let mut s = AppState::new(false);
    s.on_key(Key::Char('?'), false, false);
    assert!(matches!(s.modal, Modal::Help));
    assert_eq!(s.on_key(Key::Char('q'), false, false), KeyAction::Nothing);
    assert!(matches!(s.modal, Modal::Closed));
    assert!(!s.quit);
}

#[test]
fn selection_wraps_both_ways() {
    let mut s = AppState::new(false);
    scanned(&mut s, vec![receiver(0xc52b, &[1, 2]), receiver(0xc548, &[1])]);
    s.on_key(Key::Up, false, false);
    assert_eq!(s.sel, 2);
    s.on_key(Key::Down, false, false);
    assert_eq!(s.sel, 0);
    s.on_key(Key::Char('j'), false, false);
    assert_eq!(s.sel, 1);
    s.on_key(Key::Char('k'), false, false);
    assert_eq!(s.sel, 0);
    // A selection past the list is brought back as the modulo does.
    s.sel = 7;
    s.on_key(Key::Down, false, false);
    assert_eq!(s.sel, (7 + 1) % 3);
    s.sel = 7;
    s.on_key(Key::Up, false, false);
    assert_eq!(s.sel, (7 + 3 - 1) % 3);
}

#[test]
fn selection_stays_on_empty_list() {
    let mut s = AppState::new(false);
    s.on_key(Key::Down, false, false);
    assert_eq!(s.sel, 0);
    s.on_key(Key::Up, false, false);
    assert_eq!(s.sel, 0);
}

#[test]
fn rescan_key_starts_one_scan() {
    let mut s = AppState::new(false);
    assert_eq!(s.on_key(Key::Char('r'), false, false), KeyAction::Rescan { started: true });
    assert!(s.scanning);
    assert_eq!(s.on_key(Key::Char('r'), false, false), KeyAction::Rescan { started: false });
    assert!(s.scanning);
}

#[test]
fn update_modal_keys() {
    let mut s = AppState::new(false);
    s.on_key(Key::Char('U'), false, false);
    // Still running: nothing closes it.
    assert_eq!(s.on_key(Key::Esc, false, false), KeyAction::Nothing);
    assert!(matches!(s.modal, Modal::Update { .. }));
    assert_eq!(s.on_key(Key::Char('a'), false, false), KeyAction::Nothing);
    assert!(!s.auto_update);
    s.on_event(AppEvent::Finished(Ok("already up to date".to_string())));
    assert_eq!(s.on_key(Key::Char('a'), false, false), KeyAction::SaveConfig);
    assert!(s.auto_update);
    assert!(matches!(s.modal, Modal::Update { .. }));
    // Enter without a new version in place closes the modal.
    assert_eq!(s.on_key(Key::Enter, false, false), KeyAction::Nothing);
    assert!(matches!(s.modal, Modal::Closed));
    assert!(!s.quit && !s.restart_requested);
}

#[test]
fn update_installed_enter_restarts() {
    let mut s = AppState::new(false);
    s.on_key(Key::Char('U'), false, false);
    s.on_event(AppEvent::Finished(Ok("updated to v2".to_string())));
    assert_eq!(s.on_key(Key::Enter, false, true), KeyAction::Nothing);
    assert!(s.restart_requested && s.quit);
}

#[test]
fn failed_update_closes_but_does_not_toggle() {
    let mut s = AppState::new(true);
    s.on_key(Key::Char('U'), false, false);
    s.on_event(AppEvent::Finished(Err("network down".to_string())));
    assert_eq!(s.on_key(Key::Char('a'), false, false), KeyAction::Nothing);
    assert!(s.auto_update);
    assert_eq!(s.on_key(Key::Enter, false, true), KeyAction::Nothing);
    assert!(matches!(s.modal, Modal::Closed));
    assert!(!s.restart_requested && !s.quit);
}

#[test]
fn copy_status_texts() {
    assert_eq!(copy_status(Ok(12)), ("copied 12 log lines to the clipboard".to_string(), false));
    assert_eq!(copy_status(Ok(0)), ("copied 0 log lines to the clipboard".to_string(), false));
    assert_eq!(copy_status(Err("clipboard busy".to_string())), ("clipboard busy".to_string(), true));
}

#[test]
fn status_and_refresh_timers() {
    assert!(!status_expired(5_000_000_000));
    assert!(status_expired(5_000_000_001));
    assert!(!refresh_due(false, None));
    assert!(!refresh_due(false, Some(4_000_000_000)));
    assert!(refresh_due(false, Some(4_000_000_001)));
    assert!(!refresh_due(true, Some(9_000_000_000)));
}
