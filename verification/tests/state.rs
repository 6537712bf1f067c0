use meiqiu_dict::config::AppConfig;
use meiqiu_dict::state::{AppState, CaptureState};

#[test]
fn toggle_flips_disabled_and_idle() {
    let mut s = AppState::new(AppConfig::default());
    assert_eq!(s.capture_state(), CaptureState::Disabled);
    assert!(!s.capture_enabled());
    assert!(s.toggle_capture());
    assert_eq!(s.capture_state(), CaptureState::Idle);
    assert!(s.capture_enabled());
    assert!(!s.toggle_capture());
    assert_eq!(s.capture_state(), CaptureState::Disabled);
}

#[test]
fn idle_to_floater_to_popup_to_idle() {
    let mut s = AppState::new(AppConfig::default());
    s.toggle_capture();
    s.enter_floater();
    assert_eq!(s.capture_state(), CaptureState::Floater);
    s.enter_popup();
    assert_eq!(s.capture_state(), CaptureState::Popup);
    s.popup_hidden();
    assert_eq!(s.capture_state(), CaptureState::Idle);
}

#[test]
fn floater_hides_back_to_idle() {
    let mut s = AppState::new(AppConfig::default());
    s.toggle_capture();
    s.enter_floater();
    s.floater_hidden();
    assert_eq!(s.capture_state(), CaptureState::Idle);
}

#[test]
fn transitions_are_noops_on_unexpected_state() {
    let mut s = AppState::new(AppConfig::default());
    // Disabled: everything except toggle is a no-op.
    s.enter_floater();
    s.enter_popup();
    s.floater_hidden();
    s.popup_hidden();
    assert_eq!(s.capture_state(), CaptureState::Disabled);
    s.toggle_capture();
    // Idle: enter_popup requires Floater; hidden hooks require their own state.
    s.enter_popup();
    s.popup_hidden();
    s.floater_hidden();
    assert_eq!(s.capture_state(), CaptureState::Idle);
}

#[test]
fn disable_resets_from_any_ui_state() {
    let mut s = AppState::new(AppConfig::default());
    s.toggle_capture();
    s.enter_floater();
    s.enter_popup();
    assert_eq!(s.capture_state(), CaptureState::Popup);
    assert!(!s.toggle_capture());
    assert_eq!(s.capture_state(), CaptureState::Disabled);
}

#[test]
fn toggle_twice_from_floater_lands_in_idle() {
    let mut s = AppState::new(AppConfig::default());
    s.toggle_capture();
    s.enter_floater();
    s.toggle_capture();
    assert!(s.toggle_capture());
    assert_eq!(s.capture_state(), CaptureState::Idle);
}

#[test]
fn popup_ignores_new_captures_and_hides_idempotently() {
    let mut s = AppState::new(AppConfig::default());
    s.toggle_capture();
    s.enter_floater();
    s.enter_popup();
    s.enter_floater();
    assert_eq!(s.capture_state(), CaptureState::Popup);
    s.popup_hidden();
    s.popup_hidden();
    assert_eq!(s.capture_state(), CaptureState::Idle);
    s.enter_floater();
    s.floater_hidden();
    s.floater_hidden();
    assert_eq!(s.capture_state(), CaptureState::Idle);
}

#[test]
fn config_and_cursor_are_stored() {
    let mut s = AppState::new(AppConfig::default());
    assert_eq!(s.last_cursor(), None);
    s.set_last_cursor((10, -20));
    assert_eq!(s.last_cursor(), Some((10, -20)));
    let mut cfg = AppConfig::default();
    cfg.hotkey = "Alt+D".to_string();
    cfg.uia_enabled = false;
    s.set_config(cfg);
    assert_eq!(s.config().hotkey, "Alt+D");
    assert!(!s.config().uia_enabled);
    s.toggle_capture();
    assert_eq!(s.config().hotkey, "Alt+D");
    assert_eq!(s.last_cursor(), Some((10, -20)));
}

#[test]
fn set_autostart_updates_only_that_flag() {
    let mut s = AppState::new(AppConfig::default());
    let cfg = s.set_autostart(true);
    assert!(cfg.autostart);
    assert!(s.config().autostart);
    assert_eq!(cfg.hotkey, "CommandOrControl+Alt+T");
    let cfg = s.set_autostart(false);
    assert!(!cfg.autostart);
    assert!(!s.config().autostart);
}
