use meiqiu_dict::config::{default_capture_methods, default_true, AppConfig, CaptureMethod};
use meiqiu_dict::tray::{menu_action, tray_texts, MenuAction, LABEL_DISABLE, LABEL_ENABLE, TIP_OFF, TIP_ON};

#[test]
fn default_config_values() {
    let cfg = AppConfig::default();
    assert_eq!(cfg.hotkey, "CommandOrControl+Alt+T");
    assert!(!cfg.autostart);
    assert_eq!(cfg.tts_voice, None);
    assert!(cfg.uia_enabled && cfg.clipboard_enabled);
    assert_eq!(cfg.capture_methods, vec![CaptureMethod::Uia, CaptureMethod::Clipboard]);
    assert!(default_true());
    assert_eq!(default_capture_methods(), vec![CaptureMethod::Uia, CaptureMethod::Clipboard]);
}

#[test]
fn capture_plan_skips_disabled_methods_in_order() {
    let mut cfg = AppConfig::default();
    cfg.capture_methods = vec![CaptureMethod::Clipboard, CaptureMethod::Uia, CaptureMethod::Clipboard];
    assert_eq!(cfg.capture_plan(), cfg.capture_methods);
    cfg.clipboard_enabled = false;
    assert_eq!(cfg.capture_plan(), vec![CaptureMethod::Uia]);
    cfg.uia_enabled = false;
    assert_eq!(cfg.capture_plan(), Vec::<CaptureMethod>::new());
}

#[test]
fn duplicate_copies_every_field() {
    let mut cfg = AppConfig::default();
    cfg.tts_voice = Some("voice".into());
    cfg.autostart = true;
    let d = cfg.duplicate();
    assert_eq!(d.hotkey, cfg.hotkey);
    assert_eq!(d.tts_voice, cfg.tts_voice);
    assert_eq!(d.autostart, cfg.autostart);
    assert_eq!(d.capture_methods, cfg.capture_methods);
    assert!(!cfg.hotkey_differs(&d));
    let mut other = cfg.duplicate();
    other.hotkey = "Alt+X".into();
    assert!(cfg.hotkey_differs(&other));
}

#[test]
fn menu_ids_map_to_actions() {
    assert_eq!(menu_action("open_settings"), MenuAction::OpenSettings);
    assert_eq!(menu_action("toggle_capture"), MenuAction::ToggleCapture);
    assert_eq!(menu_action("quit"), MenuAction::Quit);
    assert_eq!(menu_action("quit "), MenuAction::Ignore);
    assert_eq!(menu_action(""), MenuAction::Ignore);
}

#[test]
fn tray_texts_follow_the_switch() {
    assert_eq!(tray_texts(true), (TIP_ON, LABEL_DISABLE));
    assert_eq!(tray_texts(false), (TIP_OFF, LABEL_ENABLE));
}
