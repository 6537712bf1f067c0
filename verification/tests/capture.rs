use meiqiu_dict::capture::{
    accept_capture, click_on_own_window, clipboard_result, floater_anchor, latest_position,
    panic_message, try_clipboard, worker_should_capture, CaptureRun, Throttle,
};
use meiqiu_dict::config::CaptureMethod;
use meiqiu_dict::commands::popup_anchor;
use meiqiu_dict::config::AppConfig;
use meiqiu_dict::error::AppError;
use meiqiu_dict::selection::SelectionOutcome;
use meiqiu_dict::state::{AppState, CaptureState};
use meiqiu_dict::window::{Position, Rect, Size};

#[test]
fn throttle_spaces_captures() {
    let ms = 1_000_000u64;
    let mut t = Throttle::new();
    assert!(!t.on_left_release(false, 1000 * ms));
    assert!(t.on_left_release(true, 1000 * ms));
    assert!(!t.on_left_release(true, 1199 * ms));
    assert!(!t.on_left_release(true, 1200 * ms - 1));
    assert!(t.on_left_release(true, 1200 * ms));
    assert!(!t.on_left_release(true, 1100 * ms));
    assert_eq!(t.last_emit, Some(1200 * ms));
}

#[test]
fn bursts_collapse_to_the_latest_position() {
    assert_eq!(latest_position((1, 2), &vec![]), (1, 2));
    assert_eq!(latest_position((1, 2), &vec![(3, 4), (5, 6)]), (5, 6));
}

#[test]
fn popup_blocks_the_worker() {
    assert!(!worker_should_capture(CaptureState::Popup));
    assert!(!worker_should_capture(CaptureState::Disabled));
    assert!(worker_should_capture(CaptureState::Idle));
    assert!(worker_should_capture(CaptureState::Floater));
}

#[test]
fn clicks_on_own_windows_are_detected() {
    let windows = vec![Rect::new(Position::new(100, 100), Size::new(50, 40))];
    assert!(click_on_own_window(Position::new(100, 100), &windows));
    assert!(click_on_own_window(Position::new(149, 139), &windows));
    assert!(!click_on_own_window(Position::new(150, 120), &windows));
    assert!(!click_on_own_window(Position::new(120, 140), &windows));
    assert!(!click_on_own_window(Position::new(120, 120), &vec![]));
}

#[test]
fn anchors_are_offset_from_the_cursor() {
    assert_eq!(floater_anchor((10, 20)), Position::new(22, 32));
    assert_eq!(popup_anchor((10, 20)), Position::new(10, 50));
}

#[test]
fn accepted_capture_moves_to_floater() {
    let mut s = AppState::new(AppConfig::default());
    s.toggle_capture();
    assert_eq!(accept_capture(&mut s, "  hello \n", (7, 8)), Some("hello".to_string()));
    assert_eq!(s.capture_state(), CaptureState::Floater);
    assert_eq!(s.last_cursor(), Some((7, 8)));
}

#[test]
fn capture_after_switch_off_is_dropped() {
    let mut s = AppState::new(AppConfig::default());
    assert_eq!(accept_capture(&mut s, "hello", (7, 8)), None);
    assert_eq!(s.capture_state(), CaptureState::Disabled);
    assert_eq!(s.last_cursor(), None);
}

#[test]
fn capture_finished_after_popup_opened_keeps_popup() {
    let mut s = AppState::new(AppConfig::default());
    s.toggle_capture();
    s.enter_floater();
    s.enter_popup();
    assert_eq!(accept_capture(&mut s, "hello", (7, 8)), Some("hello".to_string()));
    assert_eq!(s.capture_state(), CaptureState::Popup);
    assert_eq!(s.last_cursor(), Some((7, 8)));
}

#[test]
fn rejected_capture_changes_nothing() {
    let mut s = AppState::new(AppConfig::default());
    s.toggle_capture();
    assert_eq!(accept_capture(&mut s, "12345", (7, 8)), None);
    assert_eq!(s.capture_state(), CaptureState::Idle);
    assert_eq!(s.last_cursor(), None);
}

#[test]
fn capture_run_stops_at_the_first_answer() {
    let cfg = AppConfig::default();
    let mut run = CaptureRun::new(&cfg);
    assert_eq!(run.next_method(), Some(CaptureMethod::Uia));
    run.record(SelectionOutcome::Unsupported);
    assert_eq!(run.next_method(), Some(CaptureMethod::Clipboard));
    run.record(SelectionOutcome::Text("word".into()));
    assert_eq!(run.next_method(), None);
    assert_eq!(run.selection(), Some("word".to_string()));

    let mut run = CaptureRun::new(&cfg);
    run.record(SelectionOutcome::NoSelection);
    assert_eq!(run.next_method(), None);
    assert_eq!(run.selection(), None);
}

#[test]
fn capture_run_with_every_method_unsupported_finds_nothing() {
    let mut cfg = AppConfig::default();
    cfg.uia_enabled = false;
    let mut run = CaptureRun::new(&cfg);
    assert_eq!(run.next_method(), Some(CaptureMethod::Clipboard));
    run.record(SelectionOutcome::Unsupported);
    assert_eq!(run.next_method(), None);
    assert_eq!(run.selection(), None);
}

#[test]
fn clipboard_results_map_to_outcomes() {
    assert!(matches!(try_clipboard(Ok(Some("w".into()))), SelectionOutcome::Text(t) if t == "w"));
    assert!(matches!(try_clipboard(Ok(None)), SelectionOutcome::NoSelection));
    assert!(matches!(try_clipboard(Err(AppError::Capture("x".into()))), SelectionOutcome::Unsupported));
}

#[test]
fn clipboard_candidate_rules() {
    let r = clipboard_result(Ok(()), Some("new".into()), Some("old".into())).unwrap();
    assert_eq!(r, Some("new".to_string()));
    let r = clipboard_result(Ok(()), Some("same".into()), Some("same".into())).unwrap();
    assert_eq!(r, None);
    let r = clipboard_result(Ok(()), Some(String::new()), None).unwrap();
    assert_eq!(r, None);
    let r = clipboard_result(Ok(()), None, Some("old".into())).unwrap();
    assert_eq!(r, None);
    let r = clipboard_result(Ok(()), Some("fresh".into()), None).unwrap();
    assert_eq!(r, Some("fresh".to_string()));
    match clipboard_result(Err(AppError::Capture("send".into())), Some("new".into()), None) {
        Err(AppError::Capture(m)) => assert_eq!(m, "send"),
        other => panic!("unexpected {other:?}"),
    }
}

#[test]
fn panic_messages() {
    assert_eq!(panic_message(Some("boom"), None), "boom");
    let owned = "owned".to_string();
    assert_eq!(panic_message(None, Some(&owned)), "owned");
    assert_eq!(panic_message(None, None), "<unknown panic payload>");
}
