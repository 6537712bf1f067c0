use meiqiu_dict::window::{clamp_rect, clamp_to_monitor, Position, Rect, Size};

fn mon() -> (Position, Size) {
    (Position::new(0, 0), Size::new(1920, 1080))
}

#[test]
fn inside_is_unchanged() {
    let (p, s) = mon();
    let out = clamp_rect(Position::new(100, 200), Size::new(360, 260), &p, &s);
    assert_eq!(out, Position::new(100, 200));
}

#[test]
fn right_edge_pulls_in() {
    let (p, s) = mon();
    let out = clamp_rect(Position::new(1800, 100), Size::new(360, 260), &p, &s);
    assert_eq!(out, Position::new(1920 - 360, 100));
}

#[test]
fn bottom_edge_pulls_up() {
    let (p, s) = mon();
    let out = clamp_rect(Position::new(100, 1000), Size::new(360, 260), &p, &s);
    assert_eq!(out, Position::new(100, 1080 - 260));
}

#[test]
fn negative_anchor_snaps_to_origin() {
    let (p, s) = mon();
    let out = clamp_rect(Position::new(-50, -50), Size::new(360, 260), &p, &s);
    assert_eq!(out, Position::new(0, 0));
}

#[test]
fn secondary_monitor_origin_respected() {
    let p = Position::new(1920, 0);
    let s = Size::new(1280, 720);
    let out = clamp_rect(Position::new(3100, 100), Size::new(360, 260), &p, &s);
    assert_eq!(out, Position::new(1920 + 1280 - 360, 100));
}

#[test]
fn window_wider_than_monitor_sits_at_left_edge() {
    let (p, s) = mon();
    let out = clamp_rect(Position::new(500, 500), Size::new(4000, 2000), &p, &s);
    assert_eq!(out, Position::new(0, 0));
}

#[test]
fn clamping_twice_changes_nothing() {
    let (p, s) = mon();
    let once = clamp_rect(Position::new(5000, -7), Size::new(360, 260), &p, &s);
    let twice = clamp_rect(once, Size::new(360, 260), &p, &s);
    assert_eq!(once, twice);
}

#[test]
fn picks_the_monitor_under_the_anchor() {
    let left = Rect::new(Position::new(0, 0), Size::new(1920, 1080));
    let right = Rect::new(Position::new(1920, 0), Size::new(1280, 720));
    let monitors = vec![left, right];
    let out = clamp_to_monitor(&monitors, Some(left), Position::new(3100, 700), Size::new(360, 260));
    assert_eq!(out, Position::new(1920 + 1280 - 360, 720 - 260));
}

#[test]
fn falls_back_to_primary_then_anchor() {
    let left = Rect::new(Position::new(0, 0), Size::new(1920, 1080));
    let monitors: Vec<Rect> = Vec::new();
    let out = clamp_to_monitor(&monitors, Some(left), Position::new(-300, 5000), Size::new(360, 260));
    assert_eq!(out, Position::new(0, 1080 - 260));
    let out = clamp_to_monitor(&monitors, None, Position::new(-300, 5000), Size::new(360, 260));
    assert_eq!(out, Position::new(-300, 5000));
}
