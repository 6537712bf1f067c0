use meiqiu_dict::selection::SelectionOutcome;
use meiqiu_dict::uia::{collect_ranges, try_get_selection, UiaReading, MAX_TEXT};

fn text_of(o: SelectionOutcome) -> Option<String> {
    match o {
        SelectionOutcome::Text(t) => Some(t),
        _ => None,
    }
}

#[test]
fn unavailable_or_failed_is_unsupported() {
    assert!(matches!(try_get_selection(UiaReading::Unavailable), SelectionOutcome::Unsupported));
    assert!(matches!(try_get_selection(UiaReading::Failed), SelectionOutcome::Unsupported));
}

#[test]
fn no_ranges_or_blank_text_is_no_selection() {
    assert!(matches!(try_get_selection(UiaReading::Ranges(vec![])), SelectionOutcome::NoSelection));
    let r = UiaReading::Ranges(vec![Some("  ".into()), None, Some("\n".into())]);
    assert!(matches!(try_get_selection(r), SelectionOutcome::NoSelection));
}

#[test]
fn readable_ranges_are_concatenated() {
    let r = UiaReading::Ranges(vec![Some("foo".into()), None, Some(" bar".into())]);
    assert_eq!(text_of(try_get_selection(r)), Some("foo bar".to_string()));
}

#[test]
fn collection_stops_at_the_limit_and_cuts() {
    let big = "a".repeat(MAX_TEXT + 10);
    let pieces = vec![Some(big.clone()), Some("tail".to_string())];
    assert_eq!(collect_ranges(&pieces), big);
    let t = text_of(try_get_selection(UiaReading::Ranges(pieces))).unwrap();
    assert_eq!(t.len(), MAX_TEXT);
    let pieces = vec![Some("a".repeat(MAX_TEXT - 1)), Some("bc".to_string()), Some("d".to_string())];
    assert_eq!(collect_ranges(&pieces).len(), MAX_TEXT + 1);
}

#[test]
fn cut_inside_a_character_moves_back_to_its_start() {
    let s = format!("{}é", "a".repeat(MAX_TEXT - 1));
    let t = text_of(try_get_selection(UiaReading::Ranges(vec![Some(s)]))).unwrap();
    assert_eq!(t, "a".repeat(MAX_TEXT - 1));
    let s = format!("{}中文", "b".repeat(MAX_TEXT - 2));
    let t = text_of(try_get_selection(UiaReading::Ranges(vec![Some(s)]))).unwrap();
    assert_eq!(t, "b".repeat(MAX_TEXT - 2));
    let s = "中".repeat(2000);
    let t = text_of(try_get_selection(UiaReading::Ranges(vec![Some(s)]))).unwrap();
    assert_eq!(t, "中".repeat(1365));
}
