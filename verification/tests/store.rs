use ratatui::style::{Color, Style};
use text_overlay::overlay::{Overlay, OverlayFace, OverlayManager, UnderlineStyle};

fn tint(color: Color) -> OverlayFace {
    OverlayFace::Background { color }
}

fn named(range: std::ops::Range<usize>, priority: i32, id: &str) -> Overlay {
    Overlay::with_id(range, tint(Color::Red), id.to_string()).with_priority_value(priority)
}

fn ids(store: &OverlayManager) -> Vec<String> {
    store.all().iter().map(|o| o.id.clone().unwrap_or_default()).collect()
}

#[test]
fn contains_is_half_open_for_every_position_nearby() {
    let overlay = Overlay::new(3..6, tint(Color::Red));
    for p in 0..10usize {
        assert_eq!(overlay.contains(p), 3 <= p && p < 6, "position {p}");
    }
}

#[test]
fn overlaps_follows_the_interval_rule_for_every_small_range() {
    let overlay = Overlay::new(3..6, tint(Color::Red));
    for start in 0..9usize {
        for end in start..9usize {
            let expected = 3 < end && start < 6;
            assert_eq!(overlay.overlaps(&(start..end)), expected, "range {start}..{end}");
        }
    }
}

#[test]
fn touching_ranges_do_not_overlap() {
    let overlay = Overlay::new(5..10, tint(Color::Red));
    assert!(!overlay.overlaps(&(10..15)));
    assert!(!overlay.overlaps(&(0..5)));
    assert!(!overlay.overlaps(&(10..10)));
    assert!(!overlay.overlaps(&(5..5)));
}

#[test]
fn empty_overlay_covers_no_position() {
    let overlay = Overlay::new(5..5, tint(Color::Red));
    assert!(!overlay.contains(4));
    assert!(!overlay.contains(5));
    assert!(!overlay.contains(6));
    // Two empty ranges never overlap.
    assert!(!overlay.overlaps(&(5..5)));
    // An empty overlay strictly inside a range overlaps it by the interval rule.
    assert!(overlay.overlaps(&(0..10)));
    assert!(!overlay.overlaps(&(5..10)));
    assert!(!overlay.overlaps(&(0..5)));
}

#[test]
fn constructors_fill_the_fields() {
    let plain = Overlay::new(1..2, tint(Color::Blue));
    assert_eq!(plain.range, 1..2);
    assert_eq!(plain.face, tint(Color::Blue));
    assert_eq!(plain.priority, 0);
    assert_eq!(plain.id, None);
    assert_eq!(plain.message, None);

    let ranked = Overlay::with_priority(1..2, tint(Color::Blue), -7);
    assert_eq!(ranked.priority, -7);
    assert_eq!(ranked.id, None);
    assert_eq!(ranked.message, None);

    let known = Overlay::with_id(1..2, tint(Color::Blue), "k".to_string());
    assert_eq!(known.priority, 0);
    assert_eq!(known.id, Some("k".to_string()));
    assert_eq!(known.message, None);

    let told = known.with_message("look".to_string()).with_priority_value(4);
    assert_eq!(told.range, 1..2);
    assert_eq!(told.face, tint(Color::Blue));
    assert_eq!(told.priority, 4);
    assert_eq!(told.id, Some("k".to_string()));
    assert_eq!(told.message, Some("look".to_string()));
}

#[test]
fn a_style_face_is_carried_unchanged() {
    let style = Style::default().fg(Color::Cyan).bg(Color::Black);
    let overlay = Overlay::new(0..1, OverlayFace::Style { style });
    let mut store = OverlayManager::new();
    store.add(overlay);
    assert_eq!(store.all()[0].face, OverlayFace::Style { style });
}

#[test]
fn presets_have_their_face_and_priority() {
    let wavy = |color| OverlayFace::Underline { color, style: UnderlineStyle::Wavy };

    let error = Overlay::error(5..10, Some("msg".to_string()));
    assert_eq!(error.range, 5..10);
    assert_eq!(error.face, wavy(Color::Red));
    assert_eq!(error.priority, 10);
    assert_eq!(error.id, None);
    assert_eq!(error.message, Some("msg".to_string()));

    let warning = Overlay::warning(5..10, Some("careful".to_string()));
    assert_eq!(warning.face, wavy(Color::Yellow));
    assert_eq!(warning.priority, 5);
    assert_eq!(warning.message, Some("careful".to_string()));

    let info = Overlay::info(5..10, None);
    assert_eq!(info.face, wavy(Color::Blue));
    assert_eq!(info.priority, 3);
    assert_eq!(info.message, None);

    let hint = Overlay::hint(5..10, Some("try this".to_string()));
    assert_eq!(
        hint.face,
        OverlayFace::Underline { color: Color::Gray, style: UnderlineStyle::Dotted }
    );
    assert_eq!(hint.priority, 1);
    assert_eq!(hint.message, Some("try this".to_string()));

    let selection = Overlay::selection(5..10);
    assert_eq!(selection.range, 5..10);
    assert_eq!(selection.face, tint(Color::Rgb(38, 79, 120)));
    assert_eq!(selection.priority, -10);
    assert_eq!(selection.id, None);
    assert_eq!(selection.message, None);

    let found = Overlay::search_match(2..4);
    assert_eq!(found.range, 2..4);
    assert_eq!(found.face, tint(Color::Rgb(72, 72, 0)));
    assert_eq!(found.priority, -5);
    assert_eq!(found.id, None);
    assert_eq!(found.message, None);
}

#[test]
fn diagnostics_paint_over_ambient_highlighting() {
    let mut store = OverlayManager::new();
    store.add(Overlay::error(0..4, None));
    store.add(Overlay::selection(0..4));
    store.add(Overlay::hint(0..4, None));
    store.add(Overlay::search_match(0..4));
    store.add(Overlay::warning(0..4, None));
    store.add(Overlay::info(0..4, None));
    let order: Vec<i32> = store.at_position(1).iter().map(|o| o.priority).collect();
    assert_eq!(order, vec![-10, -5, 1, 3, 5, 10]);
}

#[test]
fn store_is_sorted_after_every_add() {
    let mut store = OverlayManager::new();
    for (n, priority) in [3, -2, 7, 0, -2, 3, 100, i32::MIN, i32::MAX, 0].into_iter().enumerate() {
        store.add(Overlay::with_priority(n..n + 1, tint(Color::Red), priority));
        assert_eq!(store.len(), n + 1);
        let all = store.all();
        for pair in all.windows(2) {
            assert!(pair[0].priority <= pair[1].priority);
        }
    }
}

#[test]
fn equal_priorities_keep_arrival_order() {
    let mut store = OverlayManager::new();
    store.add(named(0..1, 5, "a"));
    store.add(named(0..1, 1, "b"));
    store.add(named(0..1, 5, "c"));
    store.add(named(0..1, 1, "d"));
    store.add(named(0..1, 3, "e"));
    store.add(named(0..1, 5, "f"));
    assert_eq!(ids(&store), vec!["b", "d", "e", "a", "c", "f"]);
}

#[test]
fn queries_on_an_empty_store_find_nothing() {
    let mut store = OverlayManager::new();
    assert!(store.is_empty());
    assert_eq!(store.len(), 0);
    assert!(store.at_position(0).is_empty());
    assert!(store.in_range(&(0..100)).is_empty());
    assert!(store.get_by_id("x").is_none());
    assert!(store.get_by_id_mut("x").is_none());
    assert!(store.all().is_empty());
    store.remove_by_id("x");
    store.remove_in_range(&(0..100));
    store.clear();
    assert!(store.is_empty());
}

#[test]
fn default_store_is_empty() {
    let store = OverlayManager::default();
    assert!(store.is_empty());
    assert_eq!(store.len(), 0);
}

#[test]
fn clear_empties_the_store() {
    let mut store = OverlayManager::new();
    store.add(Overlay::new(0..1, tint(Color::Red)));
    store.add(Overlay::new(2..3, tint(Color::Red)));
    assert!(!store.is_empty());
    store.clear();
    assert!(store.is_empty());
    assert_eq!(store.len(), 0);
    assert!(store.all().is_empty());
}

#[test]
fn remove_by_id_then_get_by_id_finds_nothing() {
    let mut store = OverlayManager::new();
    store.add(named(0..1, 0, "x"));
    store.add(named(2..3, 1, "y"));
    store.add(named(4..5, 2, "x"));
    store.add(Overlay::new(6..7, tint(Color::Red)));
    assert!(store.get_by_id("x").is_some());
    store.remove_by_id("x");
    assert!(store.get_by_id("x").is_none());
    assert_eq!(store.len(), 2);
    assert_eq!(ids(&store), vec!["", "y"]);
    // An identifier that was never there.
    store.remove_by_id("z");
    assert!(store.get_by_id("z").is_none());
    assert_eq!(store.len(), 2);
}

#[test]
fn remove_by_id_matches_exactly_and_never_the_unnamed() {
    let mut store = OverlayManager::new();
    store.add(named(0..1, 0, "err"));
    store.add(named(0..1, 0, "error"));
    store.add(named(0..1, 0, "Err"));
    store.add(named(0..1, 0, ""));
    store.add(Overlay::new(0..1, tint(Color::Red)));
    store.remove_by_id("err");
    assert_eq!(store.len(), 4);
    assert_eq!(ids(&store), vec!["error", "Err", "", ""]);
    // The empty identifier is an identifier; no identifier is none.
    store.remove_by_id("");
    assert_eq!(store.len(), 3);
    assert!(store.all()[2].id.is_none());
}

#[test]
fn remove_by_id_handles_text_beyond_ascii() {
    let mut store = OverlayManager::new();
    store.add(named(0..1, 0, "größe"));
    store.add(named(0..1, 0, "grosse"));
    store.add(named(0..1, 0, "größ"));
    store.remove_by_id("größe");
    assert_eq!(ids(&store), vec!["grosse", "größ"]);
    assert!(store.get_by_id("größ").is_some());
}

#[test]
fn remove_in_range_removes_exactly_what_overlaps() {
    let mut store = OverlayManager::new();
    store.add(named(5..10, 0, "a"));
    store.add(named(15..20, 0, "b"));
    store.add(named(25..30, 0, "c"));
    store.remove_in_range(&(0..12));
    assert_eq!(ids(&store), vec!["b", "c"]);
    assert_eq!(store.all()[0].range, 15..20);
    assert_eq!(store.all()[1].range, 25..30);
}

#[test]
fn remove_in_range_keeps_the_rest_in_order_and_unchanged() {
    let mut store = OverlayManager::new();
    store.add(named(0..4, 2, "a").with_message("first".to_string()));
    store.add(named(4..8, 1, "b"));
    store.add(named(8..12, 2, "c"));
    store.add(named(2..6, 3, "d"));
    store.add(named(12..16, 1, "e"));
    // Store order: b e a c d.
    store.remove_in_range(&(4..8));
    assert_eq!(ids(&store), vec!["e", "a", "c"]);
    let a = store.get_by_id("a").unwrap();
    assert_eq!(a.range, 0..4);
    assert_eq!(a.priority, 2);
    assert_eq!(a.message, Some("first".to_string()));
    // Touching ranges stay.
    store.remove_in_range(&(4..8));
    assert_eq!(ids(&store), vec!["e", "a", "c"]);
}

#[test]
fn removing_twice_changes_nothing_the_second_time() {
    let mut store = OverlayManager::new();
    store.add(named(0..4, 2, "a"));
    store.add(named(4..8, 1, "b"));
    store.add(named(8..12, 2, "a"));
    store.add(named(2..6, 3, "d"));

    store.remove_by_id("a");
    let once = ids(&store);
    store.remove_by_id("a");
    assert_eq!(ids(&store), once);
    assert_eq!(once, vec!["b", "d"]);

    store.remove_in_range(&(5..6));
    let once = ids(&store);
    store.remove_in_range(&(5..6));
    assert_eq!(ids(&store), once);
    assert!(once.is_empty());
}

#[test]
fn at_position_leaves_out_what_does_not_cover() {
    let mut store = OverlayManager::new();
    store.add(named(5..10, 0, "e1"));
    store.add(named(15..20, 0, "e2"));
    store.remove_by_id("e1");
    assert!(store.at_position(7).is_empty());
    let found = store.at_position(17);
    assert_eq!(found.len(), 1);
    assert_eq!(found[0].id, Some("e2".to_string()));
    assert!(store.at_position(20).is_empty());
    assert_eq!(store.at_position(15).len(), 1);
}

#[test]
fn in_range_finds_what_overlaps_in_store_order() {
    let mut store = OverlayManager::new();
    store.add(named(0..5, 3, "a"));
    store.add(named(5..10, 1, "b"));
    store.add(named(8..20, 2, "c"));
    store.add(named(30..40, 0, "d"));
    let found: Vec<_> = store.in_range(&(4..9)).iter().map(|o| o.id.clone().unwrap()).collect();
    assert_eq!(found, vec!["b", "c", "a"]);
    assert!(store.in_range(&(20..30)).is_empty());
    // An empty range strictly inside an overlay overlaps it by the interval rule.
    assert_eq!(store.in_range(&(7..7)).len(), 1);
    assert!(store.in_range(&(5..5)).is_empty());
    assert_eq!(store.in_range(&(0..100)).len(), 4);
}

#[test]
fn get_by_id_finds_the_first_in_store_order() {
    let mut store = OverlayManager::new();
    store.add(named(0..1, 5, "x"));
    store.add(named(2..3, 1, "x"));
    store.add(named(4..5, 3, "y"));
    let found = store.get_by_id("x").unwrap();
    assert_eq!(found.range, 2..3);
    assert_eq!(found.priority, 1);
    assert_eq!(store.get_by_id("y").unwrap().range, 4..5);
    assert!(store.get_by_id("z").is_none());
}

#[test]
fn get_by_id_mut_changes_the_overlay_in_place() {
    let mut store = OverlayManager::new();
    store.add(named(0..1, 5, "x"));
    store.add(named(2..3, 1, "x"));
    store.add(named(4..5, 3, "y"));
    {
        let first = store.get_by_id_mut("x").unwrap();
        assert_eq!(*first.range, 2..3);
        assert_eq!(*first.priority, 1);
        assert_eq!(*first.id, Some("x".to_string()));
        assert_eq!(*first.message, None);
        *first.range = 2..30;
        *first.message = Some("grown".to_string());
    }
    assert_eq!(store.len(), 3);
    let all = store.all();
    assert_eq!(all[0].range, 2..30);
    assert_eq!(all[0].message, Some("grown".to_string()));
    assert_eq!(all[1].range, 4..5);
    assert_eq!(all[2].range, 0..1);
    assert_eq!(store.at_position(20).len(), 1);
    assert!(store.get_by_id_mut("z").is_none());
}

#[test]
fn all_hands_out_the_whole_store_in_order() {
    let mut store = OverlayManager::new();
    store.add(named(0..1, 2, "a"));
    store.add(named(1..2, -1, "b"));
    store.add(named(2..3, 0, "c"));
    assert_eq!(ids(&store), vec!["b", "c", "a"]);
    assert_eq!(store.all().len(), store.len());
}

#[test]
fn is_named_compares_the_whole_identifier() {
    let known = named(0..1, 0, "e1");
    assert!(known.is_named("e1"));
    assert!(!known.is_named("e"));
    assert!(!known.is_named("e12"));
    assert!(!known.is_named(""));
    let unnamed = Overlay::new(0..1, tint(Color::Red));
    assert!(!unnamed.is_named(""));
    assert!(!unnamed.is_named("e1"));
}

#[test]
fn a_cloned_store_holds_equal_overlays_and_is_its_own() {
    let mut store = OverlayManager::new();
    store.add(Overlay::error(0..4, Some("bad".to_string())));
    store.add(Overlay::selection(2..9));
    store.add(Overlay::new(1..2, OverlayFace::Style { style: Style::default().fg(Color::Cyan) }));
    store.add(
        Overlay::with_id(
            3..5,
            OverlayFace::Foreground { color: Color::Indexed(7) },
            "x".to_string(),
        ),
    );
    let mut copy = store.clone();
    assert_eq!(copy.len(), store.len());
    for (a, b) in copy.all().iter().zip(store.all()) {
        assert_eq!(a.range, b.range);
        assert_eq!(a.face, b.face);
        assert_eq!(a.priority, b.priority);
        assert_eq!(a.id, b.id);
        assert_eq!(a.message, b.message);
    }
    copy.clear();
    assert!(copy.is_empty());
    assert_eq!(store.len(), 4);
}

#[test]
fn a_change_in_place_keeps_order_and_length() {
    let mut store = OverlayManager::new();
    store.add(named(0..1, 1, "a"));
    store.add(named(1..2, 1, "b"));
    store.add(named(2..3, 1, "c"));
    store.add(named(3..4, 2, "d"));
    store.add(named(4..5, 0, "e"));
    let before = ids(&store);
    assert_eq!(before, vec!["e", "a", "b", "c", "d"]);
    {
        let b = store.get_by_id_mut("b").unwrap();
        *b.range = 10..20;
        *b.message = Some("moved".to_string());
        *b.face = OverlayFace::Foreground { color: Color::Green };
    }
    assert_eq!(ids(&store), before);
    assert_eq!(store.len(), 5);
    let priorities: Vec<i32> = store.all().iter().map(|o| o.priority).collect();
    assert_eq!(priorities, vec![0, 1, 1, 1, 2]);
    let b = store.get_by_id("b").unwrap();
    assert_eq!(b.range, 10..20);
    assert_eq!(b.message, Some("moved".to_string()));
    assert_eq!(b.face, OverlayFace::Foreground { color: Color::Green });
    assert_eq!(b.priority, 1);
    // The others are as they were.
    assert_eq!(store.get_by_id("a").unwrap().range, 0..1);
    assert_eq!(store.get_by_id("c").unwrap().range, 2..3);
}

#[test]
fn an_identifier_changed_in_place_is_found_under_the_new_one() {
    let mut store = OverlayManager::new();
    store.add(named(0..1, 3, "old"));
    store.add(named(1..2, 1, "other"));
    *store.get_by_id_mut("old").unwrap().id = Some("new".to_string());
    assert!(store.get_by_id("old").is_none());
    assert_eq!(store.get_by_id("new").unwrap().range, 0..1);
    assert_eq!(ids(&store), vec!["other", "new"]);
    *store.get_by_id_mut("new").unwrap().id = None;
    assert!(store.get_by_id("new").is_none());
    assert_eq!(store.len(), 2);
}

#[test]
fn the_store_stays_sorted_through_every_operation() {
    fn sorted(store: &OverlayManager) -> bool {
        store.all().windows(2).all(|pair| pair[0].priority <= pair[1].priority)
    }
    let mut store = OverlayManager::new();
    for (n, priority) in [4, -1, 4, 0, 9, -1, 2].into_iter().enumerate() {
        store.add(named(n..n + 3, priority, &format!("o{}", n % 3)));
        assert!(sorted(&store));
    }
    *store.get_by_id_mut("o1").unwrap().range = 50..60;
    assert!(sorted(&store));
    store.remove_in_range(&(0..2));
    assert!(sorted(&store));
    store.remove_by_id("o2");
    assert!(sorted(&store));
    let found: Vec<i32> = store.in_range(&(0..100)).iter().map(|o| o.priority).collect();
    assert!(found.windows(2).all(|pair| pair[0] <= pair[1]));
    assert!(sorted(&store.clone()));
    store.clear();
    assert!(sorted(&store));
}
