use kingdom_click::gui::{log_text, AppState, ResourceInteractionButton};
use kingdom_click::kingdom::{ResourceError, ResourceStore};
use kingdom_click::log::{Log, LOG_SEPARATOR};
use kingdom_click::resource::{starting_resources, KingdomID, ResourceReference, ResourceTypes, Transform};
use kingdom_click::text::{int_to_text, nat_to_text};

#[test]
fn decimal_text() {
    assert_eq!(nat_to_text(0), "0");
    assert_eq!(nat_to_text(7), "7");
    assert_eq!(nat_to_text(10), "10");
    assert_eq!(nat_to_text(1234567890), "1234567890");
    assert_eq!(nat_to_text(u64::MAX), u64::MAX.to_string());
    assert_eq!(int_to_text(0), "0");
    assert_eq!(int_to_text(-42), "-42");
    assert_eq!(int_to_text(i64::MAX), i64::MAX.to_string());
    assert_eq!(int_to_text(-i64::MAX), (-i64::MAX).to_string());
}

#[test]
fn resource_names_and_order() {
    let names: Vec<&str> = starting_resources().iter().map(|t| t.name()).collect();
    assert_eq!(names, vec!["Food", "Industry", "Faith", "Populace", "Military", "Happiness"]);
    for (i, t) in starting_resources().iter().enumerate() {
        assert_eq!(t.index(), i);
        assert_eq!(ResourceTypes::from_index(i), *t);
    }
}

#[test]
fn transforms() {
    assert_eq!(Transform::Increment(3).apply(50), 53);
    assert_eq!(Transform::Increment(10).apply(u32::MAX - 5), u32::MAX);
    assert_eq!(Transform::Decrement(3).apply(50), 47);
    assert_eq!(Transform::Decrement(60).apply(50), 0);
    assert_eq!(Transform::SetTo(9).apply(50), 9);
    assert_eq!(Transform::Multiply(3).apply(50), 150);
    assert_eq!(Transform::Multiply(u32::MAX).apply(u32::MAX), u32::MAX);
    assert_eq!(Transform::Multiply(0).apply(50), 0);
    assert_eq!(Transform::SetTo(9).delta(50), -41);
    assert_eq!(Transform::Increment(1).delta(50), 1);
    assert_eq!(Transform::SetTo(0).delta(u32::MAX), -(u32::MAX as i64));
}

#[test]
fn store_operations() {
    let mut s = ResourceStore::setup_kingdoms();
    let r = ResourceReference { kingdom: KingdomID(2), resource: ResourceTypes::Faith };
    assert_eq!(s.kingdom_count_exec(), 2);
    assert!(s.contains(&r));
    assert_eq!(s.lookup(&r).unwrap().value, 50);
    s.add_change(&r, 5);
    s.add_change(&r, -2);
    assert_eq!(s.resource(&r).change, 3);
    s.commit_changes();
    assert_eq!(s.resource(&r).value, 53);
    assert_eq!(s.resource(&r).change, 3);
    let other = ResourceReference { kingdom: KingdomID(1), resource: ResourceTypes::Faith };
    assert_eq!(s.resource(&other).value, 50);
    s.clear_changes();
    assert_eq!(s.resource(&r).change, 0);
    assert_eq!(s.resource(&r).value, 53);
    let missing = ResourceReference { kingdom: KingdomID(3), resource: ResourceTypes::Food };
    assert!(!s.contains(&missing));
    assert_eq!(s.lookup(&missing), Err(ResourceError::NotFound));
}

fn entry(h: &str, d: &str) -> (String, String) {
    (h.to_string(), d.to_string())
}

#[test]
fn log_trim_keeps_newest() {
    let mut log = Log::new();
    for i in 0..15 {
        log.push(format!("h{}", i), format!("d{}", i));
    }
    log.trim();
    assert_eq!(log.len(), 11);
    assert_eq!(log.0[0], entry("h4", "d4"));
    assert_eq!(log.0[10], entry("h14", "d14"));
    log.trim();
    assert_eq!(log.len(), 11);
}

#[test]
fn log_trim_short_log_unchanged() {
    let mut log = Log::new();
    log.push("a".to_string(), "b".to_string());
    log.trim();
    assert_eq!(log.0, vec![entry("a", "b")]);
}

#[test]
fn log_edits_at_turn_start() {
    let mut log = Log::new();
    for i in 0..11 {
        log.push(format!("h{}", i), String::new());
    }
    log.start_of_turn_log_edits();
    assert_eq!(log.len(), 12);
    assert_eq!(log.0[11], entry(LOG_SEPARATOR, ""));
    assert_eq!(LOG_SEPARATOR, "-".repeat(49));
    log.start_of_turn_log_edits();
    assert_eq!(log.len(), 12);
    assert_eq!(log.0[0], entry("h1", ""));
}

#[test]
fn log_panel_text() {
    let mut log = Log::new();
    assert_eq!(log_text(&log), "");
    log.push("Bless".to_string(), "1 to Food".to_string());
    log.push("Sep".to_string(), String::new());
    assert_eq!(log_text(&log), "Bless\n1 to Food\nSep\n");
}

#[test]
fn interaction_button_event() {
    let r = ResourceReference { kingdom: KingdomID(1), resource: ResourceTypes::Food };
    let b = ResourceInteractionButton::new(r);
    assert_eq!(b.message, "You bless the fields.");
    assert_eq!(b.interactions, vec![(r, Transform::Increment(1))]);
    let e = b.do_resource_interaction();
    assert_eq!(e.message, "You bless the fields.");
    assert_eq!(e.changes, vec![(r, Transform::Increment(1))]);
    let h = ResourceInteractionButton::new(ResourceReference {
        kingdom: KingdomID(2),
        resource: ResourceTypes::Happiness,
    });
    assert_eq!(h.message, "You help an old woman find her keys.");
}

#[test]
fn main_menu_start() {
    let mut s = AppState::MainMenu;
    s.update_main_menu(false);
    assert_eq!(s, AppState::MainMenu);
    s.update_main_menu(true);
    assert_eq!(s, AppState::Playing);
    s.update_main_menu(true);
    assert_eq!(s, AppState::Playing);
    let mut l = AppState::Loading;
    l.update_main_menu(true);
    assert_eq!(l, AppState::Loading);
}
