use kingdom_click::game::{EventError, Game, GodActionEvent, ResourceAlterationEvent, TurnState};
use kingdom_click::kingdom::ResourceError;
use kingdom_click::log::LOG_SEPARATOR;
use kingdom_click::resource::{KingdomID, ResourceReference, ResourceTypes, Transform};

fn food(k: usize) -> ResourceReference {
    ResourceReference { kingdom: KingdomID(k), resource: ResourceTypes::Food }
}

fn res(k: usize, t: ResourceTypes) -> ResourceReference {
    ResourceReference { kingdom: KingdomID(k), resource: t }
}

fn event(message: &str, changes: Vec<(ResourceReference, Transform)>) -> ResourceAlterationEvent {
    ResourceAlterationEvent { message: message.to_string(), changes }
}

fn log_pairs(g: &Game) -> Vec<(String, String)> {
    g.log().0.clone()
}

fn separator() -> (String, String) {
    (LOG_SEPARATOR.to_string(), String::new())
}

#[test]
fn new_game_starts_at_fifty() {
    let g = Game::new();
    assert_eq!(g.state(), TurnState::WaitingForGod);
    assert_eq!(g.kingdom_count(), 2);
    for k in 1..=2 {
        for t in kingdom_click::resource::starting_resources() {
            assert_eq!(g.value(&res(k, t)), Ok(50));
        }
    }
    assert_eq!(g.kingdom(KingdomID(1)).unwrap().name, "Kingdom 1");
    assert_eq!(g.kingdom(KingdomID(2)).unwrap().name, "Kingdom 2");
    assert!(g.kingdom(KingdomID(3)).is_none());
    assert!(g.kingdom(KingdomID(0)).is_none());
    assert!(log_pairs(&g).is_empty());
}

#[test]
fn bless_food_scenario() {
    let mut g = Game::new();
    assert_eq!(g.send_resource_event(event("Bless", vec![(food(1), Transform::Increment(1))])), Ok(()));
    g.send_god_action(GodActionEvent);
    g.update();
    assert_eq!(g.value(&food(1)), Ok(51));
    assert_eq!(g.value(&res(1, ResourceTypes::Industry)), Ok(50));
    assert_eq!(g.value(&food(2)), Ok(50));
    let log = log_pairs(&g);
    assert!(log.contains(&("Bless".to_string(), "1 to Food".to_string())));
    assert_eq!(log, vec![("Bless".to_string(), "1 to Food".to_string()), separator()]);
    assert_eq!(g.state(), TurnState::WaitingForGod);
}

#[test]
fn two_increments_in_one_turn_sum() {
    let mut g = Game::new();
    g.send_resource_event(event("a", vec![(food(1), Transform::Increment(1))])).unwrap();
    g.send_resource_event(event("b", vec![(food(1), Transform::Increment(1))])).unwrap();
    g.send_god_action(GodActionEvent);
    g.update();
    assert_eq!(g.value(&food(1)), Ok(52));
}

#[test]
fn increment_then_double_uses_snapshot() {
    // Chained application would give (50 + 1) * 2 = 102; measured against
    // the committed 50, the deltas are +1 and +50.
    let mut g = Game::new();
    g.send_resource_event(event("inc", vec![(food(1), Transform::Increment(1))])).unwrap();
    g.send_resource_event(event("double", vec![(food(1), Transform::Multiply(2))])).unwrap();
    g.send_god_action(GodActionEvent);
    g.update();
    assert_eq!(g.value(&food(1)), Ok(101));
    let log = log_pairs(&g);
    assert_eq!(log[0], ("inc".to_string(), "1 to Food".to_string()));
    assert_eq!(log[1], ("double".to_string(), "50 to Food".to_string()));
}

#[test]
fn event_order_does_not_matter() {
    let mut a = Game::new();
    let mut b = Game::new();
    a.send_resource_event(event("x", vec![(food(1), Transform::SetTo(10))])).unwrap();
    a.send_resource_event(event("y", vec![(food(1), Transform::Multiply(3))])).unwrap();
    b.send_resource_event(event("y", vec![(food(1), Transform::Multiply(3))])).unwrap();
    b.send_resource_event(event("x", vec![(food(1), Transform::SetTo(10))])).unwrap();
    for g in [&mut a, &mut b] {
        g.send_god_action(GodActionEvent);
        g.update();
    }
    // 50 + (10 - 50) + (150 - 50)
    assert_eq!(a.value(&food(1)), Ok(110));
    assert_eq!(b.value(&food(1)), Ok(110));
}

#[test]
fn empty_event_round_trip() {
    let mut g = Game::new();
    g.send_resource_event(event("Nothing happens.", vec![])).unwrap();
    g.check_for_god_action();
    g.clear_change();
    g.tally_changes();
    assert_eq!(g.state(), TurnState::ApplyingChanges);
    g.apply_changes();
    assert_eq!(g.state(), TurnState::WaitingForGod);
    g.start_of_turn_log_edits();
    for k in 1..=2 {
        for t in kingdom_click::resource::starting_resources() {
            assert_eq!(g.value(&res(k, t)), Ok(50));
        }
    }
    assert_eq!(
        log_pairs(&g),
        vec![("Nothing happens.".to_string(), String::new()), separator()]
    );
}

#[test]
fn turn_without_events_logs_only_separator() {
    let mut g = Game::new();
    g.send_god_action(GodActionEvent);
    g.update();
    assert_eq!(log_pairs(&g), vec![separator()]);
    assert_eq!(g.value(&food(1)), Ok(50));
}

#[test]
fn log_bounded_after_every_turn() {
    let mut g = Game::new();
    for turn in 0..20 {
        g.send_resource_event(event(&format!("turn {}", turn), vec![(food(2), Transform::Increment(1))]))
            .unwrap();
        g.send_god_action(GodActionEvent);
        g.update();
        let log = log_pairs(&g);
        assert!(log.len() <= 12);
        assert_eq!(log.last().unwrap(), &separator());
    }
    let log = log_pairs(&g);
    assert_eq!(log.len(), 12);
    assert_eq!(log[10], ("turn 19".to_string(), "1 to Food".to_string()));
    assert_eq!(g.value(&food(2)), Ok(70));
}

#[test]
fn god_action_ignored_while_counting() {
    let mut g = Game::new();
    g.send_resource_event(event("Bless", vec![(food(1), Transform::Increment(1))])).unwrap();
    g.send_god_action(GodActionEvent);
    g.check_for_god_action();
    assert_eq!(g.state(), TurnState::CountingChanges);
    g.send_god_action(GodActionEvent);
    g.check_for_god_action();
    assert_eq!(g.state(), TurnState::CountingChanges);
    g.clear_change();
    g.tally_changes();
    assert_eq!(g.state(), TurnState::ApplyingChanges);
    g.send_god_action(GodActionEvent);
    g.check_for_god_action();
    assert_eq!(g.state(), TurnState::ApplyingChanges);
    g.apply_changes();
    g.start_of_turn_log_edits();
    assert_eq!(g.state(), TurnState::WaitingForGod);
    // The dropped god actions do not start another turn.
    g.update();
    assert_eq!(g.value(&food(1)), Ok(51));
    assert_eq!(log_pairs(&g).len(), 2);
}

#[test]
fn extra_god_actions_collapse() {
    let mut g = Game::new();
    g.send_resource_event(event("Bless", vec![(food(1), Transform::Increment(1))])).unwrap();
    g.send_god_action(GodActionEvent);
    g.send_god_action(GodActionEvent);
    g.send_god_action(GodActionEvent);
    g.update();
    g.update();
    assert_eq!(g.value(&food(1)), Ok(51));
    assert_eq!(log_pairs(&g).len(), 2);
}

#[test]
fn events_wait_for_god() {
    let mut g = Game::new();
    g.send_resource_event(event("Bless", vec![(food(1), Transform::Increment(5))])).unwrap();
    g.update();
    g.update();
    assert_eq!(g.value(&food(1)), Ok(50));
    assert_eq!(g.pending_event_count(), 1);
    assert!(log_pairs(&g).is_empty());
    g.send_god_action(GodActionEvent);
    g.update();
    assert_eq!(g.value(&food(1)), Ok(55));
    assert_eq!(g.pending_event_count(), 0);
}

#[test]
fn multi_change_event_detail() {
    let mut g = Game::new();
    g.send_resource_event(event(
        "Feast",
        vec![
            (food(1), Transform::Decrement(20)),
            (res(1, ResourceTypes::Happiness), Transform::Increment(3)),
            (res(2, ResourceTypes::Military), Transform::SetTo(0)),
        ],
    ))
    .unwrap();
    g.send_god_action(GodActionEvent);
    g.update();
    assert_eq!(
        log_pairs(&g)[0],
        ("Feast".to_string(), "-20 to Food, 3 to Happiness, -50 to Military".to_string())
    );
    assert_eq!(g.value(&food(1)), Ok(30));
    assert_eq!(g.value(&res(1, ResourceTypes::Happiness)), Ok(53));
    assert_eq!(g.value(&res(2, ResourceTypes::Military)), Ok(0));
}

#[test]
fn committed_amount_stops_at_zero() {
    let mut g = Game::new();
    g.send_resource_event(event("a", vec![(food(1), Transform::SetTo(0))])).unwrap();
    g.send_resource_event(event("b", vec![(food(1), Transform::SetTo(0))])).unwrap();
    g.send_god_action(GodActionEvent);
    g.update();
    assert_eq!(g.value(&food(1)), Ok(0));
    assert_eq!(g.resource(&food(1)).unwrap().change, -100);
}

#[test]
fn committed_amount_stops_at_max() {
    let mut g = Game::new();
    g.send_resource_event(event("a", vec![(food(1), Transform::SetTo(u32::MAX))])).unwrap();
    g.send_resource_event(event("b", vec![(food(1), Transform::Increment(u32::MAX))])).unwrap();
    g.send_god_action(GodActionEvent);
    g.update();
    assert_eq!(g.value(&food(1)), Ok(u32::MAX));
}

#[test]
fn pending_change_cleared_at_next_turn() {
    let mut g = Game::new();
    g.send_resource_event(event("a", vec![(food(1), Transform::Increment(7))])).unwrap();
    g.send_god_action(GodActionEvent);
    g.update();
    assert_eq!(g.resource(&food(1)).unwrap().change, 7);
    g.send_god_action(GodActionEvent);
    g.update();
    assert_eq!(g.resource(&food(1)).unwrap().change, 0);
    assert_eq!(g.value(&food(1)), Ok(57));
}

#[test]
fn unknown_kingdom_is_refused() {
    let mut g = Game::new();
    assert_eq!(
        g.send_resource_event(event("x", vec![(food(1), Transform::Increment(1)), (food(3), Transform::Increment(1))])),
        Err(EventError::UnknownResource)
    );
    assert_eq!(
        g.send_resource_event(event("x", vec![(food(0), Transform::Increment(1))])),
        Err(EventError::UnknownResource)
    );
    assert_eq!(g.pending_event_count(), 0);
    assert_eq!(g.value(&food(3)), Err(ResourceError::NotFound));
    assert_eq!(g.resource(&food(0)), Err(ResourceError::NotFound));
    assert_eq!(g.resource_text(&food(9)), Err(ResourceError::NotFound));
}

#[test]
fn resource_text_shows_value() {
    let mut g = Game::new();
    assert_eq!(g.resource_text(&food(1)), Ok("50".to_string()));
    g.send_resource_event(event("a", vec![(food(1), Transform::Multiply(25))])).unwrap();
    g.send_god_action(GodActionEvent);
    g.update();
    assert_eq!(g.resource_text(&food(1)), Ok("1250".to_string()));
}

#[test]
fn god_action_during_turn_does_not_start_next_turn() {
    let mut g = Game::new();
    g.send_resource_event(event("Bless", vec![(food(1), Transform::Increment(1))])).unwrap();
    g.send_god_action(GodActionEvent);
    g.check_for_god_action();
    assert_eq!(g.state(), TurnState::CountingChanges);
    g.send_god_action(GodActionEvent);
    g.clear_change();
    g.tally_changes();
    g.send_god_action(GodActionEvent);
    g.apply_changes();
    g.start_of_turn_log_edits();
    assert_eq!(g.state(), TurnState::WaitingForGod);
    g.check_for_god_action();
    assert_eq!(g.state(), TurnState::WaitingForGod);
    g.update();
    assert_eq!(g.value(&food(1)), Ok(51));
    assert_eq!(log_pairs(&g).len(), 2);
}
