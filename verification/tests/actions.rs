use churro_cli::actions::{Action, Actions};
use churro_cli::inputs::Key;

#[test]
fn iterator_lists_all_actions_in_order() {
    let all = Action::iterator();
    assert_eq!(
        all,
        vec![
            Action::Quit,
            Action::Sleep,
            Action::IncrementDelay,
            Action::DecrementDelay,
        ]
    );
}

#[test]
fn keys_are_the_fixed_trigger_sets() {
    assert_eq!(Action::Quit.keys(), vec![Key::Char('q'), Key::Ctrl('c')]);
    assert_eq!(Action::Sleep.keys(), vec![Key::Char('s')]);
    assert_eq!(Action::IncrementDelay.keys(), vec![Key::Char('i')]);
    assert_eq!(Action::DecrementDelay.keys(), vec![Key::Char('d')]);
}

#[test]
fn labels_name_the_actions() {
    assert_eq!(Action::Quit.label(), "Quit");
    assert_eq!(Action::Sleep.label(), "Sleep");
    assert_eq!(Action::IncrementDelay.label(), "Increment Delay");
    assert_eq!(Action::DecrementDelay.label(), "Decrement Delay");
}

#[test]
fn build_succeeds_when_no_key_is_shared() {
    let registry = Actions::build(vec![
        Action::Quit,
        Action::Sleep,
        Action::IncrementDelay,
        Action::DecrementDelay,
    ]);
    let registry = match registry {
        Ok(r) => r,
        Err(_) => panic!("conflict reported for a conflict-free list"),
    };
    assert_eq!(registry.actions().len(), 4);
    // every trigger key resolves to its unique owner
    assert_eq!(registry.find(Key::Char('q')), Some(Action::Quit));
    assert_eq!(registry.find(Key::Ctrl('c')), Some(Action::Quit));
    assert_eq!(registry.find(Key::Char('s')), Some(Action::Sleep));
    assert_eq!(registry.find(Key::Char('i')), Some(Action::IncrementDelay));
    assert_eq!(registry.find(Key::Char('d')), Some(Action::DecrementDelay));
}

#[test]
fn build_reports_every_offender_on_a_shared_key() {
    let report = match Actions::build(vec![Action::Quit, Action::Quit]) {
        Ok(_) => panic!("a repeated action shares its own keys"),
        Err(report) => report,
    };
    assert!(!report.is_empty());
    // both of the quit action's trigger keys are bound twice
    let mut reported_keys: Vec<Key> = report.iter().map(|c| c.key).collect();
    reported_keys.sort_by_key(|k| match k {
        Key::Char(c) => (0u8, *c),
        Key::Ctrl(c) => (1u8, *c),
        Key::Unknown => (2u8, ' '),
    });
    assert_eq!(reported_keys, vec![Key::Char('q'), Key::Ctrl('c')]);
    for conflict in &report {
        assert!(conflict.actions.len() >= 2);
        for offender in &conflict.actions {
            assert_eq!(*offender, Action::Quit);
        }
    }
}

#[test]
fn find_is_restricted_to_the_active_list() {
    let registry = match Actions::build(vec![Action::Quit]) {
        Ok(r) => r,
        Err(_) => panic!("a single action cannot conflict"),
    };
    assert_eq!(registry.find(Key::Char('q')), Some(Action::Quit));
    // bound in the full set, but not active here
    assert_eq!(registry.find(Key::Char('s')), None);
    assert_eq!(registry.find(Key::Char('i')), None);
}

#[test]
fn find_returns_nothing_for_an_unbound_key() {
    let registry = match Actions::build(Action::iterator()) {
        Ok(r) => r,
        Err(_) => panic!("the canonical set is conflict-free"),
    };
    assert_eq!(registry.find(Key::Char('x')), None);
    assert_eq!(registry.find(Key::Unknown), None);
}

#[test]
fn an_empty_registry_builds_and_finds_nothing() {
    let registry = match Actions::build(Vec::new()) {
        Ok(r) => r,
        Err(_) => panic!("an empty list cannot conflict"),
    };
    assert!(registry.actions().is_empty());
    assert_eq!(registry.find(Key::Char('q')), None);
}
