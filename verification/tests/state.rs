use churro_cli::state::{AppState, Token, MAX_DELAY_SECS, MIN_DELAY_SECS};

#[test]
fn initialized_starts_with_defaults() {
    let state = AppState::initialized();
    assert!(state.is_initialized());
    assert_eq!(state.duration(), Some(MIN_DELAY_SECS));
    assert_eq!(state.count_sleep(), Some(0));
    assert_eq!(state.count_tick(), Some(0));
    assert!(!state.is_authenticated());
}

#[test]
fn counters_grow_by_exactly_one_per_call() {
    let mut state = AppState::initialized();
    state.incr_tick();
    assert_eq!(state.count_tick(), Some(1));
    state.incr_tick();
    state.incr_tick();
    assert_eq!(state.count_tick(), Some(3));
    assert_eq!(state.count_sleep(), Some(0));
    state.incr_sleep();
    assert_eq!(state.count_sleep(), Some(1));
    state.incr_sleep();
    assert_eq!(state.count_sleep(), Some(2));
    assert_eq!(state.count_tick(), Some(3));
}

#[test]
fn mutators_are_no_ops_before_initialization() {
    let mut state = AppState::new();
    assert!(!state.is_initialized());
    state.incr_tick();
    state.incr_sleep();
    state.increment_delay();
    state.decrement_delay();
    state.set_token(Token { access_token: String::from("t-0") });
    assert!(!state.is_initialized());
    assert_eq!(state.count_tick(), None);
    assert_eq!(state.count_sleep(), None);
    assert_eq!(state.duration(), None);
    assert!(!state.is_authenticated());
}

#[test]
fn delay_saturates_at_the_lower_bound() {
    let mut state = AppState::initialized();
    assert_eq!(state.duration(), Some(1));
    state.decrement_delay();
    assert_eq!(state.duration(), Some(1));
    state.decrement_delay();
    state.decrement_delay();
    assert_eq!(state.duration(), Some(MIN_DELAY_SECS));
}

#[test]
fn delay_saturates_at_the_upper_bound() {
    let mut state = AppState::initialized();
    for _ in 0..12 {
        state.increment_delay();
    }
    assert_eq!(state.duration(), Some(MAX_DELAY_SECS));
    state.increment_delay();
    assert_eq!(state.duration(), Some(MAX_DELAY_SECS));
}

#[test]
fn delay_stays_in_range_under_mixed_adjustments() {
    let mut state = AppState::initialized();
    let ups_and_downs = [true, true, false, true, false, false, false, true, true, true, true, true];
    for up in ups_and_downs {
        if up {
            state.increment_delay();
        } else {
            state.decrement_delay();
        }
        let d = state.duration().unwrap();
        assert!((MIN_DELAY_SECS..=MAX_DELAY_SECS).contains(&d));
    }
    // one lower saturates at 1 along the way, so the run ends at 6
    assert_eq!(state.duration(), Some(6));
}

#[test]
fn set_token_authenticates_only_when_initialized() {
    let mut state = AppState::initialized();
    assert!(!state.is_authenticated());
    state.set_token(Token { access_token: String::from("t-1") });
    assert!(state.is_authenticated());
}

#[test]
fn default_state_is_uninitialized() {
    let state = AppState::default();
    assert!(!state.is_initialized());
    assert_eq!(state.duration(), None);
}
